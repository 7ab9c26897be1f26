//! The word bank: words sorted into four difficulty tiers by their length.

use crate::random::choose_word;
use rand::thread_rng;
use std::collections::HashMap;
use vstd::prelude::*;

verus! {

broadcast use vstd::std_specs::hash::group_hash_axioms;

/// The tier of a word of `len` characters: 3 to 5 characters make tier 1,
/// 6 to 8 tier 2, 9 to 11 tier 3, 12 and more tier 4. Shorter words have none.
pub open spec fn tier_of_len(len: nat) -> Option<u32> {
    if len < 3 {
        None
    } else if len <= 5 {
        Some(1u32)
    } else if len <= 8 {
        Some(2u32)
    } else if len <= 11 {
        Some(3u32)
    } else {
        Some(4u32)
    }
}

/// Whether a word has exactly `len` characters.
pub open spec fn has_len(len: nat) -> spec_fn(Seq<char>) -> bool {
    |w: Seq<char>| w.len() == len
}

/// Whether a word has at least `len` characters.
pub open spec fn at_least(len: nat) -> spec_fn(Seq<char>) -> bool {
    |w: Seq<char>| w.len() >= len
}

/// The words of `tier` among `words`. A tier below the fourth holds the
/// words of its shortest length first, then those one and two characters
/// longer; within one length, and in the fourth tier, the words keep the
/// order of `words`.
pub open spec fn tier_words(words: Seq<Seq<char>>, tier: u32) -> Seq<Seq<char>> {
    if 1 <= tier <= 3 {
        words.filter(has_len((3 * tier) as nat)) + words.filter(has_len((3 * tier + 1) as nat))
            + words.filter(has_len((3 * tier + 2) as nat))
    } else if tier == 4 {
        words.filter(at_least(12))
    } else {
        Seq::empty()
    }
}

/// The words a bank holds for `tier`; none where the bank has no such tier.
pub open spec fn bank_tier(bank: Map<u32, Vec<String>>, tier: u32) -> Seq<Seq<char>> {
    if bank.contains_key(tier) {
        bank[tier].deep_view()
    } else {
        Seq::empty()
    }
}

/// A word together with its length in characters, counted once.
#[derive(Debug)]
pub struct Word {
    text: String,
    len: usize,
}

impl View for Word {
    type V = Seq<char>;

    closed spec fn view(&self) -> Seq<char> {
        self.text@
    }
}

impl DeepView for Word {
    type V = Seq<char>;

    open spec fn deep_view(&self) -> Seq<char> {
        self.view()
    }
}

impl Word {
    #[verifier::type_invariant]
    spec fn measured(self) -> bool {
        self.len == self.text@.len()
    }

    /// Measures `text`.
    pub fn new(text: String) -> (word: Word)
        ensures
            word@ == text@,
            word@.len() <= usize::MAX,
    {
        let len = text.as_str().unicode_len();
        Word { text, len }
    }

    /// The number of characters.
    pub fn len(&self) -> (len: usize)
        ensures
            len == self@.len(),
    {
        proof {
            use_type_invariant(self);
        }
        self.len
    }

    /// The characters.
    pub fn as_str(&self) -> (text: &str)
        ensures
            text@ == self@,
    {
        self.text.as_str()
    }

    /// A copy of the characters.
    pub fn text(&self) -> (text: String)
        ensures
            text@ == self@,
    {
        self.text.clone()
    }
}

/// The tier of a word of `len` characters.
pub fn tier_for(len: usize) -> (tier: Option<u32>)
    ensures
        tier == tier_of_len(len as nat),
{
    if len < 3 {
        None
    } else if len <= 5 {
        Some(1)
    } else if len <= 8 {
        Some(2)
    } else if len <= 11 {
        Some(3)
    } else {
        Some(4)
    }
}

proof fn lemma_filter_push(words: Seq<Seq<char>>, w: Seq<char>, kept: spec_fn(Seq<char>) -> bool)
    ensures
        words.push(w).filter(kept) == if kept(w) {
            words.filter(kept).push(w)
        } else {
            words.filter(kept)
        },
{
    reveal(Seq::filter);
    assert(words.push(w).drop_last() =~= words);
}

/// Appends to `out` the words of `len` characters, or of at least `len`
/// characters where `longer` is set, in the order of `words`.
fn push_words(out: &mut Vec<String>, words: &Vec<String>, len: usize, longer: bool)
    ensures
        final(out).deep_view() == old(out).deep_view() + words.deep_view().filter(
            if longer {
                at_least(len as nat)
            } else {
                has_len(len as nat)
            },
        ),
{
    let ghost all = words.deep_view();
    let ghost kept = if longer {
        at_least(len as nat)
    } else {
        has_len(len as nat)
    };
    let mut i: usize = 0;
    proof {
        reveal(Seq::filter);
        assert(all.take(0).filter(kept) =~= Seq::<Seq<char>>::empty());
        assert(out.deep_view() =~= old(out).deep_view() + all.take(0).filter(kept));
    }
    while i < words.len()
        invariant
            i <= words.len(),
            all == words.deep_view(),
            kept == if longer {
                at_least(len as nat)
            } else {
                has_len(len as nat)
            },
            out.deep_view() == old(out).deep_view() + all.take(i as int).filter(kept),
        decreases words.len() - i,
    {
        let n = words[i].as_str().unicode_len();
        let ghost w = words@[i as int]@;
        proof {
            assert(all.take(i + 1) =~= all.take(i as int).push(w));
            lemma_filter_push(all.take(i as int), w, kept);
        }
        if n == len || (longer && n > len) {
            let ghost before = out.deep_view();
            let word = words[i].clone();
            out.push(word);
            assert(out.deep_view() =~= before.push(word@));
            assert(out.deep_view() =~= old(out).deep_view() + all.take(i + 1).filter(kept));
        }
        i += 1;
    }
    proof {
        assert(all.take(i as int) =~= all);
    }
}

/// Sorts `words` into the four tiers. Every tier from 1 to 4 is present in
/// the result, also when it is empty; words shorter than three characters are
/// in none.
pub fn parse_to_sets(words: Vec<String>) -> (sets: HashMap<u32, Vec<String>>)
    ensures
        sets@.dom() =~= set![1u32, 2u32, 3u32, 4u32],
        forall|tier: u32| bank_tier(sets@, tier) == tier_words(words.deep_view(), tier),
{
    let ghost all = words.deep_view();
    let mut sets: HashMap<u32, Vec<String>> = HashMap::new();
    let mut tier: u32 = 1;
    while tier <= 3
        invariant
            1 <= tier <= 4,
            all == words.deep_view(),
            forall|t: u32| sets@.contains_key(t) <==> 1 <= t < tier,
            forall|t: u32| 1 <= t < tier ==> bank_tier(sets@, t) == tier_words(all, t),
        decreases 4 - tier,
    {
        let shortest: usize = 3 * (tier as usize);
        let mut set: Vec<String> = Vec::new();
        assert(set.deep_view() =~= Seq::<Seq<char>>::empty());
        push_words(&mut set, &words, shortest, false);
        push_words(&mut set, &words, shortest + 1, false);
        push_words(&mut set, &words, shortest + 2, false);
        assert(set.deep_view() =~= tier_words(all, tier));
        sets.insert(tier, set);
        tier += 1;
    }
    let mut long: Vec<String> = Vec::new();
    assert(long.deep_view() =~= Seq::<Seq<char>>::empty());
    push_words(&mut long, &words, 12, true);
    assert(long.deep_view() =~= tier_words(all, 4));
    sets.insert(4, long);
    assert(sets@.dom() =~= set![1u32, 2u32, 3u32, 4u32]);
    sets
}

proof fn lemma_filter_membership(
    words: Seq<Seq<char>>,
    kept: spec_fn(Seq<char>) -> bool,
    w: Seq<char>,
)
    ensures
        words.filter(kept).contains(w) <==> words.contains(w) && kept(w),
{
    let found = words.filter(kept);
    if found.contains(w) {
        let i = choose|i: int| 0 <= i < found.len() && found[i] == w;
        words.lemma_filter_pred(kept, i);
        words.lemma_filter_contains_rev(kept, w);
    }
    if words.contains(w) && kept(w) {
        let i = choose|i: int| 0 <= i < words.len() && words[i] == w;
        words.lemma_filter_contains(kept, i);
    }
}

/// A word is in a tier exactly when it is among the words and its length
/// gives that tier.
pub proof fn lemma_tier_membership(words: Seq<Seq<char>>, w: Seq<char>, tier: u32)
    ensures
        tier_words(words, tier).contains(w) <==> words.contains(w) && tier_of_len(w.len()) == Some(
            tier,
        ),
{
    if 1 <= tier <= 3 {
        let a = words.filter(has_len((3 * tier) as nat));
        let b = words.filter(has_len((3 * tier + 1) as nat));
        let c = words.filter(has_len((3 * tier + 2) as nat));
        lemma_filter_membership(words, has_len((3 * tier) as nat), w);
        lemma_filter_membership(words, has_len((3 * tier + 1) as nat), w);
        lemma_filter_membership(words, has_len((3 * tier + 2) as nat), w);
        let all = a + b + c;
        if all.contains(w) {
            let i = choose|i: int| 0 <= i < all.len() && all[i] == w;
            if i < a.len() {
                assert(a[i] == w);
            } else if i < a.len() + b.len() {
                assert(b[i - a.len()] == w);
            } else {
                assert(c[i - a.len() - b.len()] == w);
            }
        }
        if a.contains(w) {
            let i = choose|i: int| 0 <= i < a.len() && a[i] == w;
            assert(all[i] == w);
        }
        if b.contains(w) {
            let i = choose|i: int| 0 <= i < b.len() && b[i] == w;
            assert(all[a.len() + i] == w);
        }
        if c.contains(w) {
            let i = choose|i: int| 0 <= i < c.len() && c[i] == w;
            assert(all[a.len() + b.len() + i] == w);
        }
    } else if tier == 4 {
        lemma_filter_membership(words, at_least(12), w);
    }
}

/// The number of words in the four tiers together.
pub open spec fn tiered_count(words: Seq<Seq<char>>) -> nat {
    tier_words(words, 1).len() + tier_words(words, 2).len() + tier_words(words, 3).len()
        + tier_words(words, 4).len()
}

proof fn lemma_tier_len_push(words: Seq<Seq<char>>, w: Seq<char>, tier: u32)
    ensures
        tier_words(words.push(w), tier).len() == tier_words(words, tier).len() + if tier_of_len(
            w.len(),
        ) == Some(tier) {
            1nat
        } else {
            0nat
        },
{
    if 1 <= tier <= 3 {
        lemma_filter_push(words, w, has_len((3 * tier) as nat));
        lemma_filter_push(words, w, has_len((3 * tier + 1) as nat));
        lemma_filter_push(words, w, has_len((3 * tier + 2) as nat));
    } else if tier == 4 {
        lemma_filter_push(words, w, at_least(12));
    }
}

/// The tiers split the words of three or more characters among them: each
/// such word is in one of the tiers 1 to 4, no word is in two tiers, nothing
/// is in a tier but such a word, and the tiers together hold as many words as
/// there are of that length.
pub proof fn lemma_tiers_partition(words: Seq<Seq<char>>)
    ensures
        forall|w: Seq<char>|
            words.contains(w) && w.len() >= 3 ==> exists|tier: u32|
                1 <= tier <= 4 && #[trigger] tier_words(words, tier).contains(w),
        forall|w: Seq<char>, t1: u32, t2: u32|
            #[trigger] tier_words(words, t1).contains(w) && #[trigger] tier_words(
                words,
                t2,
            ).contains(w) ==> t1 == t2,
        forall|w: Seq<char>, tier: u32| #[trigger]
            tier_words(words, tier).contains(w) ==> words.contains(w) && w.len() >= 3 && 1 <= tier
                <= 4,
        tiered_count(words) == words.filter(at_least(3)).len(),
    decreases words.len(),
{
    assert forall|w: Seq<char>| words.contains(w) && w.len() >= 3 implies exists|tier: u32|
        1 <= tier <= 4 && #[trigger] tier_words(words, tier).contains(w) by {
        let tier = tier_of_len(w.len())->0;
        lemma_tier_membership(words, w, tier);
        assert(1 <= tier <= 4 && tier_words(words, tier).contains(w));
    }
    assert forall|w: Seq<char>, t1: u32, t2: u32|
        #[trigger] tier_words(words, t1).contains(w) && #[trigger] tier_words(words, t2).contains(
            w,
        ) implies t1 == t2 by {
        lemma_tier_membership(words, w, t1);
        lemma_tier_membership(words, w, t2);
    }
    assert forall|w: Seq<char>, tier: u32| #[trigger]
        tier_words(words, tier).contains(w) implies words.contains(w) && w.len() >= 3 && 1 <= tier
        <= 4 by {
        lemma_tier_membership(words, w, tier);
    }
    reveal(Seq::filter);
    if words.len() > 0 {
        let rest = words.drop_last();
        let w = words.last();
        lemma_tiers_partition(rest);
        assert(rest.push(w) =~= words);
        lemma_tier_len_push(rest, w, 1);
        lemma_tier_len_push(rest, w, 2);
        lemma_tier_len_push(rest, w, 3);
        lemma_tier_len_push(rest, w, 4);
        lemma_filter_push(rest, w, at_least(3));
    }
}

/// Draws one word of `tier` at random. There is none to draw exactly when
/// the bank holds no word of that tier.
pub fn draw(bank: &HashMap<u32, Vec<String>>, tier: u32) -> (word: Option<String>)
    ensures
        word is None <==> bank_tier(bank@, tier).len() == 0,
        word matches Some(w) ==> bank_tier(bank@, tier).contains(w@),
{
    match bank.get(&tier) {
        None => None,
        Some(words) => {
            let mut rng = thread_rng();
            match choose_word(words, &mut rng) {
                None => None,
                Some(picked) => {
                    let word = picked.clone();
                    proof {
                        let i = choose|i: int| 0 <= i < words@.len() && words@[i] == *picked;
                        assert(words.deep_view()[i] == word@);
                    }
                    Some(word)
                },
            }
        },
    }
}

} // verus!
