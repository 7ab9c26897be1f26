//! Evaluation of one line of player input against the target word.

use vstd::prelude::*;

verus! {

/// What one line of input amounts to.
#[derive(Clone, Copy, Debug, PartialEq, Eq, Structural)]
pub enum Outcome {
    /// The line, without its terminator, is the target.
    Match,
    /// The line is something else.
    Mismatch,
    /// The input ended, or the line holds a tab: the player leaves.
    Quit,
    /// Nothing was typed.
    Empty,
}

/// `line` without its terminator: a final line feed, together with a
/// carriage return directly before it, is dropped. Nothing else is.
pub open spec fn strip_terminator(line: Seq<char>) -> Seq<char> {
    if line.len() >= 2 && line[line.len() - 2] == '\r' && line[line.len() - 1] == '\n' {
        line.take(line.len() - 2)
    } else if line.len() >= 1 && line[line.len() - 1] == '\n' {
        line.take(line.len() - 1)
    } else {
        line
    }
}

/// The outcome of a line read for `target`. `eof` says that the input
/// channel delivered nothing more.
pub open spec fn outcome_of(eof: bool, line: Seq<char>, target: Seq<char>) -> Outcome {
    if eof || line.contains('\t') {
        Outcome::Quit
    } else if strip_terminator(line).len() == 0 {
        Outcome::Empty
    } else if strip_terminator(line) == target {
        Outcome::Match
    } else {
        Outcome::Mismatch
    }
}

/// The characters of `s`, in order.
pub fn chars_of(s: &str) -> (chars: Vec<char>)
    ensures
        chars@ == s@,
{
    let mut chars: Vec<char> = Vec::new();
    for c in it: s.chars()
        invariant
            it.seq() == s@,
            chars@ == s@.take(it.index() as int),
    {
        chars.push(c);
    }
    chars
}

/// Whether `c` occurs in `chars`.
fn holds_char(chars: &Vec<char>, c: char) -> (found: bool)
    ensures
        found == chars@.contains(c),
{
    let mut i: usize = 0;
    while i < chars.len()
        invariant
            i <= chars.len(),
            forall|j: int| 0 <= j < i ==> chars@[j] != c,
        decreases chars.len() - i,
    {
        if chars[i] == c {
            return true;
        }
        i += 1;
    }
    false
}

/// The length of `chars` without its line terminator.
fn stripped_len(chars: &Vec<char>) -> (n: usize)
    ensures
        n <= chars.len(),
        strip_terminator(chars@) == chars@.take(n as int),
{
    let len = chars.len();
    if len >= 2 && chars[len - 2] == '\r' && chars[len - 1] == '\n' {
        len - 2
    } else if len >= 1 && chars[len - 1] == '\n' {
        len - 1
    } else {
        assert(chars@.take(len as int) =~= chars@);
        len
    }
}

/// Whether the first `n` characters of `typed` are exactly `target`.
fn is_target(typed: &Vec<char>, n: usize, target: &Vec<char>) -> (same: bool)
    requires
        n <= typed.len(),
    ensures
        same == (typed@.take(n as int) == target@),
{
    if target.len() != n {
        return false;
    }
    let mut i: usize = 0;
    while i < n
        invariant
            i <= n,
            n <= typed.len(),
            n == target.len(),
            forall|j: int| 0 <= j < i ==> typed@[j] == target@[j],
        decreases n - i,
    {
        if typed[i] != target[i] {
            assert(typed@.take(n as int)[i as int] != target@[i as int]);
            return false;
        }
        i += 1;
    }
    assert(typed@.take(n as int) =~= target@);
    true
}

/// Judges one line of input against `target`. The input counts as ended
/// when `eof` is set, whatever `line` holds.
pub fn evaluate(eof: bool, line: &str, target: &str) -> (outcome: Outcome)
    ensures
        outcome == outcome_of(eof, line@, target@),
{
    if eof {
        return Outcome::Quit;
    }
    let typed = chars_of(line);
    if holds_char(&typed, '\t') {
        return Outcome::Quit;
    }
    let n = stripped_len(&typed);
    if n == 0 {
        return Outcome::Empty;
    }
    let wanted = chars_of(target);
    if is_target(&typed, n, &wanted) {
        Outcome::Match
    } else {
        Outcome::Mismatch
    }
}

} // verus!
