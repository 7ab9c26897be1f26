//! The random source behind word selection.

use rand::rngs::ThreadRng;
use rand::seq::SliceRandom;
use vstd::prelude::*;

verus! {

/// `rand::rngs::ThreadRng`, the handle to the thread-local generator. Nothing
/// is known of its state.
#[verifier::external_type_specification]
#[verifier::external_body]
pub struct ExThreadRng(ThreadRng);

/// `rand::thread_rng` hands out the thread-local generator. Nothing is
/// claimed of the handle it returns.
pub assume_specification[ rand::thread_rng ]() -> (rng: ThreadRng);

/// `rand::seq::SliceRandom::choose` on the slice behind `words`: it returns
/// `None` exactly for an empty slice, and otherwise a reference to one of the
/// slice's elements. Which element is left open.
#[verifier::external_body]
pub(crate) fn choose_word<'a>(words: &'a Vec<String>, rng: &mut ThreadRng) -> (picked: Option<
    &'a String,
>)
    ensures
        picked is None <==> words@.len() == 0,
        picked matches Some(w) ==> words@.contains(*w),
{
    words.choose(rng)
}

} // verus!
