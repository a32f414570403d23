//! The random choices of a session, drawn from `rand`'s thread-local generator.
//! Nothing is promised of which value comes out, only where it lies.
use vstd::prelude::*;
use rand::rngs::ThreadRng;
use rand::seq::SliceRandom;
use rand::Rng;

verus! {

/// `rand::rngs::ThreadRng`, the thread-local random number generator.
#[verifier::external_type_specification]
#[verifier::external_body]
pub struct ExThreadRng(ThreadRng);

/// Calls `rand::thread_rng`, which hands out the thread's generator. Nothing is stated of it.
#[verifier::external_body]
pub(crate) fn thread_rng() -> ThreadRng {
    rand::thread_rng()
}

/// Calls `SliceRandom::choose` on `items`. As its source shows, it returns `None`
/// exactly when the slice is empty, and otherwise one of its elements (here a
/// copy of it). Which element comes out depends on the generator and is not stated.
#[verifier::external_body]
pub(crate) fn choose_text(items: &Vec<String>, rng: &mut ThreadRng) -> (r: Option<String>)
    ensures
        r is None <==> items@.len() == 0,
        r matches Some(s) ==> exists|i: int| 0 <= i < items@.len() && #[trigger] items@[i]@ == s@,
{
    match items.choose(rng) {
        Some(item) => Some(item.clone()),
        None => None,
    }
}

/// Calls `Rng::gen_range` with the range `lo..=hi`, which panics on an empty range
/// and otherwise returns a value within it. Which value is not stated.
#[verifier::external_body]
pub(crate) fn gen_range_inclusive(rng: &mut ThreadRng, lo: usize, hi: usize) -> (r: usize)
    requires
        lo <= hi,
    ensures
        lo <= r <= hi,
{
    rng.gen_range(lo..=hi)
}

} // verus!
