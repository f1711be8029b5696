//! Random draws, taken from the `rand` crate.
//!
//! Nothing in this module is proved: each item states what the `rand` crate
//! documents of one of its functions, and the rest of the library relies on
//! these statements.  They only bound the outcome of a draw; no proof depends
//! on which value is drawn.

use crate::representation::Key;
use rand::rngs::ThreadRng;
use rand::seq::SliceRandom;
use rand::Rng;
use vstd::prelude::*;

verus! {

/// The generator type of `rand::thread_rng`; its state is not modelled.
#[verifier::external_type_specification]
#[verifier::external_body]
pub struct ExThreadRng(ThreadRng);

/// `rand::thread_rng` hands out the calling thread's generator, which the
/// system seeds on first use.  Nothing is claimed of the handle.
pub assume_specification[ rand::thread_rng ]() -> (rng: ThreadRng)
;

/// `Rng::gen_range` over `0..bound`: some index below `bound`.  The call
/// panics on an empty range, hence the precondition.
#[verifier::external_body]
pub(crate) fn random_index(rng: &mut ThreadRng, bound: usize) -> (r: usize)
    requires
        bound > 0,
    ensures
        r < bound,
{
    rng.gen_range(0..bound)
}

/// `SliceRandom::choose` on a list of keys: `None` for an empty list,
/// otherwise one of the keys in the list.
#[verifier::external_body]
pub(crate) fn choose_key(keys: &Vec<Key>, rng: &mut ThreadRng) -> (r: Option<Key>)
    ensures
        keys@.len() == 0 ==> r is None,
        keys@.len() > 0 ==> r is Some && keys@.contains(r->Some_0),
{
    keys.choose(rng).copied()
}

} // verus!
