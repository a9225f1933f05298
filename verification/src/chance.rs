//! The round's source of chance: the thread-local generator of `rand`.

use vstd::prelude::*;
use rand::seq::IteratorRandom;
use rand::Rng;

verus! {

/// Calls `rand::seq::IteratorRandom::choose` on the entries of `candidates`
/// with `rand::thread_rng()`.
///
/// Trusted: `choose` hands back one of the items it is given, and nothing
/// exactly when it is given none. Which item comes back is left open. The
/// generator's first use on a thread panics if the system cannot seed it.
#[verifier::external_body]
pub(crate) fn pick_one(candidates: &Vec<usize>) -> (picked: Option<usize>)
    ensures
        picked is None <==> candidates@.len() == 0,
        picked matches Some(i) ==> candidates@.contains(i),
{
    candidates.iter().copied().choose(&mut rand::thread_rng())
}

/// Calls `rand::Rng::gen_range` on `low..high` with `rand::thread_rng()`.
///
/// Trusted: the value lies in the half-open range. `gen_range` panics on an
/// empty range, which the precondition rules out. The generator's first use
/// on a thread panics if the system cannot seed it.
#[verifier::external_body]
pub(crate) fn random_between(low: u64, high: u64) -> (r: u64)
    requires
        low < high,
    ensures
        low <= r < high,
{
    rand::thread_rng().gen_range(low..high)
}

} // verus!
