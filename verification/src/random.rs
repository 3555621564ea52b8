use rand::Rng;
use vstd::prelude::*;

verus! {

/// Draws a number uniformly from `0..bound` with `rand::thread_rng().gen_range`.
/// Trusted: the contract claims only that the number lies in the range, which
/// `gen_range` promises for a non-empty range (it panics on an empty one,
/// hence the `requires`). Which number comes out is left unsaid: it is chance.
#[verifier::external_body]
pub(crate) fn random_below(bound: usize) -> (r: usize)
    requires
        bound > 0,
    ensures
        r < bound,
{
    rand::thread_rng().gen_range(0..bound)
}

} // verus!
