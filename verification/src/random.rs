use vstd::prelude::*;
use rand::Rng;

verus! {

/// Draws a number from `0..bound` with the thread-local generator of `rand`
/// (`rand::thread_rng().gen_range(0..bound)`). The draw depends on chance, so only
/// its range is stated; `gen_range` panics on an empty range, hence `bound > 0`.
#[verifier::external_body]
pub(crate) fn random_below(bound: u32) -> (r: u32)
    requires
        bound > 0,
    ensures
        r < bound,
{
    rand::thread_rng().gen_range(0..bound)
}

} // verus!
