use vstd::prelude::*;

verus! {

/// Draws a number uniformly from `0..bound`.
///
/// Relies on `rand::Rng::gen_range` on the thread-local generator of rand:
/// for a non-empty range it returns a value inside that range, and it panics
/// only on an empty range, which `requires` leaves out.
#[verifier::external_body]
pub(crate) fn random_below(bound: u32) -> (r: u32)
    requires
        bound > 0,
    ensures
        r < bound,
{
    rand::Rng::gen_range(&mut rand::thread_rng(), 0..bound)
}

} // verus!
