//! Randomness for the simulation: spawn positions and sidestep
//! re-rolls draw from the process-global generator of the `rand`
//! crate. Every decision taken on a drawn value is made by a verified
//! function that receives the value as an argument, so the logic is
//! proved for every possible draw.

use vstd::prelude::*;

verus! {

/// Relies on `rand::Rng::gen_range` on `rand::thread_rng`: returns a
/// value of the half-open range `[lo, hi)`, and panics only on an
/// empty range, which the precondition rules out. Nothing more is
/// promised of a random draw.
#[verifier::external_body]
pub(crate) fn sample_range(lo: i64, hi: i64) -> (r: i64)
    requires
        lo < hi,
    ensures
        lo <= r < hi,
{
    rand::Rng::gen_range(&mut rand::thread_rng(), lo..hi)
}

} // verus!
