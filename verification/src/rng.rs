//! Trusted boundary to the `rand` crate, used for food placement.
//!
//! Nothing is assumed about which value comes back, only that it lies in the
//! requested range; every caller must be correct for any such value.

use rand::Rng;
use vstd::prelude::*;

verus! {

#[verifier::external_type_specification]
#[verifier::external_body]
pub struct ExThreadRng(rand::rngs::ThreadRng);

/// Relies on `rand::thread_rng`: a handle to the thread-local random number
/// generator.  Nothing is claimed about it.
#[verifier::external_body]
pub(crate) fn fresh_rng() -> rand::rngs::ThreadRng {
    rand::thread_rng()
}

/// Relies on `rand::Rng::gen_range` on an `i32` half-open range: the sample
/// lies in `[lo, hi)`.  It panics on an empty range, which the precondition
/// rules out.
#[verifier::external_body]
pub(crate) fn gen_in_range(rng: &mut rand::rngs::ThreadRng, lo: i32, hi: i32) -> (r: i32)
    requires
        lo < hi,
    ensures
        lo <= r < hi,
{
    rng.gen_range(lo..hi)
}

} // verus!
