//! Randomness, behind two trusted wrappers.
//!
//! Every verified caller treats a draw as an arbitrary value within
//! its stated bounds: nothing downstream may depend on more than that.

use vstd::prelude::*;

use rand::Rng;
use rand::RngCore;

verus! {

/// Relies on rand's `RngCore::next_u64` via the thread-local generator;
/// nothing can be promised of the value.
#[verifier::external_body]
pub(crate) fn random_u64() -> u64 {
    rand::thread_rng().next_u64()
}

/// Relies on rand's `Rng::gen_range` over a half-open range, which
/// panics on an empty range and otherwise returns a value within it.
#[verifier::external_body]
pub(crate) fn random_in_range(lo: i64, hi: i64) -> (r: i64)
    requires
        lo < hi,
    ensures
        lo <= r < hi,
{
    rand::thread_rng().gen_range(lo..hi)
}

} // verus!
