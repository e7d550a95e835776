//! Trusted boundary to the system random number generator.
//!
//! Everything random in the simulation — gene values, mutation coin flips,
//! tournament draws, starting positions — is obtained through the single
//! wrapper below, so each caller is verified for every value the generator
//! could hand back.

use vstd::prelude::*;
use rand::Rng;

verus! {

/// Relies on rand's `Rng::gen_range` over the half-open integer range
/// `lo..hi`: for a non-empty range it returns a value in `[lo, hi)`; it
/// panics only on an empty range, which the precondition rules out.
/// Nothing more is assumed — in particular not that two calls agree.
#[verifier::external_body]
pub(crate) fn rand_in_range(lo: u64, hi: u64) -> (r: u64)
    requires
        lo < hi,
    ensures
        lo <= r < hi,
{
    rand::thread_rng().gen_range(lo..hi)
}

} // verus!
