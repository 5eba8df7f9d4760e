//! The crate's single source of randomness.
//!
//! Every stochastic operation (mutation choice, random field generation,
//! belief-space proposals) draws through `rand_below`, so the trusted surface
//! toward the random number generator is one function.

use vstd::prelude::*;

verus! {

/// Relies on rand::random_range: a uniform draw from a non-empty half-open
/// range lies in that range.
#[verifier::external_body]
pub(crate) fn rand_below(n: u64) -> (r: u64)
    requires
        1 <= n,
    ensures
        r < n,
{
    rand::random_range(0..n)
}

/// A uniform draw from the non-empty range `lo..hi`.
pub(crate) fn rand_between(lo: i64, hi: i64) -> (r: i64)
    requires
        lo < hi,
        hi as int - lo as int <= i64::MAX as int,
    ensures
        lo <= r < hi,
{
    let width: u64 = (hi - lo) as u64;
    let d: u64 = rand_below(width);
    lo + d as i64
}

} // verus!
