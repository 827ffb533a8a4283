//! Trusted boundary to the `rand` crate. Each wrapper makes one call into
//! `rand` and states only what holds of every outcome: the result lies in the
//! requested range. Nothing more can be promised of a random draw.

use vstd::prelude::*;

verus! {

/// Relies on rand::random_range over `0..n`: returns a value of the non-empty
/// range `[0, n)`; it panics only when the range is empty, which the
/// precondition rules out.
#[verifier::external_body]
pub(crate) fn random_below(n: usize) -> (r: usize)
    requires
        1 <= n,
    ensures
        r < n,
{
    rand::random_range(0..n)
}

/// Relies on rand::random_range over `low..high`: returns a value of the
/// non-empty range `[low, high)`; it panics only when the range is empty,
/// which the precondition rules out.
#[verifier::external_body]
pub(crate) fn random_in_range(low: u64, high: u64) -> (r: u64)
    requires
        low < high,
    ensures
        low <= r < high,
{
    rand::random_range(low..high)
}

} // verus!
