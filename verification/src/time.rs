//! Lengths of time.

use std::time::Duration;
use vstd::prelude::*;

verus! {

/// The length of a `std::time::Duration` in nanoseconds.
pub uninterp spec fn duration_nanos(duration: Duration) -> nat;

/// Calls `std::time::Duration::from_secs`.
///
/// Trusted: the duration is that number of whole seconds long.
#[verifier::external_body]
pub(crate) fn duration_from_secs(secs: u64) -> (r: Duration)
    ensures
        duration_nanos(r) == secs * 1_000_000_000,
{
    Duration::from_secs(secs)
}

} // verus!
