//! The time types the library hands on, and the monotonic clock reading that a
//! new application starts with.
use vstd::prelude::*;

use std::time::Duration;
use std::time::Instant;

verus! {

#[verifier::external_type_specification]
#[verifier::external_body]
pub struct ExInstant(std::time::Instant);

/// `Instant::now()`: an opaque reading of the monotonic clock.
#[verifier::external_body]
pub(crate) fn instant_now() -> (t: Instant) {
    Instant::now()
}

/// The `Duration` that `Duration::from_secs(secs)` builds.
pub uninterp spec fn duration_of_secs(secs: u64) -> Duration;

/// `Duration` is `Copy`: its `clone` returns the same duration.
pub assume_specification[ <Duration as Clone>::clone ](d: &Duration) -> (r: Duration)
    ensures
        r == *d,
;

/// `Duration::from_secs`: the duration of `secs` whole seconds.
#[verifier::external_body]
pub(crate) fn duration_from_secs(secs: u64) -> (d: Duration)
    ensures
        d == duration_of_secs(secs),
{
    Duration::from_secs(secs)
}

} // verus!
