//! The monotonic clock of the standard library, behind trusted calls. Nothing
//! is stated of the instants it gives: they depend on the time.
use vstd::prelude::*;
use std::time::Instant;
use std::time::Duration;

verus! {

/// `std::time::Instant`, carried through without being read.
#[verifier::external_type_specification]
#[verifier::external_body]
pub struct ExInstant(std::time::Instant);

/// `Duration` is `Copy`: its `clone` gives the same value.
pub assume_specification[ <Duration as Clone>::clone ](d: &Duration) -> (r: Duration)
    ensures
        r == *d,
;

/// Calls `Instant::now`.
#[verifier::external_body]
pub(crate) fn now() -> Instant {
    Instant::now()
}

/// Calls `Instant::elapsed`.
#[verifier::external_body]
pub(crate) fn elapsed(since: &Instant) -> Duration {
    since.elapsed()
}

/// Calls `Instant::duration_since`.
#[verifier::external_body]
pub(crate) fn duration_since(later: &Instant, earlier: &Instant) -> Duration {
    later.duration_since(*earlier)
}

/// Calls `Duration::as_millis`.
#[verifier::external_body]
pub(crate) fn as_millis(d: &Duration) -> u128 {
    d.as_millis()
}

/// The whole seconds of a duration, as `Duration::as_secs` gives them.
pub uninterp spec fn whole_secs(d: Duration) -> u64;

/// Calls `Duration::as_secs`, which gives the whole seconds of the duration
/// (a function of the duration alone). The contract names the result.
#[verifier::external_body]
pub(crate) fn as_secs(d: &Duration) -> (r: u64)
    ensures
        r == whole_secs(*d),
{
    d.as_secs()
}

} // verus!
