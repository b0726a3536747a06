//! Monotonic time, read through `std::time`.
use vstd::prelude::*;
use std::time::Duration;
use std::time::Instant;

verus! {

/// `std::time::Instant`, carried through the accounting types unopened.
#[verifier::external_type_specification]
#[verifier::external_body]
pub struct ExInstant(Instant);

/// `Instant::now`. Nothing is claimed of the result: it is the time.
#[verifier::external_body]
pub(crate) fn instant_now() -> Instant {
    Instant::now()
}

/// `Instant::elapsed`. Nothing is claimed of the result: it depends on the time.
#[verifier::external_body]
pub(crate) fn instant_elapsed(earlier: &Instant) -> Duration {
    earlier.elapsed()
}

/// `Instant::duration_since` (which saturates to zero). Nothing is claimed
/// of the result: the instants are opaque here.
#[verifier::external_body]
pub(crate) fn instant_duration_since(later: &Instant, earlier: &Instant) -> Duration {
    later.duration_since(*earlier)
}

/// `Duration::as_millis`. Nothing is claimed of the result: durations are
/// opaque here.
#[verifier::external_body]
pub(crate) fn duration_millis(d: &Duration) -> u128 {
    d.as_millis()
}

/// `Duration::as_secs`. Nothing is claimed of the result: durations are
/// opaque here.
#[verifier::external_body]
pub(crate) fn duration_secs(d: &Duration) -> u64 {
    d.as_secs()
}

} // verus!
