//! Minimum transfer rates, used to drop connections that send too slowly.
use vstd::prelude::*;
use std::time::Instant;
use crate::clock::{instant_now, instant_elapsed, duration_millis};

verus! {

/// Whether `bytes_read` bytes in `elapsed_millis` milliseconds is faster than
/// `min_bytes_per_sec` (an elapsed time of zero counts as fast enough).
pub open spec fn spec_exceeds_rate(bytes_read: int, elapsed_millis: int, min_bytes_per_sec: int) -> bool {
    if elapsed_millis > 0 {
        (bytes_read * 1000) / elapsed_millis > min_bytes_per_sec
    } else {
        true
    }
}

/// The rate test of `RateLimit::exceeds_min_rate` for a measured time.
pub fn rate_exceeds(bytes_read: usize, elapsed_millis: u128, min_bytes_per_sec: u128) -> (r: bool)
    ensures
        r == spec_exceeds_rate(bytes_read as int, elapsed_millis as int, min_bytes_per_sec as int),
{
    if elapsed_millis > 0 {
        assert(bytes_read as int * 1000 <= u128::MAX) by (nonlinear_arith)
            requires
                bytes_read <= usize::MAX,
                usize::MAX <= u64::MAX,
        ;
        (bytes_read as u128 * 1000) / elapsed_millis > min_bytes_per_sec
    } else {
        true
    }
}

/// A minimum rate measured between successive checks.
pub struct RateLimit {
    min_bytes_per_sec: u128,
    last_check: Instant,
}

impl RateLimit {
    /// The minimum rate, in bytes per second.
    pub closed spec fn min_rate(&self) -> u128 {
        self.min_bytes_per_sec
    }

    /// A limit whose first interval starts now.
    pub fn new(min_bytes_per_sec: u128) -> (r: Self)
        ensures
            r.min_rate() == min_bytes_per_sec,
    {
        Self { min_bytes_per_sec: min_bytes_per_sec, last_check: instant_now() }
    }

    /// Whether `bytes_read` bytes since the previous check (or since `new`)
    /// were read faster than the minimum rate; starts a new interval. The
    /// answer is `rate_exceeds` on the time measured by the clock, which
    /// no clause can name.
    pub fn exceeds_min_rate(&mut self, bytes_read: usize) -> (r: bool)
        ensures
            final(self).min_rate() == old(self).min_rate(),
    {
        let elapsed = duration_millis(&instant_elapsed(&self.last_check));
        self.last_check = instant_now();
        rate_exceeds(bytes_read, elapsed, self.min_bytes_per_sec)
    }
}

} // verus!
