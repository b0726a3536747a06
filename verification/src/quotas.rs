//! Upload quotas per client address: a byte allowance that refills over time.
use vstd::prelude::*;
use vstd::rwlock::{RwLock, RwLockPredicate, WriteHandle};
use std::sync::Arc;
use std::time::Instant;
use crate::clock::{instant_now, instant_duration_since, duration_secs};

verus! {

/// The allowance after `elapsed_secs` seconds of refilling at
/// `bytes_per_minute`, capped at `max_bytes`.
pub open spec fn spec_replenished(
    bytes_remaining: int,
    max_bytes: int,
    bytes_per_minute: int,
    elapsed_secs: int,
) -> int {
    let refilled = bytes_remaining + (elapsed_secs * bytes_per_minute) / 60;
    if refilled < max_bytes {
        refilled
    } else {
        max_bytes
    }
}

/// A refill gives back allowance with the time measured: never less for a
/// longer time, at least one byte more once a byte's worth of time has
/// passed (until the maximum), and the whole maximum once time enough for
/// it has passed.
pub proof fn lemma_refill_follows_time(r: int, max: int, per_minute: int, e1: int, e2: int)
    requires
        0 <= r <= max,
        per_minute >= 0,
        0 <= e1 <= e2,
    ensures
        r <= spec_replenished(r, max, per_minute, e1) <= max,
        spec_replenished(r, max, per_minute, e1) <= spec_replenished(r, max, per_minute, e2),
        r < max && e1 * per_minute >= 60 ==> spec_replenished(r, max, per_minute, e1) > r,
        e1 * per_minute >= 60 * (max - r) ==> spec_replenished(r, max, per_minute, e1) == max,
{
    assert(e1 * per_minute <= e2 * per_minute) by (nonlinear_arith)
        requires
            0 <= e1 <= e2,
            per_minute >= 0,
    ;
    assert((e1 * per_minute) / 60 <= (e2 * per_minute) / 60) by (nonlinear_arith)
        requires
            e1 * per_minute <= e2 * per_minute,
    ;
    assert(e1 * per_minute >= 0) by (nonlinear_arith)
        requires
            e1 >= 0,
            per_minute >= 0,
    ;
    assert(e1 * per_minute >= 60 ==> (e1 * per_minute) / 60 >= 1) by (nonlinear_arith);
    assert(e1 * per_minute >= 60 * (max - r) ==> (e1 * per_minute) / 60 >= max - r) by (nonlinear_arith);
}

/// The allowance after a refill of `elapsed_secs` seconds followed by taking
/// `num_bytes` from it, if that many remain.
pub open spec fn spec_deducted(
    bytes_remaining: int,
    max_bytes: int,
    bytes_per_minute: int,
    elapsed_secs: int,
    num_bytes: int,
) -> int {
    let refilled = spec_replenished(bytes_remaining, max_bytes, bytes_per_minute, elapsed_secs);
    if refilled >= num_bytes {
        refilled - num_bytes
    } else {
        refilled
    }
}

/// The state of one address's quota.
pub struct QuotaData {
    bytes_remaining: usize,
    max_bytes: usize,
    bytes_per_minute: usize,
    num_accessors: usize,
    last_access: Instant,
    /// The seconds the clock measured between the last two refills.
    last_refill_secs: Ghost<u64>,
}

impl QuotaData {
    pub closed spec fn remaining(&self) -> usize {
        self.bytes_remaining
    }

    pub closed spec fn max(&self) -> usize {
        self.max_bytes
    }

    pub closed spec fn per_minute(&self) -> usize {
        self.bytes_per_minute
    }

    /// Number of connections using this quota.
    pub closed spec fn accessors(&self) -> usize {
        self.num_accessors
    }

    /// The seconds that the clock measured, at the last refill, since the
    /// refill before it (or since the quota was made): the time the last
    /// refill was for.
    pub closed spec fn last_refill(&self) -> u64 {
        self.last_refill_secs@
    }

    /// The allowance never exceeds its maximum.
    pub open spec fn wf(&self) -> bool {
        self.remaining() <= self.max()
    }

    /// A full quota with one accessor, refilled from now on.
    pub fn new(max_bytes: usize, bytes_per_minute: usize) -> (r: Self)
        ensures
            r.remaining() == max_bytes,
            r.max() == max_bytes,
            r.per_minute() == bytes_per_minute,
            r.accessors() == 1,
            r.wf(),
    {
        QuotaData {
            num_accessors: 1,
            bytes_remaining: max_bytes,
            max_bytes,
            bytes_per_minute,
            last_access: instant_now(),
            last_refill_secs: Ghost(0),
        }
    }

    /// Refills the allowance for `elapsed_secs` seconds.
    pub fn replenish_by(&mut self, elapsed_secs: u64)
        requires
            old(self).wf(),
        ensures
            final(self).remaining() == spec_replenished(
                old(self).remaining() as int,
                old(self).max() as int,
                old(self).per_minute() as int,
                elapsed_secs as int,
            ),
            final(self).max() == old(self).max(),
            final(self).per_minute() == old(self).per_minute(),
            final(self).accessors() == old(self).accessors(),
            final(self).last_refill() == old(self).last_refill(),
            final(self).wf(),
    {
        assert(elapsed_secs as int * self.bytes_per_minute as int <= u64::MAX as int * u64::MAX as int)
            by (nonlinear_arith)
            requires
                elapsed_secs <= u64::MAX,
                self.bytes_per_minute <= u64::MAX,
                self.bytes_per_minute >= 0,
        ;
        let refill: u128 = (elapsed_secs as u128 * self.bytes_per_minute as u128) / 60;
        let refilled: u128 = self.bytes_remaining as u128 + refill;
        self.bytes_remaining = if refilled < self.max_bytes as u128 {
            refilled as usize
        } else {
            self.max_bytes
        };
    }

    /// Refills the allowance for the time since the last refill, as the
    /// clock measures it, and records that time (`last_refill`).
    pub fn replenish(&mut self)
        requires
            old(self).wf(),
        ensures
            final(self).remaining() == spec_replenished(
                old(self).remaining() as int,
                old(self).max() as int,
                old(self).per_minute() as int,
                final(self).last_refill() as int,
            ),
            final(self).max() == old(self).max(),
            final(self).per_minute() == old(self).per_minute(),
            final(self).accessors() == old(self).accessors(),
            final(self).wf(),
    {
        let ghost before = *self;
        let now = instant_now();
        let elapsed = duration_secs(&instant_duration_since(&now, &self.last_access));
        self.last_access = now;
        proof {
            self.last_refill_secs@ = elapsed;
        }
        self.replenish_by(elapsed);
        assert(self.remaining() == spec_replenished(
            before.remaining() as int,
            before.max() as int,
            before.per_minute() as int,
            elapsed as int,
        ));
    }

    /// Refills the allowance, then tells whether `num_bytes` remain.
    pub fn check(&mut self, num_bytes: usize) -> (r: bool)
        requires
            old(self).wf(),
        ensures
            final(self).remaining() == spec_replenished(
                old(self).remaining() as int,
                old(self).max() as int,
                old(self).per_minute() as int,
                final(self).last_refill() as int,
            ),
            r == (final(self).remaining() >= num_bytes),
            final(self).max() == old(self).max(),
            final(self).per_minute() == old(self).per_minute(),
            final(self).accessors() == old(self).accessors(),
            final(self).wf(),
    {
        self.replenish();
        self.bytes_remaining >= num_bytes
    }

    /// Refills the allowance, then takes `num_bytes` from it if they remain.
    pub fn deduct(&mut self, num_bytes: usize)
        requires
            old(self).wf(),
        ensures
            final(self).remaining() == spec_deducted(
                old(self).remaining() as int,
                old(self).max() as int,
                old(self).per_minute() as int,
                final(self).last_refill() as int,
                num_bytes as int,
            ),
            final(self).max() == old(self).max(),
            final(self).per_minute() == old(self).per_minute(),
            final(self).accessors() == old(self).accessors(),
            final(self).wf(),
    {
        let enough = self.check(num_bytes);
        if enough {
            self.bytes_remaining -= num_bytes;
        }
    }

    /// One more connection uses this quota (the count stops at `usize::MAX`).
    pub fn access(&mut self)
        ensures
            final(self).accessors() == if old(self).accessors() < usize::MAX {
                old(self).accessors() + 1
            } else {
                old(self).accessors() as int
            },
            final(self).remaining() == old(self).remaining(),
            final(self).max() == old(self).max(),
            final(self).per_minute() == old(self).per_minute(),
    {
        if self.num_accessors < usize::MAX {
            self.num_accessors += 1;
        }
    }

    /// One connection stops using this quota (the count stops at zero).
    pub fn release(&mut self)
        ensures
            final(self).accessors() == if old(self).accessors() >= 1 {
                old(self).accessors() - 1
            } else {
                0
            },
            final(self).remaining() == old(self).remaining(),
            final(self).max() == old(self).max(),
            final(self).per_minute() == old(self).per_minute(),
    {
        if self.num_accessors >= 1 {
            self.num_accessors -= 1;
        }
    }

    /// Whether a quota is still worth keeping after a refill: it is in use,
    /// or it has not refilled completely.
    pub fn is_retained(&self) -> (r: bool)
        ensures
            r == (self.accessors() > 0 || self.remaining() < self.max()),
    {
        self.num_accessors > 0 || self.bytes_remaining < self.max_bytes
    }
}

/// The lock invariant of a quota: never more allowance than the maximum.
pub struct QuotaInvariant;

impl RwLockPredicate<QuotaData> for QuotaInvariant {
    open spec fn inv(self, v: QuotaData) -> bool {
        v.wf()
    }
}

/// A handle on one address's quota, or a dummy quota that never runs out.
/// A clone is the same quota, not counted as one more accessor (see
/// `share`).
#[derive(Clone)]
pub struct Quota {
    mtx: Option<Arc<RwLock<QuotaData, QuotaInvariant>>>,
}

impl Quota {
    /// Whether this is the dummy quota that never runs out.
    pub closed spec fn is_unlimited(&self) -> bool {
        self.mtx is None
    }

    /// A "dummy" quota which never runs out.
    pub fn unlimited() -> (r: Self)
        ensures
            r.is_unlimited(),
    {
        Self { mtx: None }
    }

    /// A new full quota with one accessor.
    pub fn new(max_bytes: usize, bytes_per_minute: usize) -> (r: Self)
        ensures
            !r.is_unlimited(),
    {
        let data = QuotaData::new(max_bytes, bytes_per_minute);
        Self { mtx: Some(Arc::new(RwLock::new(data, Ghost(QuotaInvariant)))) }
    }

    /// Another handle on the same quota, counted as one more accessor (the
    /// count behind the lock changes as `QuotaGuard::add_accessor` states).
    pub fn share(&self) -> (r: Self)
        ensures
            r.is_unlimited() == self.is_unlimited(),
    {
        let mut g = self.lock();
        g.add_accessor();
        g.release();
        match &self.mtx {
            Some(mtx) => Quota { mtx: Some(mtx.clone()) },
            None => Quota { mtx: None },
        }
    }

    /// Refills the quota and tells whether it is still worth keeping (see
    /// `QuotaData::is_retained`); the dummy quota is kept. For a shared
    /// quota the answer depends on the data behind its lock, which other
    /// handles change, so no clause states it.
    pub fn refill_and_check_retained(&self) -> (r: bool)
        ensures
            self.is_unlimited() ==> r,
    {
        match &self.mtx {
            Some(mtx) => {
                let (mut data, handle) = mtx.acquire_write();
                data.replenish();
                let keep = data.is_retained();
                handle.release_write(data);
                keep
            },
            None => true,
        }
    }

    /// Locks the quota. The guard must be given back with `release`.
    pub fn lock(&self) -> (g: QuotaGuard<'_>)
        ensures
            g.data() is None <==> self.is_unlimited(),
            g.data() matches Some(d) ==> d.wf(),
    {
        match &self.mtx {
            Some(mtx) => {
                let (data, handle) = mtx.acquire_write();
                QuotaGuard { guard: Some((data, handle)) }
            },
            None => QuotaGuard { guard: None },
        }
    }

    /// Ends this handle: its connection no longer uses the quota (the count
    /// behind the lock changes as `QuotaGuard::remove_accessor` states).
    pub fn release(self) {
        let mut g = self.lock();
        g.remove_accessor();
        g.release();
    }
}

/// Exclusive access to a quota.
pub struct QuotaGuard<'a> {
    guard: Option<(QuotaData, WriteHandle<'a, QuotaData, QuotaInvariant>)>,
}

impl<'a> QuotaGuard<'a> {
    /// The locked data, `None` for the dummy quota.
    pub closed spec fn data(&self) -> Option<QuotaData> {
        match self.guard {
            Some((d, _)) => Some(d),
            None => None,
        }
    }

    /// Refills the quota and tells whether `num_bytes` remain (always, for
    /// the dummy quota).
    pub fn check(&mut self, num_bytes: usize) -> (r: bool)
        requires
            old(self).data() matches Some(d) ==> d.wf(),
        ensures
            match (old(self).data(), final(self).data()) {
                (Some(a), Some(b)) => {
                    &&& b.remaining() == spec_replenished(
                            a.remaining() as int,
                            a.max() as int,
                            a.per_minute() as int,
                            b.last_refill() as int,
                        )
                    &&& r == (b.remaining() >= num_bytes)
                    &&& b.max() == a.max() && b.per_minute() == a.per_minute()
                    &&& b.accessors() == a.accessors()
                    &&& b.wf()
                },
                (None, None) => r,
                _ => false,
            },
    {
        match &mut self.guard {
            Some((quota, _)) => quota.check(num_bytes),
            None => true,
        }
    }

    /// Refills the quota, then takes `num_bytes` from it if they remain.
    pub fn deduct(&mut self, num_bytes: usize)
        requires
            old(self).data() matches Some(d) ==> d.wf(),
        ensures
            match (old(self).data(), final(self).data()) {
                (Some(a), Some(b)) => {
                    &&& b.remaining() == spec_deducted(
                            a.remaining() as int,
                            a.max() as int,
                            a.per_minute() as int,
                            b.last_refill() as int,
                            num_bytes as int,
                        )
                    &&& b.max() == a.max() && b.per_minute() == a.per_minute()
                    &&& b.accessors() == a.accessors()
                    &&& b.wf()
                },
                (None, None) => true,
                _ => false,
            },
    {
        if let Some((quota, _)) = &mut self.guard {
            quota.deduct(num_bytes);
        }
    }

    /// Counts one more connection using the quota (the count stops at
    /// `usize::MAX`).
    pub fn add_accessor(&mut self)
        requires
            old(self).data() matches Some(d) ==> d.wf(),
        ensures
            match (old(self).data(), final(self).data()) {
                (Some(a), Some(b)) => {
                    &&& b.accessors() == if a.accessors() < usize::MAX {
                        a.accessors() + 1
                    } else {
                        a.accessors() as int
                    }
                    &&& b.remaining() == a.remaining() && b.max() == a.max() && b.per_minute()
                        == a.per_minute()
                    &&& b.wf()
                },
                (None, None) => true,
                _ => false,
            },
    {
        if let Some((quota, _)) = &mut self.guard {
            quota.access();
        }
    }

    /// Counts one connection fewer using the quota (the count stops at
    /// zero).
    pub fn remove_accessor(&mut self)
        requires
            old(self).data() matches Some(d) ==> d.wf(),
        ensures
            match (old(self).data(), final(self).data()) {
                (Some(a), Some(b)) => {
                    &&& b.accessors() == if a.accessors() >= 1 {
                        a.accessors() - 1
                    } else {
                        0
                    }
                    &&& b.remaining() == a.remaining() && b.max() == a.max() && b.per_minute()
                        == a.per_minute()
                    &&& b.wf()
                },
                (None, None) => true,
                _ => false,
            },
    {
        if let Some((quota, _)) = &mut self.guard {
            quota.release();
        }
    }

    /// Unlocks the quota, keeping the changes made through this guard.
    pub fn release(self)
        requires
            self.data() matches Some(d) ==> d.wf(),
    {
        match self.guard {
            Some((data, handle)) => handle.release_write(data),
            None => {},
        }
    }
}

} // verus!
