//! The limit on the total size of all stored uploads.
use vstd::prelude::*;
use vstd::rwlock::{RwLock, RwLockPredicate, WriteHandle};
use std::sync::Arc;

verus! {

/// `a + b`, or `usize::MAX` when the sum does not fit.
pub open spec fn spec_saturating_add(a: int, b: int) -> usize {
    if a + b <= usize::MAX {
        (a + b) as usize
    } else {
        usize::MAX
    }
}

/// The tracked storage use against its maximum.
pub struct StorageLimitData {
    max_storage_size: usize,
    storage_size: usize,
    write_counter: usize,
}

impl StorageLimitData {
    pub closed spec fn max_size(&self) -> usize {
        self.max_storage_size
    }

    pub closed spec fn size(&self) -> usize {
        self.storage_size
    }

    /// Bytes written since the counter was last reset.
    pub closed spec fn written(&self) -> usize {
        self.write_counter
    }

    /// Tracking that starts at `storage_size` bytes in use.
    pub fn new(max_storage_size: usize, storage_size: usize) -> (r: Self)
        ensures
            r.max_size() == max_storage_size,
            r.size() == storage_size,
            r.written() == 0,
    {
        StorageLimitData { max_storage_size, storage_size, write_counter: 0 }
    }

    /// Whether `num_bytes` more bytes fit under the maximum.
    pub fn check(&self, num_bytes: usize) -> (r: bool)
        ensures
            r == (self.size() + num_bytes <= self.max_size()),
    {
        self.storage_size as u128 + num_bytes as u128 <= self.max_storage_size as u128
    }

    /// Counts `num_bytes` more bytes as stored and as written (the count of
    /// bytes written stops at `usize::MAX`).
    pub fn add(&mut self, num_bytes: usize)
        requires
            old(self).size() + num_bytes <= usize::MAX,
        ensures
            final(self).size() == old(self).size() + num_bytes,
            final(self).written() == spec_saturating_add(old(self).written() as int, num_bytes as int),
            final(self).max_size() == old(self).max_size(),
    {
        self.storage_size += num_bytes;
        self.write_counter = self.write_counter.saturating_add(num_bytes);
    }

    /// Counts `num_bytes` fewer bytes as stored.
    pub fn deduct(&mut self, num_bytes: usize)
        requires
            num_bytes <= old(self).size(),
        ensures
            final(self).size() == old(self).size() - num_bytes,
            final(self).written() == old(self).written(),
            final(self).max_size() == old(self).max_size(),
    {
        self.storage_size -= num_bytes;
    }

    /// Starts counting the bytes written from zero.
    pub fn reset_written(&mut self)
        ensures
            final(self).written() == 0,
            final(self).size() == old(self).size(),
            final(self).max_size() == old(self).max_size(),
    {
        self.write_counter = 0;
    }

    /// Corrects the tracked size with a size measured on the file system
    /// while writes went on: the measured size plus what was written
    /// meanwhile never under-estimates, so it is taken when it is smaller.
    /// Returns whether the tracked size shrank.
    pub fn correct(&mut self, fs_storage_size: usize) -> (shrank: bool)
        ensures
            final(self).max_size() == old(self).max_size(),
            final(self).written() == old(self).written(),
            shrank == (fs_storage_size + old(self).written() < old(self).size()),
            final(self).size() == if shrank {
                (fs_storage_size + old(self).written()) as usize
            } else {
                old(self).size()
            },
            final(self).size() <= old(self).size(),
    {
        if fs_storage_size < self.storage_size && self.write_counter < self.storage_size
            - fs_storage_size {
            self.storage_size = fs_storage_size + self.write_counter;
            true
        } else {
            false
        }
    }
}

/// The storage limit keeps no invariant on its data beyond its type.
pub struct AnyStorage;

impl RwLockPredicate<StorageLimitData> for AnyStorage {
    open spec fn inv(self, v: StorageLimitData) -> bool {
        true
    }
}

/// A storage limit shared by all uploads, or no limit at all.
#[derive(Clone)]
pub struct StorageLimit {
    mtx: Option<Arc<RwLock<StorageLimitData, AnyStorage>>>,
}

impl StorageLimit {
    /// Whether this is the dummy limit that never runs out.
    pub closed spec fn is_unlimited(&self) -> bool {
        self.mtx is None
    }

    /// A dummy limit that never runs out.
    pub fn unlimited() -> (r: Self)
        ensures
            r.is_unlimited(),
    {
        Self { mtx: None }
    }

    /// A shared limit starting from `data`.
    pub fn new(data: StorageLimitData) -> (r: Self)
        ensures
            !r.is_unlimited(),
    {
        let lock = RwLock::new(data, Ghost(AnyStorage));
        Self { mtx: Some(Arc::new(lock)) }
    }

    /// Locks the limit. The guard must be given back with `release`.
    pub fn lock(&self) -> (g: StorageLimitGuard<'_>)
        ensures
            g.data() is None <==> self.is_unlimited(),
    {
        match &self.mtx {
            Some(mtx) => {
                let (data, handle) = mtx.acquire_write();
                StorageLimitGuard { guard: Some((data, handle)) }
            },
            None => StorageLimitGuard { guard: None },
        }
    }
}

/// Exclusive access to a storage limit.
pub struct StorageLimitGuard<'a> {
    guard: Option<(StorageLimitData, WriteHandle<'a, StorageLimitData, AnyStorage>)>,
}

impl<'a> StorageLimitGuard<'a> {
    /// The locked data, `None` for the unlimited limit.
    pub closed spec fn data(&self) -> Option<StorageLimitData> {
        match self.guard {
            Some((d, _)) => Some(d),
            None => None,
        }
    }

    /// Whether `num_bytes` more bytes fit (always, without a limit).
    pub fn check(&self, num_bytes: usize) -> (r: bool)
        ensures
            r == match self.data() {
                Some(d) => d.size() + num_bytes <= d.max_size(),
                None => true,
            },
    {
        match &self.guard {
            Some((limit, _)) => limit.check(num_bytes),
            None => true,
        }
    }

    /// The number of bytes counted as stored, `None` without a limit.
    pub fn size(&self) -> (r: Option<usize>)
        ensures
            r == match self.data() {
                Some(d) => Some(d.size()),
                None => None::<usize>,
            },
    {
        match &self.guard {
            Some((limit, _)) => Some(limit.storage_size),
            None => None,
        }
    }

    /// Counts `num_bytes` more bytes as stored.
    pub fn add(&mut self, num_bytes: usize)
        requires
            old(self).data() matches Some(d) ==> d.size() + num_bytes <= usize::MAX,
        ensures
            match (old(self).data(), final(self).data()) {
                (Some(a), Some(b)) => b.size() == a.size() + num_bytes && b.written()
                    == spec_saturating_add(a.written() as int, num_bytes as int) && b.max_size()
                    == a.max_size(),
                (None, None) => true,
                _ => false,
            },
    {
        if let Some((limit, _)) = &mut self.guard {
            limit.add(num_bytes);
        }
    }

    /// Counts `num_bytes` fewer bytes as stored.
    pub fn deduct(&mut self, num_bytes: usize)
        requires
            old(self).data() matches Some(d) ==> num_bytes <= d.size(),
        ensures
            match (old(self).data(), final(self).data()) {
                (Some(a), Some(b)) => b.size() == a.size() - num_bytes && b.written() == a.written()
                    && b.max_size() == a.max_size(),
                (None, None) => true,
                _ => false,
            },
    {
        if let Some((limit, _)) = &mut self.guard {
            limit.deduct(num_bytes);
        }
    }

    /// Starts counting the bytes written from zero (see
    /// `StorageLimitData::reset_written`).
    pub fn reset_written(&mut self)
        ensures
            match (old(self).data(), final(self).data()) {
                (Some(a), Some(b)) => b.written() == 0 && b.size() == a.size() && b.max_size()
                    == a.max_size(),
                (None, None) => true,
                _ => false,
            },
    {
        if let Some((limit, _)) = &mut self.guard {
            limit.reset_written();
        }
    }

    /// Corrects the tracked size with the size measured on the file system
    /// (see `StorageLimitData::correct`); whether it shrank.
    pub fn correct(&mut self, fs_storage_size: usize) -> (shrank: bool)
        ensures
            match (old(self).data(), final(self).data()) {
                (Some(a), Some(b)) => {
                    &&& b.max_size() == a.max_size()
                    &&& b.written() == a.written()
                    &&& shrank == (fs_storage_size + a.written() < a.size())
                    &&& b.size() == if shrank {
                        (fs_storage_size + a.written()) as usize
                    } else {
                        a.size()
                    }
                },
                (None, None) => !shrank,
                _ => false,
            },
    {
        if let Some((limit, _)) = &mut self.guard {
            limit.correct(fs_storage_size)
        } else {
            false
        }
    }

    /// Unlocks the limit, keeping the changes made through this guard.
    pub fn release(self) {
        match self.guard {
            Some((data, handle)) => handle.release_write(data),
            None => {},
        }
    }
}

} // verus!
