//! The count of the connections that access an upload, so that an upload
//! is not deleted while another connection downloads it.
use vstd::prelude::*;

verus! {

/// The accessors of one upload.
pub struct Accessor {
    pub id: i64,
    rc: usize,
}

impl Accessor {
    /// The upload's ID.
    pub closed spec fn spec_id(&self) -> i64 {
        self.id
    }

    /// How many connections access the upload.
    pub closed spec fn count(&self) -> int {
        self.rc as int
    }

    /// The first accessor of an upload.
    pub fn new(id: i64) -> (r: Self)
        ensures
            r.spec_id() == id,
            r.count() == 1,
    {
        Accessor { id, rc: 1 }
    }

    /// One more connection accesses the upload.
    pub fn add(&mut self)
        requires
            old(self).count() < usize::MAX,
        ensures
            final(self).spec_id() == old(self).spec_id(),
            final(self).count() == old(self).count() + 1,
    {
        self.rc = self.rc + 1;
    }

    /// One connection leaves; returns whether none is left.
    pub fn remove(&mut self) -> (none_left: bool)
        requires
            old(self).count() >= 1,
        ensures
            final(self).spec_id() == old(self).spec_id(),
            final(self).count() == old(self).count() - 1,
            none_left == (final(self).count() == 0),
    {
        self.rc = self.rc - 1;
        self.rc == 0
    }

    /// Whether no other connection accesses the upload.
    pub fn is_only_accessor(&self) -> (r: bool)
        ensures
            r == (self.count() == 1),
    {
        self.rc == 1
    }
}

} // verus!
