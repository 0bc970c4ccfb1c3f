use super::error::MultiLockError;
use super::lock_builder::{
    extends_requests, with_read_requests, with_write_requests, MultiLockBuilder,
};
use super::multi_guard::{MultiGuard, ReadGuard, WriteGuard};
use vstd::prelude::*;

verus! {

/// A resource that knows which locks its shared access needs.
pub trait RegisterReadLocks {
    /// The identifiers of the locks that read access needs, where the
    /// resource declares them.
    closed spec fn read_lock_ids(&self) -> Option<Set<usize>> {
        None
    }

    /// Adds to `to` a request for shared access to each lock that read
    /// access needs, delegating to the resources it holds down to the locks
    /// themselves.
    fn register_read_locks<'a, 'b: 'a>(&'b self, to: &'a mut MultiLockBuilder<'b>)
        requires
            old(to).wf(),
        ensures
            final(to).wf(),
            self.read_lock_ids() matches Some(ids) ==> final(to).modes() == with_read_requests(
                old(to).modes(),
                ids,
            ),
            extends_requests(final(to).modes(), old(to).modes()),
    ;
}

/// A shared resource that needs one or more locks for access.
pub trait ReadLockable: RegisterReadLocks {
    /// The data that can be read once the locks are held.
    type Data;

    /// Read access to the data, given the proof that the locks are held.
    fn read_with_guard<'a>(&'a self, proof: &'a MultiGuard<'a>) -> Result<
        ReadGuard<'a, Self::Data>,
        MultiLockError,
    >;
}

/// A resource that knows which locks its exclusive access needs.
pub trait RegisterWriteLocks {
    /// The identifiers of the locks that write access needs, where the
    /// resource declares them.
    closed spec fn write_lock_ids(&self) -> Option<Set<usize>> {
        None
    }

    /// Adds to `to` the locks needed for write access, delegating to the
    /// resources it holds down to the locks themselves.
    fn register_write_locks<'a, 'b: 'a>(&'b self, to: &'a mut MultiLockBuilder<'b>)
        requires
            old(to).wf(),
        ensures
            final(to).wf(),
            self.write_lock_ids() matches Some(ids) ==> final(to).modes() == with_write_requests(
                old(to).modes(),
                ids,
            ),
            extends_requests(final(to).modes(), old(to).modes()),
    ;
}

/// An exclusive resource that needs one or more locks for access.
pub trait WriteLockable: RegisterWriteLocks {
    /// The data that can be written once the locks are held.
    type Data;

    /// Write access to the data, given the proof that the locks are held.
    fn write_with_guard<'a>(&'a self, proof: &'a MultiGuard<'a>) -> Result<
        WriteGuard<'a, Self::Data>,
        MultiLockError,
    >;
}

} // verus!
