use core::marker::PhantomData;
use vstd::prelude::*;

verus! {

/// A stable identifier of a lock, such as the address of its primitive.
///
/// Lock requests are sorted by identifier, so that every thread acquires
/// locks in the same order. An identifier must stay the same for as long as
/// the lock lives.
#[derive(Debug, Clone, Copy, PartialEq, Eq, PartialOrd, Ord, Hash)]
pub struct LockId<'a> {
    id: usize,
    _marker: PhantomData<&'a ()>,
}

impl<'a> LockId<'a> {
    /// The number that identifies the lock.
    pub closed spec fn spec_id(&self) -> usize {
        self.id
    }

    /// The identifier of the lock whose primitive lives at address `addr`.
    pub fn from_ptr(addr: usize) -> (r: LockId<'a>)
        ensures
            r.spec_id() == addr,
    {
        LockId { id: addr, _marker: PhantomData }
    }

    /// Identifiers built from the same address are equal: the address is
    /// all that an identifier holds.
    pub proof fn lemma_same_address(a: LockId<'a>, b: LockId<'a>)
        requires
            a.spec_id() == b.spec_id(),
        ensures
            a == b,
    {
    }

    /// The number that identifies the lock.
    pub fn id(&self) -> (r: usize)
        ensures
            r == self.spec_id(),
    {
        self.id
    }
}

/// Releasing a lock that the caller holds.
pub trait Unlock {
    /// Releases the lock; the calling thread must hold it.
    fn unlock(&self);
}

/// A lock that can be held for shared, read-only access.
pub trait ReadLock {
    /// Blocks until the lock is held for shared access.
    fn lock_read(&self);

    /// Takes the lock for shared access if that is possible at once; tells
    /// whether it did.
    fn try_lock_read(&self) -> bool;
}

/// A lock that can be held for exclusive access.
pub trait WriteLock {
    /// Blocks until the lock is held for exclusive access.
    fn lock_write(&self);

    /// Takes the lock for exclusive access if that is possible at once;
    /// tells whether it did.
    fn try_lock_write(&self) -> bool;
}

/// Whether a lock is requested or held for shared or exclusive access.
#[derive(Debug, Clone, Copy, PartialEq, Eq, Structural)]
pub enum LockMode {
    Shared,
    Exclusive,
}

/// A held lock, released by consuming the handle with `unlock`; dropping
/// the handle leaves the lock held.
pub struct UnlockOnDrop<'a>(pub &'a dyn Unlock);

impl<'a> UnlockOnDrop<'a> {
    /// Releases the lock.
    pub fn unlock(self) {
        self.0.unlock();
    }
}

} // verus!
