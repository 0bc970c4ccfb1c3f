use super::error::MultiLockError;
use super::lock::{LockId, LockMode, UnlockOnDrop};
use super::lock_builder::{lemma_push_map_values, LockRequest};
use std::cell::{BorrowError, BorrowMutError, Ref, RefCell, RefMut};
use std::ops::{Deref, DerefMut};
use vstd::prelude::*;

verus! {

#[verifier::external_type_specification]
#[verifier::external_body]
#[verifier::reject_recursive_types(T)]
pub struct ExRefCell<T: ?Sized>(RefCell<T>);

#[verifier::external_type_specification]
#[verifier::external_body]
#[verifier::reject_recursive_types(T)]
pub struct ExRef<'b, T: ?Sized>(Ref<'b, T>);

#[verifier::external_type_specification]
#[verifier::external_body]
#[verifier::reject_recursive_types(T)]
pub struct ExRefMut<'b, T: ?Sized + 'b>(RefMut<'b, T>);

/// Calls `RefCell::new`.
#[verifier::external_body]
pub(crate) fn borrow_flag() -> RefCell<()> {
    RefCell::new(())
}

/// Calls `RefCell::try_borrow`; whether it succeeds depends on the borrows
/// alive at the time.
#[verifier::external_body]
fn flag_try_borrow<'b>(cell: &'b RefCell<()>) -> Result<Ref<'b, ()>, BorrowError> {
    cell.try_borrow()
}

/// Calls `RefCell::try_borrow_mut`; whether it succeeds depends on the
/// borrows alive at the time.
#[verifier::external_body]
fn flag_try_borrow_mut<'b>(cell: &'b RefCell<()>) -> Result<RefMut<'b, ()>, BorrowMutError> {
    cell.try_borrow_mut()
}

/// Read-only access to data protected by locks that a [`MultiGuard`] holds.
pub struct ReadGuard<'a, T> {
    data: &'a T,
    _token: ReadLockProof<'a>,
}

impl<'a, T> ReadGuard<'a, T> {
    /// The data.
    pub closed spec fn spec_data(&self) -> &'a T {
        self.data
    }

    /// Narrows the access to a part of the data, keeping the proof of access.
    pub fn map<U, F>(guard: Self, f: F) -> (r: ReadGuard<'a, U>)
        where
            F: FnOnce(&T) -> &U,
        requires
            f.requires((guard.spec_data(),)),
        ensures
            f.ensures((guard.spec_data(),), r.spec_data()),
    {
        ReadGuard { data: f(guard.data), _token: guard._token }
    }

    /// Narrows the access to a part of the data, if `f` finds it.
    pub fn try_map<U, F, E>(guard: Self, f: F) -> (r: Result<ReadGuard<'a, U>, E>)
        where
            F: FnOnce(&T) -> Result<&U, E>,
        requires
            f.requires((guard.spec_data(),)),
        ensures
            r matches Ok(g) ==> f.ensures((guard.spec_data(),), Ok::<&U, E>(g.spec_data())),
            r matches Err(e) ==> f.ensures((guard.spec_data(),), Err::<&U, E>(e)),
    {
        match f(guard.data) {
            Ok(data) => Ok(ReadGuard { data, _token: guard._token }),
            Err(e) => Err(e),
        }
    }
}

impl<'a, T> Deref for ReadGuard<'a, T> {
    type Target = T;

    fn deref(&self) -> (r: &T)
        ensures
            r == self.spec_data(),
    {
        self.data
    }
}

/// Read-write access to data protected by locks that a [`MultiGuard`]
/// holds.
pub struct WriteGuard<'a, T> {
    data: &'a mut T,
    _token: WriteLockProof<'a>,
}

impl<'a, T> WriteGuard<'a, T> {
    /// The data as it stands now.
    pub closed spec fn spec_data(&self) -> T {
        *self.data
    }

    /// Narrows the access to a part of the data, keeping the proof of access.
    pub fn map<U, F>(guard: Self, f: F) -> (r: WriteGuard<'a, U>)
        where
            F: FnOnce(&mut T) -> &mut U,
        requires
            forall|x: &mut T| f.requires((x,)),
        ensures
            exists|x: &mut T, y: &mut U|
                *x == guard.spec_data() && *y == r.spec_data() && f.ensures((x,), y),
    {
        let data = guard.data;
        WriteGuard { data: f(data), _token: guard._token }
    }

    /// Narrows the access to a part of the data, if `f` finds it.
    pub fn try_map<U, F, E>(guard: Self, f: F) -> (r: Result<WriteGuard<'a, U>, E>)
        where
            F: FnOnce(&mut T) -> Result<&mut U, E>,
        requires
            forall|x: &mut T| f.requires((x,)),
        ensures
            r matches Ok(g) ==> exists|x: &mut T, y: &mut U|
                *x == guard.spec_data() && *y == g.spec_data() && f.ensures(
                    (x,),
                    Ok::<&mut U, E>(y),
                ),
            r matches Err(e) ==> exists|x: &mut T|
                *x == guard.spec_data() && f.ensures((x,), Err::<&mut U, E>(e)),
    {
        let data = guard.data;
        match f(data) {
            Ok(data) => Ok(WriteGuard { data, _token: guard._token }),
            Err(e) => Err(e),
        }
    }
}

impl<'a, T> Deref for WriteGuard<'a, T> {
    type Target = T;

    /// The data.
    fn deref(&self) -> (r: &T)
        ensures
            *r == self.spec_data(),
    {
        self.data
    }
}

impl<'a, T> DerefMut for WriteGuard<'a, T> {
    /// The data, to change in place.
    fn deref_mut(&mut self) -> (r: &mut T)
        ensures
            *r == old(self).spec_data(),
            final(self).spec_data() == *final(r),
    {
        self.data
    }
}

/// A token proving shared access to a resource.
#[derive(Debug)]
pub enum ReadLockProof<'a> {
    /// The lock is held for shared access.
    Simple,
    /// The lock is held for exclusive access, and this shared borrow of it
    /// is alive.
    WithBorrow(Ref<'a, ()>),
}

impl<'a> ReadLockProof<'a> {
    /// Grants read access to `data` under this proof.
    pub fn attach<T>(self, data: &'a T) -> (r: ReadGuard<'a, T>)
        ensures
            r.spec_data() == data,
    {
        ReadGuard { data, _token: self }
    }
}

/// A token proving exclusive access to a resource.
#[derive(Debug)]
pub enum WriteLockProof<'a> {
    /// The lock is held for exclusive access, and this is the only borrow of
    /// it.
    WithBorrow(RefMut<'a, ()>),
}

impl<'a> WriteLockProof<'a> {
    /// Grants read-write access to `data` under this proof.
    pub fn attach<T>(self, data: &'a mut T) -> (r: WriteGuard<'a, T>)
        ensures
            r.spec_data() == *old(data),
    {
        WriteGuard { data, _token: self }
    }
}

/// The proof that a set of locks is held.
///
/// It records the locks held for shared and for exclusive access, and the
/// handles that release them, in the order of acquisition.
pub struct MultiGuard<'a> {
    guards: Vec<(LockId<'a>, UnlockOnDrop<'a>)>,
    shared: Vec<LockId<'a>>,
    exclusive: Vec<(LockId<'a>, RefCell<()>)>,
}

impl<'a> MultiGuard<'a> {
    /// The identifiers of the locks held for shared access.
    pub closed spec fn shared_ids(&self) -> Seq<usize> {
        self.shared@.map_values(|l: LockId<'a>| l.spec_id())
    }

    /// The identifiers of the locks held for exclusive access.
    pub closed spec fn exclusive_ids(&self) -> Seq<usize> {
        self.exclusive@.map_values(|e: (LockId<'a>, RefCell<()>)| e.0.spec_id())
    }

    /// The identifiers of the held locks, in the order of acquisition.
    pub closed spec fn held_ids(&self) -> Seq<usize> {
        self.guards@.map_values(|g: (LockId<'a>, UnlockOnDrop<'a>)| g.0.spec_id())
    }

    pub(crate) fn new(
        guards: Vec<(LockId<'a>, UnlockOnDrop<'a>)>,
        shared: Vec<LockId<'a>>,
        exclusive: Vec<(LockId<'a>, RefCell<()>)>,
    ) -> (r: Self)
        ensures
            r.held_ids() == guards@.map_values(
                |g: (LockId<'a>, UnlockOnDrop<'a>)| g.0.spec_id(),
            ),
            r.shared_ids() == shared@.map_values(|l: LockId<'a>| l.spec_id()),
            r.exclusive_ids() == exclusive@.map_values(
                |e: (LockId<'a>, RefCell<()>)| e.0.spec_id(),
            ),
    {
        MultiGuard { guards, shared, exclusive }
    }

    /// A guard that holds no lock.
    pub(crate) fn empty() -> (r: Self)
        ensures
            r.held_ids() == Seq::<usize>::empty(),
            r.shared_ids() == Seq::<usize>::empty(),
            r.exclusive_ids() == Seq::<usize>::empty(),
    {
        let r = MultiGuard { guards: Vec::new(), shared: Vec::new(), exclusive: Vec::new() };
        assert(r.held_ids() =~= Seq::<usize>::empty());
        assert(r.shared_ids() =~= Seq::<usize>::empty());
        assert(r.exclusive_ids() =~= Seq::<usize>::empty());
        r
    }

    /// Records that the lock of `request`, known as `id`, is now held in the
    /// requested mode, after the locks held so far.
    pub(crate) fn add_held(&mut self, id: LockId<'a>, request: LockRequest<'a>)
        ensures
            final(self).held_ids() == old(self).held_ids().push(id.spec_id()),
            final(self).shared_ids() == (if request.mode() == LockMode::Shared {
                old(self).shared_ids().push(id.spec_id())
            } else {
                old(self).shared_ids()
            }),
            final(self).exclusive_ids() == (if request.mode() == LockMode::Exclusive {
                old(self).exclusive_ids().push(id.spec_id())
            } else {
                old(self).exclusive_ids()
            }),
    {
        let ghost before = *self;
        let releaser = match request {
            LockRequest::Shared(_, unlock) => {
                self.shared.push(id);
                unlock
            },
            LockRequest::Exclusive(_, unlock) => {
                self.exclusive.push((id, borrow_flag()));
                unlock
            },
        };
        let entry = (id, UnlockOnDrop(releaser));
        let ghost held = self.guards@;
        self.guards.push(entry);
        proof {
            lemma_push_map_values(
                held,
                entry,
                |g: (LockId<'a>, UnlockOnDrop<'a>)| g.0.spec_id(),
            );
        }
        assert(self.shared_ids() =~= (if request.mode() == LockMode::Shared {
            before.shared_ids().push(id.spec_id())
        } else {
            before.shared_ids()
        }));
        assert(self.exclusive_ids() =~= (if request.mode() == LockMode::Exclusive {
            before.exclusive_ids().push(id.spec_id())
        } else {
            before.exclusive_ids()
        }));
    }

    /// A proof of shared access to the lock `lock`.
    ///
    /// A lock held for shared access always gives one. A lock held for
    /// exclusive access gives one unless a write proof for it is alive. Any
    /// other lock is not held.
    pub fn read_proof(&'a self, lock: LockId<'a>) -> (r: Result<ReadLockProof<'a>, MultiLockError>)
        ensures
            self.shared_ids().contains(lock.spec_id()) ==> r matches Ok(ReadLockProof::Simple),
            !self.shared_ids().contains(lock.spec_id()) && self.exclusive_ids().contains(
                lock.spec_id(),
            ) ==> (r matches Ok(ReadLockProof::WithBorrow(_)) || r matches Err(
                MultiLockError::AlreadyLockedMutably(_),
            )),
            !self.shared_ids().contains(lock.spec_id()) && !self.exclusive_ids().contains(
                lock.spec_id(),
            ) ==> r matches Err(MultiLockError::LockNotHeld),
    {
        let mut i: usize = 0;
        while i < self.shared.len()
            invariant
                i <= self.shared@.len(),
                forall|j: int| 0 <= j < i ==> self.shared@[j].spec_id() != lock.spec_id(),
            decreases self.shared@.len() - i,
        {
            if self.shared[i].id() == lock.id() {
                assert(self.shared_ids()[i as int] == lock.spec_id());
                return Ok(ReadLockProof::Simple);
            }
            i += 1;
        }
        assert(!self.shared_ids().contains(lock.spec_id()));
        let mut k: usize = 0;
        while k < self.exclusive.len()
            invariant
                k <= self.exclusive@.len(),
                !self.shared_ids().contains(lock.spec_id()),
                forall|j: int| 0 <= j < k ==> self.exclusive@[j].0.spec_id() != lock.spec_id(),
            decreases self.exclusive@.len() - k,
        {
            if self.exclusive[k].0.id() == lock.id() {
                assert(self.exclusive_ids()[k as int] == lock.spec_id());
                return match flag_try_borrow(&self.exclusive[k].1) {
                    Ok(borrow) => Ok(ReadLockProof::WithBorrow(borrow)),
                    Err(e) => Err(MultiLockError::AlreadyLockedMutably(e)),
                };
            }
            k += 1;
        }
        assert(!self.exclusive_ids().contains(lock.spec_id()));
        Err(MultiLockError::LockNotHeld)
    }

    /// A proof of exclusive access to the lock `lock`.
    ///
    /// A lock held for exclusive access gives one unless another proof for
    /// it is alive. Any other lock is not held for exclusive access.
    pub fn write_proof(&'a self, lock: LockId<'a>) -> (r: Result<WriteLockProof<'a>, MultiLockError>)
        ensures
            self.exclusive_ids().contains(lock.spec_id()) ==> (r matches Ok(_) || r matches Err(
                MultiLockError::AlreadyLocked(_),
            )),
            !self.exclusive_ids().contains(lock.spec_id()) ==> r matches Err(
                MultiLockError::LockNotHeld,
            ),
    {
        let mut k: usize = 0;
        while k < self.exclusive.len()
            invariant
                k <= self.exclusive@.len(),
                forall|j: int| 0 <= j < k ==> self.exclusive@[j].0.spec_id() != lock.spec_id(),
            decreases self.exclusive@.len() - k,
        {
            if self.exclusive[k].0.id() == lock.id() {
                assert(self.exclusive_ids()[k as int] == lock.spec_id());
                return match flag_try_borrow_mut(&self.exclusive[k].1) {
                    Ok(borrow) => Ok(WriteLockProof::WithBorrow(borrow)),
                    Err(e) => Err(MultiLockError::AlreadyLocked(e)),
                };
            }
            k += 1;
        }
        assert(!self.exclusive_ids().contains(lock.spec_id()));
        Err(MultiLockError::LockNotHeld)
    }

    /// Releases every held lock, in the reverse order of acquisition.
    ///
    /// This is the one way the guard releases its locks: dropping it leaves
    /// them held.
    pub fn release(self) {
        let mut guards = self.guards;
        while guards.len() > 0
            decreases guards@.len(),
        {
            let (_, guard) = guards.pop().unwrap();
            guard.unlock();
        }
    }
}

} // verus!
