use crate::memory::pool::cores::TaggedLease;
use crate::memory::pool::lifecycle::{
    FromPool, IntoPool, PoolAcquireHandle, PoolReleaseHandle, Released, Taken, TryFromPool,
};
use crate::memory::pool::pool::{Pool, PoolAcquire, PoolLease, PoolRelease};
use crate::memory::{ArrayAllocation, Layout, ObjectAllocation};
use std::any::TypeId;
use std::sync::Arc;
use vstd::prelude::*;
use vstd::rwlock::{RwLock, RwLockPredicate};

verus! {

/// The allocations a fake pool has saved: objects and arrays.
pub type SavedAllocations = (Vec<ObjectAllocation>, Vec<ArrayAllocation>);

/// Any saved allocations may sit in the store.
pub struct AnySaved;

impl RwLockPredicate<SavedAllocations> for AnySaved {
    open spec fn inv(self, v: SavedAllocations) -> bool {
        true
    }
}

/// A pool that never recycles anything.
///
/// Taking from it always finds nothing cached, so every object is freshly
/// allocated. Allocations given back are dropped, or saved for inspection
/// when the pool is set to save them. Clones share the saved allocations.
pub struct FakePool {
    inner: Arc<RwLock<SavedAllocations, AnySaved>>,
    save_allocations: bool,
}

impl FakePool {
    /// Whether allocations given back through this handle are saved.
    pub closed spec fn saves(&self) -> bool {
        self.save_allocations
    }

    /// Creates a pool; it saves the allocations given back when
    /// `save_allocations` holds, and drops them otherwise.
    pub fn new(save_allocations: bool) -> (r: Self)
        ensures
            r.saves() == save_allocations,
    {
        let store = RwLock::new((Vec::new(), Vec::new()), Ghost(AnySaved));
        FakePool { inner: Arc::new(store), save_allocations }
    }

    /// Saves the allocations given back from now on.
    pub fn save_allocations(&mut self) -> (r: &Self)
        ensures
            final(self).saves(),
            r.saves(),
    {
        self.save_allocations = true;
        self
    }

    /// Drops the allocations given back from now on.
    pub fn discard_allocations(&mut self) -> (r: &Self)
        ensures
            !final(self).saves(),
            !r.saves(),
    {
        self.save_allocations = false;
        self
    }

    /// Consumes the pool, returning the saved object and array allocations.
    ///
    /// Fails, handing the pool back, while another clone shares it.
    pub fn try_into_inner(self) -> (r: Result<SavedAllocations, Self>)
        ensures
            r matches Err(p) ==> p.saves() == self.saves(),
    {
        match arc_try_unwrap(self.inner) {
            Ok(store) => Ok(store.into_inner()),
            Err(inner) => Err(FakePool { inner, save_allocations: self.save_allocations }),
        }
    }

    /// Consumes the pool, returning the saved object allocations.
    ///
    /// Fails, handing the pool back, while another clone shares it or when
    /// array allocations were saved.
    pub fn try_into_object_allocations(self) -> (r: Result<Vec<ObjectAllocation>, Self>)
        ensures
            r matches Err(p) ==> p.saves() == self.saves(),
    {
        let save_allocations = self.save_allocations;
        let saved = match self.try_into_inner() {
            Ok(saved) => saved,
            Err(p) => {
                return Err(p);
            },
        };
        match FakePool::only_objects(saved) {
            Ok(objects) => Ok(objects),
            Err(saved) => Err(FakePool::holding(saved, save_allocations)),
        }
    }

    /// The object allocations of `saved` when no array allocation is among
    /// them; otherwise `saved` itself, unchanged.
    pub fn only_objects(saved: SavedAllocations) -> (r: Result<Vec<ObjectAllocation>, SavedAllocations>)
        ensures
            saved.1@.len() == 0 ==> r == Ok::<Vec<ObjectAllocation>, SavedAllocations>(saved.0),
            saved.1@.len() > 0 ==> r == Err::<Vec<ObjectAllocation>, SavedAllocations>(saved),
    {
        if saved.1.len() > 0 {
            return Err(saved);
        }
        Ok(saved.0)
    }

    /// The array allocations of `saved` when no object allocation is among
    /// them; otherwise `saved` itself, unchanged.
    pub fn only_arrays(saved: SavedAllocations) -> (r: Result<Vec<ArrayAllocation>, SavedAllocations>)
        ensures
            saved.0@.len() == 0 ==> r == Ok::<Vec<ArrayAllocation>, SavedAllocations>(saved.1),
            saved.0@.len() > 0 ==> r == Err::<Vec<ArrayAllocation>, SavedAllocations>(saved),
    {
        if saved.0.len() > 0 {
            return Err(saved);
        }
        Ok(saved.1)
    }

    /// A pool, not shared with any other, whose store holds `saved`.
    fn holding(saved: SavedAllocations, save_allocations: bool) -> (r: Self)
        ensures
            r.saves() == save_allocations,
    {
        let store = RwLock::new(saved, Ghost(AnySaved));
        FakePool { inner: Arc::new(store), save_allocations }
    }

    /// Consumes the pool, returning the saved array allocations.
    ///
    /// Fails, handing the pool back, while another clone shares it or when
    /// object allocations were saved.
    pub fn try_into_array_allocations(self) -> (r: Result<Vec<ArrayAllocation>, Self>)
        ensures
            r matches Err(p) ==> p.saves() == self.saves(),
    {
        let save_allocations = self.save_allocations;
        let saved = match self.try_into_inner() {
            Ok(saved) => saved,
            Err(p) => {
                return Err(p);
            },
        };
        match FakePool::only_arrays(saved) {
            Ok(arrays) => Ok(arrays),
            Err(saved) => Err(FakePool::holding(saved, save_allocations)),
        }
    }

    /// A transaction on the pool, saving allocations as this handle does.
    fn locked(&self) -> (r: LockedFakePool<'_>)
        ensures
            r.saves() == self.saves(),
    {
        LockedFakePool {
            store: &*self.inner,
            save_allocations: self.save_allocations,
            released: Ghost(Seq::empty()),
            taken: Ghost(Seq::empty()),
        }
    }
}

impl Clone for FakePool {
    /// Another handle on the same saved allocations, with the same setting.
    fn clone(&self) -> (r: Self)
        ensures
            r.saves() == self.saves(),
    {
        FakePool { inner: arc_clone(&self.inner), save_allocations: self.save_allocations }
    }
}

impl Default for FakePool {
    /// A pool that drops what it is given back.
    fn default() -> (r: Self)
        ensures
            !r.saves(),
    {
        FakePool::new(false)
    }
}

impl Pool for FakePool {
    type ReleaseTxn<'txn> = LockedFakePool<'txn>;

    type AcquireTxn<'txn> = LockedFakePool<'txn>;

    /// A transaction that saves what it is given back as this handle does.
    fn releasing(&self) -> (r: LockedFakePool<'_>)
        ensures
            r.saves() == self.saves(),
    {
        self.locked()
    }

    /// A transaction that finds nothing cached.
    fn acquiring(&self) -> (r: LockedFakePool<'_>)
        ensures
            r.saves() == self.saves(),
    {
        self.locked()
    }

    /// Drops every saved allocation.
    fn clear(&self) {
        let (mut saved, handle) = self.inner.acquire_write();
        saved.0.clear();
        saved.1.clear();
        handle.release_write(saved);
    }

    /// Releases the spare capacity of the saved lists.
    fn optimize(&self) {
        let (mut saved, handle) = self.inner.acquire_write();
        vec_shrink_to_fit(&mut saved.0);
        vec_shrink_to_fit(&mut saved.1);
        handle.release_write(saved);
    }
}

/// A transaction on a [`FakePool`].
pub struct LockedFakePool<'a> {
    store: &'a RwLock<SavedAllocations, AnySaved>,
    save_allocations: bool,
    released: Ghost<Seq<Released>>,
    taken: Ghost<Seq<Taken>>,
}

/// No request in `log` found a cached allocation.
pub open spec fn found_nothing(log: Seq<Taken>) -> bool {
    forall|i: int|
        0 <= i < log.len() ==> match #[trigger] log[i] {
            Taken::Object(_, _, found) => found is None,
            Taken::Array(_, _, _, found) => found is None,
        }
}

impl<'a> LockedFakePool<'a> {
    /// The pool caches nothing, so no request of the transaction finds
    /// anything.
    #[verifier::type_invariant]
    closed spec fn finds_nothing(self) -> bool {
        found_nothing(self.taken@)
    }

    /// Whether allocations given back in this transaction are saved.
    pub closed spec fn saves(&self) -> bool {
        self.save_allocations
    }

    /// Saves an object allocation if the transaction saves, and drops it
    /// otherwise.
    fn keep_object(&self, allocation: ObjectAllocation) {
        if self.save_allocations {
            let (mut saved, handle) = self.store.acquire_write();
            saved.0.push(allocation);
            handle.release_write(saved);
        }
    }

    /// Saves an array allocation if the transaction saves, and drops it
    /// otherwise.
    fn keep_array(&self, allocation: ArrayAllocation) {
        if self.save_allocations {
            let (mut saved, handle) = self.store.acquire_write();
            saved.1.push(allocation);
            handle.release_write(saved);
        }
    }
}

/// The handle through which objects give their parts to, and take them
/// from, a [`LockedFakePool`].
pub struct LockedFakePoolHandle<'a, 'txn> {
    pool: &'a mut LockedFakePool<'txn>,
    released: Ghost<Seq<Released>>,
    taken: Ghost<Seq<Taken>>,
}

impl<'a, 'txn> LockedFakePoolHandle<'a, 'txn> {
    /// No request made through the handle finds anything.
    #[verifier::type_invariant]
    closed spec fn finds_nothing(self) -> bool {
        found_nothing(self.taken@)
    }

    /// A handle on `pool` that continues the transaction's logs.
    fn new(pool: &'a mut LockedFakePool<'txn>) -> (r: Self)
        ensures
            r.released() == old(pool).released@,
            r.taken() == old(pool).taken@,
    {
        proof {
            use_type_invariant(&*pool);
        }
        let ghost released = pool.released@;
        let ghost taken = pool.taken@;
        LockedFakePoolHandle { pool, released: Ghost(released), taken: Ghost(taken) }
    }
}

impl<'txn> PoolRelease for LockedFakePool<'txn> {
    closed spec fn released(&self) -> Seq<Released> {
        self.released@
    }

    fn release<T: IntoPool>(&mut self, obj: T) -> (r: &mut Self) {
        let mut handle = LockedFakePoolHandle::new(self);
        obj.into_pool(&mut handle);
        let ghost log = handle.released();
        proof {
            use_type_invariant(&*self);
        }
        self.released = Ghost(log);
        self
    }

    fn reclaim<'a, T: IntoPool + 'a>(&mut self, lease: TaggedLease<'a, (), T>) -> (r: &mut Self) {
        let mut handle = LockedFakePoolHandle::new(self);
        lease.take().into_pool(&mut handle);
        let ghost log = handle.released();
        proof {
            use_type_invariant(&*self);
        }
        self.released = Ghost(log);
        self
    }
}

impl<'a, 'txn> PoolReleaseHandle for LockedFakePoolHandle<'a, 'txn> {
    closed spec fn released(&self) -> Seq<Released> {
        self.released@
    }

    /// Saves the allocation if the transaction saves, and drops it
    /// otherwise.
    fn put_object(&mut self, identity: TypeId, allocation: ObjectAllocation) {
        let ghost given = Released::Object(identity, allocation);
        self.pool.keep_object(allocation);
        proof {
            use_type_invariant(&*self);
        }
        self.released = Ghost(self.released@.push(given));
    }

    /// Saves the allocation if the transaction saves, and drops it
    /// otherwise.
    fn put_array(&mut self, identity: TypeId, allocation: ArrayAllocation) {
        let ghost given = Released::Array(identity, allocation);
        self.pool.keep_array(allocation);
        proof {
            use_type_invariant(&*self);
        }
        self.released = Ghost(self.released@.push(given));
    }
}

impl<'txn> PoolAcquire for LockedFakePool<'txn> {
    closed spec fn taken(&self) -> Seq<Taken> {
        self.taken@
    }

    /// Builds the object from nothing cached: every request finds nothing.
    fn acquire<'a, T: FromPool + IntoPool + 'a>(&mut self) -> (r: TaggedLease<'a, (), T>)
        ensures
            found_nothing(final(self).taken()),
    {
        let mut handle = LockedFakePoolHandle::new(self);
        let obj = T::from_pool(&mut handle);
        proof {
            use_type_invariant(&handle);
        }
        let ghost log = handle.taken();
        self.taken = Ghost(log);
        TaggedLease::new((), obj)
    }

    /// Tries to build the object from nothing cached: every request finds
    /// nothing.
    fn try_acquire<'a, T: TryFromPool + IntoPool + 'a>(&mut self) -> (r: Option<
        TaggedLease<'a, (), T>,
    >)
        ensures
            found_nothing(final(self).taken()),
    {
        let mut handle = LockedFakePoolHandle::new(self);
        let found = T::try_from_pool(&mut handle);
        proof {
            use_type_invariant(&handle);
        }
        let ghost log = handle.taken();
        self.taken = Ghost(log);
        match found {
            Some(obj) => Some(TaggedLease::new((), obj)),
            None => None,
        }
    }
}

impl<'a, 'txn> PoolAcquireHandle for LockedFakePoolHandle<'a, 'txn> {
    closed spec fn taken(&self) -> Seq<Taken> {
        self.taken@
    }

    /// Finds nothing cached.
    fn take_object(&mut self, identity: TypeId, layout: Layout) -> (r: Option<ObjectAllocation>)
        ensures
            r is None,
    {
        proof {
            use_type_invariant(&*self);
        }
        let ghost log = self.taken@.push(Taken::Object(identity, layout, None));
        assert(found_nothing(log)) by {
            assert(forall|i: int| 0 <= i < self.taken@.len() ==> log[i] == self.taken@[i]);
        }
        self.taken = Ghost(log);
        None
    }

    /// Finds nothing cached.
    fn take_array(&mut self, identity: TypeId, alignment: usize, element_size: usize) -> (r:
        Option<ArrayAllocation>)
        ensures
            r is None,
    {
        proof {
            use_type_invariant(&*self);
        }
        let ghost log = self.taken@.push(Taken::Array(identity, alignment, element_size, None));
        assert(found_nothing(log)) by {
            assert(forall|i: int| 0 <= i < self.taken@.len() ==> log[i] == self.taken@[i]);
        }
        self.taken = Ghost(log);
        None
    }
}

/// Calls `Arc::try_unwrap`, which hands back the value when no other `Arc`
/// shares it, and the `Arc` itself otherwise.
#[verifier::external_body]
fn arc_try_unwrap<T>(a: Arc<T>) -> (r: Result<T, Arc<T>>)
    ensures
        match r {
            Ok(t) => t == *a,
            Err(e) => e == a,
        },
{
    Arc::try_unwrap(a)
}

/// Calls `Arc::clone`, which gives another `Arc` on the same value.
#[verifier::external_body]
pub(crate) fn arc_clone<T>(a: &Arc<T>) -> (r: Arc<T>)
    ensures
        r == *a,
{
    Arc::clone(a)
}

/// Calls `Vec::shrink_to_fit`, which keeps the elements.
#[verifier::external_body]
fn vec_shrink_to_fit<T>(v: &mut Vec<T>)
    ensures
        final(v)@ == old(v)@,
{
    v.shrink_to_fit()
}

} // verus!
