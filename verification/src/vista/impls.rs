use super::error::ViewError;
use super::view::{View, ViewBase, ViewCallback, ViewMut, ViewMutCallback};
use crate::memory::pool::arc_clone;
use core::marker::PhantomData;
use std::convert::Infallible;
use std::ops::Deref;
use std::sync::{Arc, RwLock, RwLockReadGuard, RwLockWriteGuard, TryLockError};
use vstd::prelude::*;

verus! {

#[verifier::external_type_specification]
#[verifier::external_body]
#[verifier::reject_recursive_types(T)]
pub struct ExStdRwLock<T: ?Sized>(RwLock<T>);

#[verifier::external_type_specification]
#[verifier::external_body]
#[verifier::reject_recursive_types(T)]
pub struct ExRwLockReadGuard<'a, T: ?Sized>(RwLockReadGuard<'a, T>);

#[verifier::external_type_specification]
#[verifier::external_body]
#[verifier::reject_recursive_types(T)]
pub struct ExRwLockWriteGuard<'a, T: ?Sized + 'a>(RwLockWriteGuard<'a, T>);

/// Calls `RwLock::try_read`, which never blocks: it takes the lock for
/// reading when that is possible at once, fails with `LockBusy` when the
/// lock is held for writing, and with `LockPoisoned` and the text of the
/// poisoning error when the lock is poisoned.
#[verifier::external_body]
fn try_lock_for_reading<'a, T>(lock: &'a RwLock<T>) -> (r: Result<RwLockReadGuard<'a, T>, ViewError>)
    ensures
        r matches Err(e) ==> (e is LockBusy || e is LockPoisoned),
{
    match lock.try_read() {
        Ok(guard) => Ok(guard),
        Err(TryLockError::WouldBlock) => Err(ViewError::LockBusy),
        Err(TryLockError::Poisoned(e)) => Err(ViewError::LockPoisoned(e.to_string())),
    }
}

/// Calls `RwLock::try_write`, which never blocks: it takes the lock for
/// writing when that is possible at once, fails with `LockBusy` when the
/// lock is held, and with `LockPoisoned` and the text of the poisoning
/// error when the lock is poisoned.
#[verifier::external_body]
fn try_lock_for_writing<'a, T>(lock: &'a RwLock<T>) -> (r: Result<RwLockWriteGuard<'a, T>, ViewError>)
    ensures
        r matches Err(e) ==> (e is LockBusy || e is LockPoisoned),
{
    match lock.try_write() {
        Ok(guard) => Ok(guard),
        Err(TryLockError::WouldBlock) => Err(ViewError::LockBusy),
        Err(TryLockError::Poisoned(e)) => Err(ViewError::LockPoisoned(e.to_string())),
    }
}

/// Calls `Deref::deref` on a read guard, which gives the locked value.
#[verifier::external_body]
fn read_guard_value<'g, 'a, T>(guard: &'g RwLockReadGuard<'a, T>) -> &'g T {
    &**guard
}

/// Calls `DerefMut::deref_mut` on a write guard, which gives the locked
/// value.
#[verifier::external_body]
fn write_guard_value<'g, 'a, T>(guard: &'g mut RwLockWriteGuard<'a, T>) -> &'g mut T {
    &mut **guard
}

/// A view of a value shared through an `Arc`; reading it never fails.
#[derive(Debug)]
pub struct ArcView<T, Error = Infallible> {
    pub inner: Arc<T>,
    pub _marker: PhantomData<Error>,
}

impl<T, Error> ArcView<T, Error> {
    /// A view of the value that `inner` shares.
    pub fn new(inner: Arc<T>) -> (r: Self)
        ensures
            r.inner == inner,
    {
        ArcView { inner, _marker: PhantomData }
    }
}

impl<T, Error> Clone for ArcView<T, Error> {
    /// Another view of the same value.
    fn clone(&self) -> (r: Self)
        ensures
            r.inner == self.inner,
    {
        ArcView { inner: arc_clone(&self.inner), _marker: PhantomData }
    }
}

impl<T, Error> From<Arc<T>> for ArcView<T, Error> {
    /// A view of the value that `value` shares.
    fn from(value: Arc<T>) -> (r: Self) {
        ArcView::new(value)
    }
}

impl<T, Error> vstd::std_specs::convert::FromSpecImpl<Arc<T>> for ArcView<T, Error> {
    open spec fn obeys_from_spec() -> bool {
        true
    }

    open spec fn from_spec(value: Arc<T>) -> Self {
        ArcView { inner: value, _marker: PhantomData }
    }
}

impl<T, Error> Deref for ArcView<T, Error> {
    type Target = Arc<T>;

    fn deref(&self) -> (r: &Arc<T>)
        ensures
            *r == self.inner,
    {
        &self.inner
    }
}

impl<T, Error> ViewBase for ArcView<T, Error> {
    type Value = T;
}

impl<T, Error> View for ArcView<T, Error> {
    type Error = Error;

    open spec fn ready(&self) -> bool {
        true
    }

    /// Reaching a shared value never fails.
    open spec fn own_failure(&self, r: Result<(), Error>) -> bool {
        false
    }

    /// The shared value.
    open spec fn lends(&self, v: &T) -> bool {
        *v == *self.inner
    }

    /// Lends the shared value to `f` and returns what `f` returns.
    fn view<G: ViewCallback<T, Error>>(&self, f: &mut G) -> (r: Result<(), Error>)
        ensures
            old(f).gives(&*self.inner, r),
    {
        f.call(&*self.inner)
    }
}

/// A view of a value shared through an `Arc` and guarded by a lock: reading
/// takes the lock for reading, writing takes it for writing.
#[derive(Debug)]
#[verifier::reject_recursive_types(T)]
pub struct ArcRwLockView<T> {
    pub inner: Arc<RwLock<T>>,
}

impl<T> ArcRwLockView<T> {
    /// A view of the value that `inner` guards.
    pub fn new(inner: Arc<RwLock<T>>) -> (r: Self)
        ensures
            r.inner == inner,
    {
        ArcRwLockView { inner }
    }
}

impl<T> Clone for ArcRwLockView<T> {
    /// Another view of the same value.
    fn clone(&self) -> (r: Self)
        ensures
            r.inner == self.inner,
    {
        ArcRwLockView { inner: arc_clone(&self.inner) }
    }
}

impl<T> From<Arc<RwLock<T>>> for ArcRwLockView<T> {
    /// A view of the value that `value` guards.
    fn from(value: Arc<RwLock<T>>) -> (r: Self) {
        ArcRwLockView::new(value)
    }
}

impl<T> vstd::std_specs::convert::FromSpecImpl<Arc<RwLock<T>>> for ArcRwLockView<T> {
    open spec fn obeys_from_spec() -> bool {
        true
    }

    open spec fn from_spec(value: Arc<RwLock<T>>) -> Self {
        ArcRwLockView { inner: value }
    }
}

impl<T> Deref for ArcRwLockView<T> {
    type Target = Arc<RwLock<T>>;

    fn deref(&self) -> (r: &Arc<RwLock<T>>)
        ensures
            *r == self.inner,
    {
        &self.inner
    }
}

impl<T> ViewBase for ArcRwLockView<T> {
    type Value = T;
}

impl<T> View for ArcRwLockView<T> {
    type Error = ViewError;

    open spec fn ready(&self) -> bool {
        true
    }

    /// Taking the lock fails when another holder keeps it busy, or when it
    /// is poisoned.
    open spec fn own_failure(&self, r: Result<(), ViewError>) -> bool {
        r matches Err(ViewError::LockBusy) || r matches Err(ViewError::LockPoisoned(_))
    }

    /// Any value: what the lock holds is not followed by these contracts,
    /// as other holders change it.
    open spec fn lends(&self, v: &T) -> bool {
        true
    }

    /// Lends the value to `f` while holding the lock for reading, and
    /// returns what `f` returns; fails, without waiting, when the lock is
    /// held for writing, and when it is poisoned.
    fn view<G: ViewCallback<T, ViewError>>(&self, f: &mut G) -> (r: Result<(), ViewError>)
        ensures
            r matches Err(ViewError::LockBusy) || r matches Err(ViewError::LockPoisoned(_))
                || exists|v: &T| old(f).gives(v, r),
    {
        let guard = match try_lock_for_reading(&*self.inner) {
            Ok(g) => g,
            Err(e) => {
                return Err(e);
            },
        };
        let r = f.call(read_guard_value(&guard));
        r
    }
}

impl<T> ViewMut for ArcRwLockView<T> {
    type Error = ViewError;

    open spec fn ready(&self) -> bool {
        true
    }

    /// Taking the lock fails when another holder keeps it busy, or when it
    /// is poisoned.
    open spec fn own_failure(&self, r: Result<(), ViewError>) -> bool {
        r matches Err(ViewError::LockBusy) || r matches Err(ViewError::LockPoisoned(_))
    }

    /// Any value: what the lock holds is not followed by these contracts,
    /// as other holders change it.
    open spec fn lends(&self, v: T) -> bool {
        true
    }

    /// Lends the value mutably to `f` while holding the lock for writing,
    /// and returns what `f` returns; fails, without waiting, when the lock is
    /// held, and when it is poisoned.
    fn view_mut<G: ViewMutCallback<T, ViewError>>(&self, f: &mut G) -> (r: Result<(), ViewError>) {
        let mut guard = match try_lock_for_writing(&*self.inner) {
            Ok(g) => g,
            Err(e) => {
                return Err(e);
            },
        };
        let r = f.call(write_guard_value(&mut guard));
        r
    }
}

} // verus!
