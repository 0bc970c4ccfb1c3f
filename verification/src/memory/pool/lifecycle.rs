use crate::memory::{ArrayAllocation, Layout, ObjectAllocation};
use std::any::TypeId;
use vstd::prelude::*;

verus! {

/// Defines how an object deconstructs itself so that a pool can recycle its
/// allocations.
///
/// An object hands its own allocations to the handle and deconstructs the
/// objects it owns into the same handle. `Identity` names the logical kind of object, which
/// related types may share.
pub trait IntoPool: Sized {
    type Identity: 'static;

    /// What giving this object back does to a handle's log of released
    /// allocations: `before` is the log on entry, `after` the log on exit.
    /// Unless a type says more, the log only grows.
    closed spec fn gives_back(&self, before: Seq<Released>, after: Seq<Released>) -> bool {
        before.is_prefix_of(after)
    }

    /// Gives the object's allocations to `handle`, which keeps everything it
    /// was given before.
    fn into_pool<H: PoolReleaseHandle>(self, handle: &mut H)
        ensures
            old(handle).released().is_prefix_of(final(handle).released()),
            self.gives_back(old(handle).released(), final(handle).released()),
    ;
}

/// Giving back `items` one after another, in order, takes a handle's log
/// from `before` to `after`: each item's own `gives_back` links the log it
/// finds to the log it leaves for the next.
pub open spec fn gives_back_all<T: IntoPool>(
    items: Seq<T>,
    before: Seq<Released>,
    after: Seq<Released>,
) -> bool
    decreases items.len(),
{
    if items.len() == 0 {
        after == before
    } else {
        exists|mid: Seq<Released>|
            gives_back_all(items.drop_last(), before, mid) && #[trigger] items.last().gives_back(
                mid,
                after,
            )
    }
}

/// An allocation given back through a release handle, with the identity
/// that came with it.
pub enum Released {
    Object(TypeId, ObjectAllocation),
    Array(TypeId, ArrayAllocation),
}

/// A request made through an acquire handle: the identity and shape asked
/// for, and the cached allocation found, if any.
pub enum Taken {
    Object(TypeId, Layout, Option<ObjectAllocation>),
    Array(TypeId, usize, usize, Option<ArrayAllocation>),
}

/// Defines how to build an object, reusing cached allocations where the pool
/// has them and allocating otherwise.
pub trait FromPool: IntoPool {
    /// What building `r` does to a handle's log of requests: `before` is the
    /// log on entry, `after` the log on exit. A type that says nothing of it
    /// leaves it open.
    closed spec fn builds(before: Seq<Taken>, after: Seq<Taken>, r: Self) -> bool {
        true
    }

    fn from_pool<H: PoolAcquireHandle>(handle: &mut H) -> (r: Self)
        ensures
            Self::builds(old(handle).taken(), final(handle).taken(), r),
    ;
}

/// Defines how to build an object from cached allocations only; fails when
/// one is missing.
pub trait TryFromPool: IntoPool + Sized {
    /// What trying to build `r` does to a handle's log of requests: `before`
    /// is the log on entry, `after` the log on exit. A type that says nothing
    /// of it leaves it open.
    closed spec fn tries(before: Seq<Taken>, after: Seq<Taken>, r: Option<Self>) -> bool {
        true
    }

    fn try_from_pool<H: PoolAcquireHandle>(handle: &mut H) -> (r: Option<Self>)
        ensures
            Self::tries(old(handle).taken(), final(handle).taken(), r),
    ;
}

/// The handle through which an object returns its parts to a pool.
pub trait PoolReleaseHandle: Sized {
    /// The allocations given to this handle so far, in order.
    spec fn released(&self) -> Seq<Released>;

    /// Returns an object allocation; `identity` tells what kind of object
    /// used it.
    fn put_object(&mut self, identity: TypeId, allocation: ObjectAllocation)
        ensures
            final(self).released() == old(self).released().push(
                Released::Object(identity, allocation),
            ),
    ;

    /// Returns an array allocation; `identity` tells what kind of array used
    /// it.
    fn put_array(&mut self, identity: TypeId, allocation: ArrayAllocation)
        ensures
            final(self).released() == old(self).released().push(
                Released::Array(identity, allocation),
            ),
    ;
}

/// The handle through which an object takes parts from a pool.
pub trait PoolAcquireHandle: Sized {
    /// The requests made through this handle so far, in order, with what
    /// they found.
    spec fn taken(&self) -> Seq<Taken>;

    /// A cached object allocation of the given layout, if there is one.
    fn take_object(&mut self, identity: TypeId, layout: Layout) -> (r: Option<ObjectAllocation>)
        ensures
            r matches Some(a) ==> a.spec_layout() == layout,
            final(self).taken() == old(self).taken().push(Taken::Object(identity, layout, r)),
    ;

    /// A cached array allocation of the given alignment and element size, if
    /// there is one.
    fn take_array(&mut self, identity: TypeId, alignment: usize, element_size: usize) -> (r: Option<
        ArrayAllocation,
    >)
        ensures
            r matches Some(a) ==> a.spec_layout().align() == alignment && a.spec_element_size()
                == element_size,
            final(self).taken() == old(self).taken().push(
                Taken::Array(identity, alignment, element_size, r),
            ),
    ;
}

/// Calls `TypeId::of`, the identifier of the type `T`.
#[verifier::external_body]
pub(crate) fn type_identity<T: ?Sized + 'static>() -> TypeId {
    TypeId::of::<T>()
}

} // verus!
