use crate::memory::pool::cores::TaggedLease;
use crate::memory::pool::lifecycle::{FromPool, IntoPool, Released, Taken, TryFromPool};
use vstd::prelude::*;

verus! {

/// A loan of a pooled object that must be consumed: handed back to the pool
/// or turned into the object itself.
pub trait PoolLease<'a, T: 'a + IntoPool>: Sized {
    /// The leased object.
    spec fn leased(&self) -> T;

    /// Consumes the lease, returning the object.
    fn take(self) -> (r: T)
        ensures
            r == self.leased(),
    ;
}

/// A transaction for returning objects to a pool.
pub trait PoolRelease: Sized {
    /// The allocations given back in this transaction so far, in order.
    spec fn released(&self) -> Seq<Released>;

    /// Returns an object that is no longer leased: the transaction's log
    /// changes as the object's deconstruction says.
    fn release<T: IntoPool>(&mut self, obj: T) -> (r: &mut Self)
        ensures
            obj.gives_back(old(self).released(), (*r).released()),
            *final(self) == *final(r),
    ;

    /// Returns a leased object: the transaction's log changes as the leased
    /// object's deconstruction says.
    fn reclaim<'a, T: IntoPool + 'a>(&mut self, item: TaggedLease<'a, (), T>) -> (r: &mut Self)
        ensures
            item.spec_obj().gives_back(old(self).released(), (*r).released()),
            *final(self) == *final(r),
    ;
}

/// A transaction for taking objects from a pool.
pub trait PoolAcquire: Sized {
    /// The requests made in this transaction so far, in order, with what
    /// they found.
    spec fn taken(&self) -> Seq<Taken>;

    /// Leases an object, allocating whatever the pool does not cache: the
    /// object and the requests made are those of the type's construction.
    fn acquire<'a, T: FromPool + IntoPool + 'a>(&mut self) -> (r: TaggedLease<'a, (), T>)
        ensures
            T::builds(old(self).taken(), final(self).taken(), r.spec_obj()),
    ;

    /// Leases an object built from cached allocations only: the outcome and
    /// the requests made are those of the type's construction.
    fn try_acquire<'a, T: TryFromPool + IntoPool + 'a>(&mut self) -> (r: Option<
        TaggedLease<'a, (), T>,
    >)
        ensures
            T::tries(
                old(self).taken(),
                final(self).taken(),
                (match r {
                    Some(lease) => Some(lease.spec_obj()),
                    None => None,
                }),
            ),
    ;
}

/// A memory pool shared by several users.
pub trait Pool: Sized {
    /// The transaction type for returning objects.
    type ReleaseTxn<'txn>: PoolRelease where Self: 'txn;

    /// The transaction type for taking objects.
    type AcquireTxn<'txn>: PoolAcquire where Self: 'txn;

    /// Begins returning objects.
    fn releasing(&self) -> Self::ReleaseTxn<'_>;

    /// Begins taking objects.
    fn acquiring(&self) -> Self::AcquireTxn<'_>;

    /// Drops every cached allocation.
    fn clear(&self);

    /// Tidies the pool's internal state.
    fn optimize(&self);
}

} // verus!
