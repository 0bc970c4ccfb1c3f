//! Caches and pools that recycle allocations.
//!
//! A type becomes poolable by implementing the lifecycle traits:
//! [`IntoPool`] hands its allocations back to a pool, and [`FromPool`] and
//! [`TryFromPool`] build it from cached allocations. Pools implement [`Pool`]
//! and give out objects as leases that must be handed back or taken.

mod adapters;
pub mod cores;
mod fake_pool;
mod lifecycle;
mod pool;

pub use lifecycle::{
    FromPool, IntoPool, PoolAcquireHandle, PoolReleaseHandle, Released, Taken, TryFromPool,
};
pub use adapters::UTF8Byte;
pub use fake_pool::{AnySaved, FakePool, LockedFakePool, LockedFakePoolHandle, SavedAllocations};
pub(crate) use fake_pool::arc_clone;
pub use pool::{Pool, PoolAcquire, PoolLease, PoolRelease};
