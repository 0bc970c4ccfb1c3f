//! Deadlock-free acquisition of several locks at once.
//!
//! Every lock has a stable identifier ([`LockId`]). A [`MultiLockBuilder`]
//! collects the requests for shared and exclusive access, keeps them sorted
//! by identifier, and acquires them in that order. Since every thread
//! acquires locks in the same global order, no two threads can wait on each
//! other in a cycle. The resulting [`MultiGuard`] proves which locks are
//! held and hands out proofs of access to the data they protect.

mod error;
mod lock;
mod lock_builder;
mod lockable;
mod multi_guard;

pub use error::MultiLockError;
pub use lock::{LockId, LockMode, ReadLock, Unlock, UnlockOnDrop, WriteLock};
pub use lock_builder::{
    extends_requests, ids_and_modes, ids_in_mode, lemma_canonical_order, lemma_requests_commute, modes_of,
    sorted_by_id, with_read_request, with_read_requests, with_request, with_write_request,
    with_write_requests, LockRequest,
    MultiLockBuilder,
};
pub use lockable::{ReadLockable, RegisterReadLocks, RegisterWriteLocks, WriteLockable};
pub use multi_guard::{MultiGuard, ReadGuard, ReadLockProof, WriteGuard, WriteLockProof};
