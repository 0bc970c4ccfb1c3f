use std::cell::{BorrowError, BorrowMutError};
use vstd::prelude::*;
use vstd::string::*;

verus! {

#[verifier::external_type_specification]
#[verifier::external_body]
pub struct ExBorrowError(BorrowError);

#[verifier::external_type_specification]
#[verifier::external_body]
pub struct ExBorrowMutError(BorrowMutError);

/// What can go wrong when acquiring several locks or using the proof that
/// they are held.
#[derive(Debug)]
pub enum MultiLockError {
    /// A lock was poisoned by a thread that panicked while holding it.
    Poisoned,
    /// The guard does not hold the requested lock.
    LockNotHeld,
    /// A non-blocking acquisition found a lock already taken.
    TryLockFailed,
    /// Shared access was asked for while the exclusively locked resource is
    /// borrowed mutably.
    AlreadyLockedMutably(BorrowError),
    /// Exclusive access was asked for while the resource is borrowed.
    AlreadyLocked(BorrowMutError),
    /// Another failure, described by its message.
    Other(String),
}

impl MultiLockError {
    /// A description of the error for people to read.
    pub fn message(&self) -> (r: String)
        ensures
            self is Poisoned ==> r@ == "A lock has been poisoned"@,
            self is TryLockFailed ==> r@ == "A non-blocking lock attempt failed"@,
            self is AlreadyLockedMutably ==> r@
                == "Cannot acquire read access; resource is already locked mutably"@,
            self is AlreadyLocked ==> r@ == "Cannot acquire write access; resource is already locked"@,
            self is LockNotHeld ==> r@ == "The requested lock is not held by this MultiGuard"@,
            self matches MultiLockError::Other(s) ==> r@ == "An external error occurred: "@ + s@,
    {
        match self {
            MultiLockError::Poisoned => "A lock has been poisoned".to_owned(),
            MultiLockError::TryLockFailed => "A non-blocking lock attempt failed".to_owned(),
            MultiLockError::AlreadyLockedMutably(_) => {
                "Cannot acquire read access; resource is already locked mutably".to_owned()
            },
            MultiLockError::AlreadyLocked(_) => {
                "Cannot acquire write access; resource is already locked".to_owned()
            },
            MultiLockError::Other(s) => {
                let mut m = "An external error occurred: ".to_owned();
                m.append(s.as_str());
                m
            },
            MultiLockError::LockNotHeld => {
                "The requested lock is not held by this MultiGuard".to_owned()
            },
        }
    }
}

impl From<BorrowError> for MultiLockError {
    /// A failed shared borrow: the resource is borrowed mutably.
    fn from(err: BorrowError) -> (r: Self) {
        MultiLockError::AlreadyLockedMutably(err)
    }
}

impl vstd::std_specs::convert::FromSpecImpl<BorrowError> for MultiLockError {
    open spec fn obeys_from_spec() -> bool {
        true
    }

    open spec fn from_spec(err: BorrowError) -> Self {
        MultiLockError::AlreadyLockedMutably(err)
    }
}

impl From<BorrowMutError> for MultiLockError {
    /// A failed exclusive borrow: the resource is borrowed.
    fn from(err: BorrowMutError) -> (r: Self) {
        MultiLockError::AlreadyLocked(err)
    }
}

impl vstd::std_specs::convert::FromSpecImpl<BorrowMutError> for MultiLockError {
    open spec fn obeys_from_spec() -> bool {
        true
    }

    open spec fn from_spec(err: BorrowMutError) -> Self {
        MultiLockError::AlreadyLocked(err)
    }
}

} // verus!
