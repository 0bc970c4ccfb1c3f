use std::cell::{Cell, RefCell};
use substratum::multilock::{
    LockId, LockRequest, MultiLockBuilder, MultiLockError, ReadGuard, ReadLock, ReadLockProof, Unlock,
    WriteGuard, WriteLock, WriteLockProof,
};

/// A single-threaded lock that records what happens to it.
struct TestLock<'l> {
    name: &'static str,
    readers: Cell<u32>,
    writer: Cell<bool>,
    log: &'l RefCell<Vec<String>>,
}

impl<'l> TestLock<'l> {
    fn new(name: &'static str, log: &'l RefCell<Vec<String>>) -> Self {
        TestLock { name, readers: Cell::new(0), writer: Cell::new(false), log }
    }

    fn note(&self, what: &str) {
        self.log.borrow_mut().push(format!("{} {}", what, self.name));
    }
}

impl<'l> Unlock for TestLock<'l> {
    fn unlock(&self) {
        if self.writer.get() {
            self.writer.set(false);
        } else {
            self.readers.set(self.readers.get() - 1);
        }
        self.note("unlock");
    }
}

impl<'l> ReadLock for TestLock<'l> {
    fn lock_read(&self) {
        self.readers.set(self.readers.get() + 1);
        self.note("read");
    }

    fn try_lock_read(&self) -> bool {
        if self.writer.get() {
            return false;
        }
        self.lock_read();
        true
    }
}

impl<'l> WriteLock for TestLock<'l> {
    fn lock_write(&self) {
        self.writer.set(true);
        self.note("write");
    }

    fn try_lock_write(&self) -> bool {
        if self.writer.get() || self.readers.get() > 0 {
            return false;
        }
        self.lock_write();
        true
    }
}

fn entries(log: &RefCell<Vec<String>>) -> Vec<String> {
    log.borrow().clone()
}

#[test]
fn locks_are_taken_in_identifier_order_and_released_in_reverse() {
    let log = RefCell::new(Vec::new());
    let a = TestLock::new("a", &log);
    let b = TestLock::new("b", &log);
    let c = TestLock::new("c", &log);
    let mut builder = MultiLockBuilder::new();
    builder
        .add_write_lock(LockId::from_ptr(30), &c)
        .add_read_lock(LockId::from_ptr(10), &a)
        .add_write_lock(LockId::from_ptr(20), &b);
    let guard = builder.lock().unwrap();
    assert_eq!(entries(&log), vec!["read a", "write b", "write c"]);
    guard.release();
    assert_eq!(
        entries(&log),
        vec!["read a", "write b", "write c", "unlock c", "unlock b", "unlock a"]
    );
    assert_eq!(a.readers.get(), 0);
    assert!(!b.writer.get() && !c.writer.get());
}

#[test]
fn the_order_of_requests_does_not_matter() {
    let log = RefCell::new(Vec::new());
    let a = TestLock::new("a", &log);
    let b = TestLock::new("b", &log);
    let mut first = MultiLockBuilder::new();
    first.add_read_lock(LockId::from_ptr(2), &b).add_read_lock(LockId::from_ptr(1), &a);
    first.lock().unwrap().release();
    let mut second = MultiLockBuilder::new();
    second.add_read_lock(LockId::from_ptr(1), &a).add_read_lock(LockId::from_ptr(2), &b);
    second.lock().unwrap().release();
    let seen = entries(&log);
    assert_eq!(seen[0..4], seen[4..8]);
    assert_eq!(seen[0], "read a");
}

#[test]
fn a_write_request_upgrades_a_read_request() {
    let log = RefCell::new(Vec::new());
    let a = TestLock::new("a", &log);
    let id = LockId::from_ptr(5);
    let mut builder = MultiLockBuilder::new();
    builder.add_read_lock(id, &a).add_write_lock(id, &a).add_read_lock(id, &a);
    let guard = builder.lock().unwrap();
    assert_eq!(entries(&log), vec!["write a"]);
    assert!(matches!(guard.read_proof(LockId::from_ptr(5)), Ok(ReadLockProof::WithBorrow(_))));
    guard.release();
}

#[test]
fn try_lock_releases_what_it_took_when_a_lock_is_busy() {
    let log = RefCell::new(Vec::new());
    let a = TestLock::new("a", &log);
    let b = TestLock::new("b", &log);
    b.writer.set(true);
    let mut builder = MultiLockBuilder::new();
    builder.add_read_lock(LockId::from_ptr(1), &a).add_write_lock(LockId::from_ptr(2), &b);
    assert!(matches!(builder.try_lock(), Err(MultiLockError::TryLockFailed)));
    assert_eq!(entries(&log), vec!["read a", "unlock a"]);
    assert_eq!(a.readers.get(), 0);
    b.writer.set(false);
    let guard = builder.try_lock().unwrap();
    guard.release();
}

#[test]
fn proofs_follow_the_held_modes() {
    let log = RefCell::new(Vec::new());
    let shared = TestLock::new("s", &log);
    let exclusive = TestLock::new("e", &log);
    let mut builder = MultiLockBuilder::default();
    builder
        .add_read_lock(LockId::from_ptr(100), &shared)
        .add_write_lock(LockId::from_ptr(200), &exclusive);
    let guard = builder.lock().unwrap();

    assert!(matches!(guard.read_proof(LockId::from_ptr(100)), Ok(ReadLockProof::Simple)));
    assert!(matches!(guard.write_proof(LockId::from_ptr(100)), Err(MultiLockError::LockNotHeld)));
    assert!(matches!(guard.read_proof(LockId::from_ptr(300)), Err(MultiLockError::LockNotHeld)));

    let write = guard.write_proof(LockId::from_ptr(200)).unwrap();
    assert!(matches!(
        guard.write_proof(LockId::from_ptr(200)),
        Err(MultiLockError::AlreadyLocked(_))
    ));
    assert!(matches!(
        guard.read_proof(LockId::from_ptr(200)),
        Err(MultiLockError::AlreadyLockedMutably(_))
    ));
    drop(write);

    let r1 = guard.read_proof(LockId::from_ptr(200)).unwrap();
    let r2 = guard.read_proof(LockId::from_ptr(200)).unwrap();
    assert!(matches!(
        guard.write_proof(LockId::from_ptr(200)),
        Err(MultiLockError::AlreadyLocked(_))
    ));
    drop(r1);
    drop(r2);
    guard.release();
}

#[test]
fn proofs_grant_access_to_data() {
    let log = RefCell::new(Vec::new());
    let lock = TestLock::new("d", &log);
    let mut data = (1u32, String::from("x"));
    let mut builder = MultiLockBuilder::new();
    builder.add_write_lock(LockId::from_ptr(1), &lock);
    let guard = builder.lock().unwrap();
    {
        let proof: WriteLockProof = guard.write_proof(LockId::from_ptr(1)).unwrap();
        let whole: WriteGuard<(u32, String)> = proof.attach(&mut data);
        let mut first = WriteGuard::map(whole, |d: &mut (u32, String)| &mut d.0);
        *first += 41;
    }
    {
        let proof = guard.read_proof(LockId::from_ptr(1)).unwrap();
        let whole: ReadGuard<(u32, String)> = proof.attach(&data);
        let second = ReadGuard::map(whole, |d: &(u32, String)| &d.1);
        assert_eq!(second.as_str(), "x");
        let missing: Result<ReadGuard<u8>, &str> = ReadGuard::try_map(second, |_s: &String| Err("none"));
        assert_eq!(missing.err(), Some("none"));
    }
    guard.release();
    assert_eq!(data.0, 42);
}

#[test]
fn lock_ids_keep_their_number() {
    let id: LockId = LockId::from_ptr(0xdead);
    assert_eq!(id.id(), 0xdead);
    assert!(LockId::from_ptr(1) < LockId::from_ptr(2));
}

#[test]
fn error_messages_describe_the_failure() {
    assert_eq!(MultiLockError::Poisoned.message(), "A lock has been poisoned");
    assert_eq!(MultiLockError::TryLockFailed.message(), "A non-blocking lock attempt failed");
    assert_eq!(
        MultiLockError::LockNotHeld.message(),
        "The requested lock is not held by this MultiGuard"
    );
    assert_eq!(
        MultiLockError::Other("disk".to_string()).message(),
        "An external error occurred: disk"
    );
    let cell = RefCell::new(());
    let held = cell.borrow_mut();
    let err = MultiLockError::from(cell.try_borrow().unwrap_err());
    assert_eq!(
        err.message(),
        "Cannot acquire read access; resource is already locked mutably"
    );
    drop(held);
    let shared = cell.borrow();
    let err = MultiLockError::from(cell.try_borrow_mut().unwrap_err());
    assert_eq!(err.message(), "Cannot acquire write access; resource is already locked");
    drop(shared);
}

#[test]
fn try_lock_without_requests_succeeds() {
    let builder = MultiLockBuilder::new();
    let guard = builder.try_lock().unwrap();
    assert!(matches!(guard.read_proof(LockId::from_ptr(1)), Err(MultiLockError::LockNotHeld)));
    guard.release();
}

#[test]
fn an_existing_request_keeps_its_lock() {
    let log = RefCell::new(Vec::new());
    let a = TestLock::new("a", &log);
    let b = TestLock::new("b", &log);
    let id = LockId::from_ptr(7);
    let mut builder = MultiLockBuilder::new();
    builder.add_write_lock(id, &a).add_write_lock(id, &b).add_read_lock(id, &b);
    let guard = builder.lock().unwrap();
    guard.release();
    assert_eq!(entries(&log), vec!["write a", "unlock a"]);
}

#[test]
fn assume_locked_takes_and_releases_nothing() {
    let log = RefCell::new(Vec::new());
    let a = TestLock::new("a", &log);
    let b = TestLock::new("b", &log);
    let mut builder = MultiLockBuilder::new();
    builder.add_read_lock(LockId::from_ptr(1), &a).add_write_lock(LockId::from_ptr(2), &b);
    let guard = builder.assume_locked();
    assert!(matches!(guard.read_proof(LockId::from_ptr(1)), Ok(ReadLockProof::Simple)));
    assert!(guard.write_proof(LockId::from_ptr(2)).is_ok());
    guard.release();
    assert!(entries(&log).is_empty());
}

#[test]
fn an_attempt_that_fails_releases_what_was_taken() {
    let log = RefCell::new(Vec::new());
    let a = TestLock::new("a", &log);
    let b = TestLock::new("b", &log);
    let mut builder = MultiLockBuilder::new();
    builder.add_read_lock(LockId::from_ptr(1), &a);
    let held = builder.lock().unwrap();
    let request = LockRequest::Exclusive(&b, &b);
    let r = MultiLockBuilder::after_attempt(false, (LockId::from_ptr(2), request), held);
    assert!(matches!(r, Err(MultiLockError::TryLockFailed)));
    assert_eq!(entries(&log), vec!["read a", "unlock a"]);
    let held = builder.lock().unwrap();
    let g = MultiLockBuilder::after_attempt(true, (LockId::from_ptr(2), request), held).unwrap();
    assert!(g.write_proof(LockId::from_ptr(2)).is_ok());
    g.release();
}
