use super::error::MultiLockError;
use super::lock::{LockId, LockMode, ReadLock, Unlock, UnlockOnDrop, WriteLock};
use super::lockable::{RegisterReadLocks, RegisterWriteLocks};
use super::multi_guard::{borrow_flag, MultiGuard};
use std::cell::RefCell;
use vstd::prelude::*;

verus! {

/// A request for a lock, with the handle that will release it.
#[derive(Clone, Copy)]
pub enum LockRequest<'a> {
    /// A request for shared access.
    Shared(&'a dyn ReadLock, &'a dyn Unlock),
    /// A request for exclusive access.
    Exclusive(&'a dyn WriteLock, &'a dyn Unlock),
}

impl<'a> LockRequest<'a> {
    /// The access that is requested.
    pub open spec fn mode(self) -> LockMode {
        match self {
            LockRequest::Shared(..) => LockMode::Shared,
            LockRequest::Exclusive(..) => LockMode::Exclusive,
        }
    }
}

/// The identifiers of `reqs` are strictly increasing.
pub open spec fn sorted_by_id<'a>(reqs: Seq<(LockId<'a>, LockRequest<'a>)>) -> bool {
    forall|i: int, j: int|
        0 <= i < j < reqs.len() ==> (#[trigger] reqs[i]).0.spec_id() < (#[trigger] reqs[j]).0.spec_id()
}

/// The requested access of each identifier in `reqs`.
pub open spec fn modes_of<'a>(reqs: Seq<(LockId<'a>, LockRequest<'a>)>) -> Map<usize, LockMode> {
    Map::new(
        |k: usize| exists|i: int| 0 <= i < reqs.len() && reqs[i].0.spec_id() == k,
        |k: usize|
            reqs[choose|i: int| 0 <= i < reqs.len() && reqs[i].0.spec_id() == k].1.mode(),
    )
}

/// The identifiers in `reqs` that request `mode`, in order.
pub open spec fn ids_in_mode<'a>(reqs: Seq<(LockId<'a>, LockRequest<'a>)>, mode: LockMode) -> Seq<
    usize,
>
    decreases reqs.len(),
{
    if reqs.len() == 0 {
        Seq::empty()
    } else {
        let rest = ids_in_mode(reqs.drop_last(), mode);
        if reqs.last().1.mode() == mode {
            rest.push(reqs.last().0.spec_id())
        } else {
            rest
        }
    }
}

/// Collects requests for locks and acquires them without risk of deadlock.
///
/// Requests are kept sorted by lock identifier, one per lock, and locks are
/// acquired in that order. Every thread thus takes any two locks in the same
/// order, which rules out a cycle of threads each waiting for a lock that
/// the next one holds.
pub struct MultiLockBuilder<'a> {
    locks: Vec<(LockId<'a>, LockRequest<'a>)>,
}

impl<'a> MultiLockBuilder<'a> {
    /// The requests, in the order in which the locks are acquired.
    pub closed spec fn requests(&self) -> Seq<(LockId<'a>, LockRequest<'a>)> {
        self.locks@
    }

    /// The requests are sorted by strictly increasing identifier.
    pub open spec fn wf(&self) -> bool {
        sorted_by_id(self.requests())
    }

    /// The requested access of each lock.
    pub open spec fn modes(&self) -> Map<usize, LockMode> {
        modes_of(self.requests())
    }

    /// A builder without requests.
    pub fn new() -> (r: Self)
        ensures
            r.wf(),
            r.requests() == Seq::<(LockId<'a>, LockRequest<'a>)>::empty(),
    {
        MultiLockBuilder { locks: Vec::new() }
    }

    /// The position at which a request for `id` stands or would stand.
    fn position(&self, id: usize) -> (r: usize)
        requires
            self.wf(),
        ensures
            r <= self.locks@.len(),
            forall|j: int| 0 <= j < r ==> self.locks@[j].0.spec_id() < id,
            r < self.locks@.len() ==> self.locks@[r as int].0.spec_id() >= id,
    {
        let mut i: usize = 0;
        while i < self.locks.len()
            invariant
                i <= self.locks@.len(),
                forall|j: int| 0 <= j < i ==> self.locks@[j].0.spec_id() < id,
            decreases self.locks@.len() - i,
        {
            if self.locks[i].0.id() >= id {
                return i;
            }
            i += 1;
        }
        i
    }

    /// Inserting a request for a new identifier at its position keeps the
    /// requests sorted and adds the identifier with its mode.
    proof fn lemma_insert(
        reqs: Seq<(LockId<'a>, LockRequest<'a>)>,
        pos: int,
        entry: (LockId<'a>, LockRequest<'a>),
    )
        requires
            sorted_by_id(reqs),
            0 <= pos <= reqs.len(),
            forall|j: int| 0 <= j < pos ==> reqs[j].0.spec_id() < entry.0.spec_id(),
            pos < reqs.len() ==> reqs[pos].0.spec_id() > entry.0.spec_id(),
        ensures
            sorted_by_id(reqs.insert(pos, entry)),
            modes_of(reqs.insert(pos, entry)) == modes_of(reqs).insert(
                entry.0.spec_id(),
                entry.1.mode(),
            ),
            !modes_of(reqs).dom().contains(entry.0.spec_id()),
    {
        let r = reqs.insert(pos, entry);
        let k = entry.0.spec_id();
        assert forall|i: int, j: int| 0 <= i < j < r.len() implies (#[trigger] r[i]).0.spec_id() < (
        #[trigger] r[j]).0.spec_id() by {
            if j < pos {
                assert(r[i] == reqs[i] && r[j] == reqs[j]);
            } else if j == pos {
                assert(r[i] == reqs[i]);
            } else if i == pos {
                assert(r[j] == reqs[j - 1]);
                if pos < j - 1 {
                    assert(reqs[pos].0.spec_id() < reqs[j - 1].0.spec_id());
                }
            } else if i < pos {
                assert(r[i] == reqs[i] && r[j] == reqs[j - 1]);
            } else {
                assert(r[i] == reqs[i - 1] && r[j] == reqs[j - 1]);
            }
        }
        assert forall|i: int| 0 <= i < reqs.len() implies reqs[i].0.spec_id() != k by {
            if i >= pos {
                if i > pos {
                    assert(reqs[pos].0.spec_id() < reqs[i].0.spec_id());
                }
            }
        }
        let before = modes_of(reqs);
        let after = modes_of(r);
        assert forall|x: usize| #[trigger] after.dom().contains(x) <==> before.insert(
            k,
            entry.1.mode(),
        ).dom().contains(x) by {
            if after.dom().contains(x) {
                let i = choose|i: int| 0 <= i < r.len() && r[i].0.spec_id() == x;
                if i < pos {
                    assert(reqs[i].0.spec_id() == x);
                } else if i > pos {
                    assert(reqs[i - 1].0.spec_id() == x);
                }
            }
            if before.dom().contains(x) {
                let i = choose|i: int| 0 <= i < reqs.len() && reqs[i].0.spec_id() == x;
                if i < pos {
                    assert(r[i].0.spec_id() == x);
                } else {
                    assert(r[i + 1].0.spec_id() == x);
                }
            }
            if x == k {
                assert(r[pos].0.spec_id() == x);
            }
        }
        assert forall|x: usize| #[trigger] after.dom().contains(x) implies after[x] == before.insert(
            k,
            entry.1.mode(),
        )[x] by {
            let i = choose|i: int| 0 <= i < r.len() && r[i].0.spec_id() == x;
            if x == k {
                if i != pos {
                    if i < pos {
                        assert(r[i] == reqs[i]);
                    } else {
                        assert(r[i] == reqs[i - 1]);
                    }
                }
            } else {
                assert(before.dom().contains(x));
                let i0 = choose|i: int| 0 <= i < reqs.len() && reqs[i].0.spec_id() == x;
                let i1 = if i0 < pos {
                    i0
                } else {
                    i0 + 1
                };
                assert(r[i1] == reqs[i0]);
                if i != i1 {
                    if i < i1 {
                        assert(r[i].0.spec_id() < r[i1].0.spec_id());
                    } else {
                        assert(r[i1].0.spec_id() < r[i].0.spec_id());
                    }
                }
            }
        }
        assert(after =~= before.insert(k, entry.1.mode()));
    }

    /// The mode recorded for the request at position `i`.
    proof fn lemma_mode_at(reqs: Seq<(LockId<'a>, LockRequest<'a>)>, i: int)
        requires
            sorted_by_id(reqs),
            0 <= i < reqs.len(),
        ensures
            modes_of(reqs).dom().contains(reqs[i].0.spec_id()),
            modes_of(reqs)[reqs[i].0.spec_id()] == reqs[i].1.mode(),
    {
        let k = reqs[i].0.spec_id();
        let j = choose|j: int| 0 <= j < reqs.len() && reqs[j].0.spec_id() == k;
        if j != i {
            if j < i {
                assert(reqs[j].0.spec_id() < reqs[i].0.spec_id());
            } else {
                assert(reqs[i].0.spec_id() < reqs[j].0.spec_id());
            }
        }
    }

    /// Replacing the request at position `pos` by one for the same
    /// identifier keeps the requests sorted and changes only the mode of
    /// that identifier.
    proof fn lemma_upgrade(
        reqs: Seq<(LockId<'a>, LockRequest<'a>)>,
        pos: int,
        entry: (LockId<'a>, LockRequest<'a>),
    )
        requires
            sorted_by_id(reqs),
            0 <= pos < reqs.len(),
            entry.0 == reqs[pos].0,
        ensures
            sorted_by_id(reqs.update(pos, entry)),
            modes_of(reqs.update(pos, entry)) == modes_of(reqs).insert(
                entry.0.spec_id(),
                entry.1.mode(),
            ),
    {
        let r = reqs.update(pos, entry);
        let k = entry.0.spec_id();
        assert(forall|i: int| 0 <= i < r.len() ==> #[trigger] r[i].0 == reqs[i].0);
        assert forall|i: int, j: int| 0 <= i < j < r.len() implies (#[trigger] r[i]).0.spec_id() < (
        #[trigger] r[j]).0.spec_id() by {
            assert(reqs[i].0 == r[i].0 && reqs[j].0 == r[j].0);
        }
        assert forall|x: usize| #[trigger] modes_of(r).dom().contains(x) <==> modes_of(
            reqs,
        ).insert(k, entry.1.mode()).dom().contains(x) by {
            if modes_of(r).dom().contains(x) {
                let i = choose|i: int| 0 <= i < r.len() && r[i].0.spec_id() == x;
                assert(reqs[i].0 == r[i].0);
            }
            if modes_of(reqs).dom().contains(x) {
                let i = choose|i: int| 0 <= i < reqs.len() && reqs[i].0.spec_id() == x;
                assert(reqs[i].0 == r[i].0);
            }
            if x == k {
                assert(r[pos].0.spec_id() == x);
            }
        }
        assert forall|x: usize| #[trigger] modes_of(r).dom().contains(x) implies modes_of(r)[x]
            == modes_of(reqs).insert(k, entry.1.mode())[x] by {
            let i = choose|i: int| 0 <= i < r.len() && r[i].0.spec_id() == x;
            Self::lemma_mode_at(r, i);
            if x != k {
                assert(i != pos);
                assert(reqs[i] == r[i]);
                Self::lemma_mode_at(reqs, i);
            }
        }
        assert(modes_of(r) =~= modes_of(reqs).insert(k, entry.1.mode()));
    }

    /// Adds a request for shared access to the lock `lock`, known as `id`.
    ///
    /// A lock that is already requested, for shared or exclusive access,
    /// keeps its request.
    pub fn add_read_lock<L: ReadLock + Unlock + 'a>(&mut self, id: LockId<'a>, lock: &'a L) -> (r:
        &mut Self)
        requires
            old(self).wf(),
        ensures
            r.wf(),
            r.modes() == with_read_request(old(self).modes(), id.spec_id()),
            extends_requests(r.modes(), old(self).modes()),
            old(self).modes().dom().contains(id.spec_id()) ==> r.requests() == old(
                self,
            ).requests(),
            !old(self).modes().dom().contains(id.spec_id()) ==> exists|pos: int|
                0 <= pos <= old(self).requests().len() && r.requests() == #[trigger] old(
                    self,
                ).requests().insert(pos, (id, LockRequest::Shared(lock, lock))),
            *final(self) == *final(r),
    {
        let pos = self.position(id.id());
        if pos < self.locks.len() && self.locks[pos].0.id() == id.id() {
            proof {
                Self::lemma_mode_at(self.locks@, pos as int);
            }
            return self;
        }
        let entry = (id, LockRequest::Shared(lock, lock));
        proof {
            Self::lemma_insert(self.locks@, pos as int, entry);
        }
        let ghost before = self.locks@;
        self.locks.insert(pos, entry);
        proof {
            assert(self.locks@ == before.insert(pos as int, entry));
        }
        self
    }

    /// Adds a request for exclusive access to the lock `lock`, known as `id`.
    ///
    /// A request for shared access to the same lock becomes a request for
    /// exclusive access; a request for exclusive access stays.
    pub fn add_write_lock<L: WriteLock + Unlock + 'a>(&mut self, id: LockId<'a>, lock: &'a L) -> (r:
        &mut Self)
        requires
            old(self).wf(),
        ensures
            r.wf(),
            r.modes() == with_write_request(old(self).modes(), id.spec_id()),
            extends_requests(r.modes(), old(self).modes()),
            old(self).modes().dom().contains(id.spec_id()) && old(self).modes()[id.spec_id()]
                == LockMode::Exclusive ==> r.requests() == old(self).requests(),
            old(self).modes().dom().contains(id.spec_id()) && old(self).modes()[id.spec_id()]
                == LockMode::Shared ==> exists|pos: int|
                0 <= pos < old(self).requests().len() && old(self).requests()[pos].0.spec_id()
                    == id.spec_id() && r.requests() == #[trigger] old(self).requests().update(
                    pos,
                    (old(self).requests()[pos].0, LockRequest::Exclusive(lock, lock)),
                ),
            !old(self).modes().dom().contains(id.spec_id()) ==> exists|pos: int|
                0 <= pos <= old(self).requests().len() && r.requests() == #[trigger] old(
                    self,
                ).requests().insert(pos, (id, LockRequest::Exclusive(lock, lock))),
            *final(self) == *final(r),
    {
        let pos = self.position(id.id());
        if pos < self.locks.len() && self.locks[pos].0.id() == id.id() {
            proof {
                Self::lemma_mode_at(self.locks@, pos as int);
            }
            let already_exclusive = match self.locks[pos].1 {
                LockRequest::Exclusive(..) => true,
                LockRequest::Shared(..) => false,
            };
            if already_exclusive {
                proof {
                    assert(self.modes() =~= self.modes().insert(
                        id.spec_id(),
                        LockMode::Exclusive,
                    ));
                }
                return self;
            }
            let key = self.locks[pos].0;
            let entry = (key, LockRequest::Exclusive(lock, lock));
            proof {
                Self::lemma_upgrade(self.locks@, pos as int, entry);
            }
            let ghost before = self.locks@;
            self.locks.set(pos, entry);
            proof {
                assert(self.locks@ == before.update(pos as int, entry));
            }
            return self;
        }
        let entry = (id, LockRequest::Exclusive(lock, lock));
        proof {
            Self::lemma_insert(self.locks@, pos as int, entry);
        }
        let ghost before = self.locks@;
        self.locks.insert(pos, entry);
        proof {
            assert(self.locks@ == before.insert(pos as int, entry));
        }
        self
    }

    /// Adds the requests that a resource needs for shared access.
    pub fn with_read<T: RegisterReadLocks>(self, lockable: &'a T) -> (r: Self)
        requires
            self.wf(),
        ensures
            r.wf(),
            lockable.read_lock_ids() matches Some(ids) ==> r.modes() == with_read_requests(
                self.modes(),
                ids,
            ),
            extends_requests(r.modes(), self.modes()),
    {
        let mut builder = self;
        lockable.register_read_locks(&mut builder);
        builder
    }

    /// Adds the requests that a resource needs for exclusive access.
    pub fn with_write<T: RegisterWriteLocks>(self, lockable: &'a T) -> (r: Self)
        requires
            self.wf(),
        ensures
            r.wf(),
            lockable.write_lock_ids() matches Some(ids) ==> r.modes() == with_write_requests(
                self.modes(),
                ids,
            ),
            extends_requests(r.modes(), self.modes()),
    {
        let mut builder = self;
        lockable.register_write_locks(&mut builder);
        builder
    }

    /// Acquires every requested lock, blocking as needed, in increasing order
    /// of identifier.
    pub fn lock(&self) -> (r: Result<MultiGuard<'a>, MultiLockError>)
        requires
            self.wf(),
        ensures
            r matches Ok(g) && g.shared_ids() == ids_in_mode(self.requests(), LockMode::Shared)
                && g.exclusive_ids() == ids_in_mode(self.requests(), LockMode::Exclusive)
                && g.held_ids() == self.requests().map_values(
                |q: (LockId<'a>, LockRequest<'a>)| q.0.spec_id(),
            ) && (forall|i: int, j: int|
                0 <= i < j < g.held_ids().len() ==> g.held_ids()[i] < g.held_ids()[j]),
    {
        let mut held = MultiGuard::empty();
        let mut i: usize = 0;
        while i < self.locks.len()
            invariant
                i <= self.locks@.len(),
                held.shared_ids() == ids_in_mode(self.locks@.take(i as int), LockMode::Shared),
                held.exclusive_ids() == ids_in_mode(
                    self.locks@.take(i as int),
                    LockMode::Exclusive,
                ),
                held.held_ids() == self.locks@.take(i as int).map_values(
                    |q: (LockId<'a>, LockRequest<'a>)| q.0.spec_id(),
                ),
            decreases self.locks@.len() - i,
        {
            let ghost prefix = self.locks@.take(i as int + 1);
            proof {
                assert(prefix.drop_last() =~= self.locks@.take(i as int));
                assert(prefix.last() == self.locks@[i as int]);
            }
            let (id, request) = self.locks[i];
            match request {
                LockRequest::Shared(lock, _) => lock.lock_read(),
                LockRequest::Exclusive(lock, _) => lock.lock_write(),
            }
            held.add_held(id, request);
            proof {
                lemma_push_map_values(
                    self.locks@.take(i as int),
                    self.locks@[i as int],
                    |q: (LockId<'a>, LockRequest<'a>)| q.0.spec_id(),
                );
                assert(self.locks@.take(i as int).push(self.locks@[i as int]) =~= prefix);
            }
            i += 1;
        }
        proof {
            assert(self.locks@.take(self.locks@.len() as int) =~= self.locks@);
        }
        Ok(held)
    }

    /// A guard for locks that the caller has acquired already, without
    /// taking any.
    ///
    /// The caller must hold every requested lock, in its requested mode, for
    /// as long as the guard lives. The guard holds no handles to release:
    /// releasing it unlocks nothing, and the caller releases the locks.
    pub fn assume_locked(&self) -> (r: MultiGuard<'a>)
        requires
            self.wf(),
        ensures
            r.shared_ids() == ids_in_mode(self.requests(), LockMode::Shared),
            r.exclusive_ids() == ids_in_mode(self.requests(), LockMode::Exclusive),
            r.held_ids() == Seq::<usize>::empty(),
    {
        let guards: Vec<(LockId<'a>, UnlockOnDrop<'a>)> = Vec::new();
        let mut shared: Vec<LockId<'a>> = Vec::new();
        let mut exclusive: Vec<(LockId<'a>, RefCell<()>)> = Vec::new();
        let mut i: usize = 0;
        while i < self.locks.len()
            invariant
                i <= self.locks@.len(),
                shared@.map_values(|l: LockId<'a>| l.spec_id()) == ids_in_mode(
                    self.locks@.take(i as int),
                    LockMode::Shared,
                ),
                exclusive@.map_values(|e: (LockId<'a>, RefCell<()>)| e.0.spec_id()) == ids_in_mode(
                    self.locks@.take(i as int),
                    LockMode::Exclusive,
                ),
            decreases self.locks@.len() - i,
        {
            let ghost prefix = self.locks@.take(i as int + 1);
            proof {
                assert(prefix.drop_last() =~= self.locks@.take(i as int));
                assert(prefix.last() == self.locks@[i as int]);
            }
            let (id, request) = self.locks[i];
            match request {
                LockRequest::Shared(..) => {
                    shared.push(id);
                },
                LockRequest::Exclusive(..) => {
                    exclusive.push((id, borrow_flag()));
                },
            }
            proof {
                assert(shared@.map_values(|l: LockId<'a>| l.spec_id()) =~= ids_in_mode(
                    prefix,
                    LockMode::Shared,
                ));
                assert(exclusive@.map_values(|e: (LockId<'a>, RefCell<()>)| e.0.spec_id()) =~= ids_in_mode(
                    prefix,
                    LockMode::Exclusive,
                ));
            }
            i += 1;
        }
        proof {
            assert(self.locks@.take(self.locks@.len() as int) =~= self.locks@);
            assert(guards@.map_values(|g: (LockId<'a>, UnlockOnDrop<'a>)| g.0.spec_id()) =~= Seq::<
                usize,
            >::empty());
        }
        MultiGuard::new(guards, shared, exclusive)
    }

    /// Acquires every requested lock without blocking, in increasing order of
    /// identifier.
    ///
    /// When a lock is taken already, the locks acquired so far are released
    /// in reverse order and the attempt fails.
    pub fn try_lock(&self) -> (r: Result<MultiGuard<'a>, MultiLockError>)
        requires
            self.wf(),
        ensures
            r matches Ok(g) ==> g.shared_ids() == ids_in_mode(self.requests(), LockMode::Shared)
                && g.exclusive_ids() == ids_in_mode(self.requests(), LockMode::Exclusive)
                && g.held_ids() == self.requests().map_values(
                |q: (LockId<'a>, LockRequest<'a>)| q.0.spec_id(),
            ) && (forall|i: int, j: int|
                0 <= i < j < g.held_ids().len() ==> g.held_ids()[i] < g.held_ids()[j]),
            r matches Err(e) ==> e is TryLockFailed,
            self.requests().len() == 0 ==> r is Ok,
    {
        let mut held = MultiGuard::empty();
        let mut i: usize = 0;
        while i < self.locks.len()
            invariant
                i <= self.locks@.len(),
                held.shared_ids() == ids_in_mode(self.locks@.take(i as int), LockMode::Shared),
                held.exclusive_ids() == ids_in_mode(
                    self.locks@.take(i as int),
                    LockMode::Exclusive,
                ),
                held.held_ids() == self.locks@.take(i as int).map_values(
                    |q: (LockId<'a>, LockRequest<'a>)| q.0.spec_id(),
                ),
            decreases self.locks@.len() - i,
        {
            let ghost prefix = self.locks@.take(i as int + 1);
            proof {
                assert(prefix.drop_last() =~= self.locks@.take(i as int));
                assert(prefix.last() == self.locks@[i as int]);
            }
            let (id, request) = self.locks[i];
            let acquired = match request {
                LockRequest::Shared(lock, _) => lock.try_lock_read(),
                LockRequest::Exclusive(lock, _) => lock.try_lock_write(),
            };
            held = match Self::after_attempt(acquired, (id, request), held) {
                Ok(g) => g,
                Err(e) => {
                    return Err(e);
                },
            };
            proof {
                lemma_push_map_values(
                    self.locks@.take(i as int),
                    self.locks@[i as int],
                    |q: (LockId<'a>, LockRequest<'a>)| q.0.spec_id(),
                );
                assert(self.locks@.take(i as int).push(self.locks@[i as int]) =~= prefix);
            }
            i += 1;
        }
        proof {
            assert(self.locks@.take(self.locks@.len() as int) =~= self.locks@);
        }
        Ok(held)
    }

    /// What follows one attempt to take the lock of `request`, with the
    /// locks `taken` so far: when the attempt `acquired` the lock, it is
    /// held after them in the requested mode; otherwise the locks taken are
    /// released, the most recent first, and the attempt fails.
    pub fn after_attempt(
        acquired: bool,
        request: (LockId<'a>, LockRequest<'a>),
        taken: MultiGuard<'a>,
    ) -> (r: Result<MultiGuard<'a>, MultiLockError>)
        ensures
            acquired ==> (r matches Ok(g) && g.held_ids() == taken.held_ids().push(
                request.0.spec_id(),
            ) && g.shared_ids() == (if request.1.mode() == LockMode::Shared {
                taken.shared_ids().push(request.0.spec_id())
            } else {
                taken.shared_ids()
            }) && g.exclusive_ids() == (if request.1.mode() == LockMode::Exclusive {
                taken.exclusive_ids().push(request.0.spec_id())
            } else {
                taken.exclusive_ids()
            })),
            !acquired ==> r matches Err(MultiLockError::TryLockFailed),
    {
        if acquired {
            let mut g = taken;
            g.add_held(request.0, request.1);
            Ok(g)
        } else {
            taken.release();
            Err(MultiLockError::TryLockFailed)
        }
    }
}

impl<'a> Default for MultiLockBuilder<'a> {
    /// A builder without requests.
    fn default() -> (r: Self)
        ensures
            r.wf(),
            r.requests() == Seq::<(LockId<'a>, LockRequest<'a>)>::empty(),
    {
        MultiLockBuilder::new()
    }
}

/// The requested modes `modes` after a request for shared access to `id`:
/// a lock that is requested already keeps its mode.
pub open spec fn with_read_request(modes: Map<usize, LockMode>, id: usize) -> Map<usize, LockMode> {
    if modes.dom().contains(id) {
        modes
    } else {
        modes.insert(id, LockMode::Shared)
    }
}

/// The requested modes `modes` after a request for exclusive access to
/// `id`, which overrides a request for shared access.
pub open spec fn with_write_request(modes: Map<usize, LockMode>, id: usize) -> Map<usize, LockMode> {
    modes.insert(id, LockMode::Exclusive)
}

/// Every lock that `before` requests is requested in `after` too, and a
/// request for exclusive access stays one.
pub open spec fn extends_requests(after: Map<usize, LockMode>, before: Map<usize, LockMode>) -> bool {
    forall|k: usize| #[trigger]
        before.dom().contains(k) ==> after.dom().contains(k) && (before[k] == LockMode::Exclusive
            ==> after[k] == LockMode::Exclusive)
}

/// The requested modes `modes` after a request for shared access to each
/// of `ids`: locks that are requested already keep their modes.
pub open spec fn with_read_requests(modes: Map<usize, LockMode>, ids: Set<usize>) -> Map<
    usize,
    LockMode,
> {
    Map::new(
        |k: usize| modes.dom().contains(k) || ids.contains(k),
        |k: usize|
            if modes.dom().contains(k) {
                modes[k]
            } else {
                LockMode::Shared
            },
    )
}

/// The requested modes `modes` after a request for exclusive access to each
/// of `ids`.
pub open spec fn with_write_requests(modes: Map<usize, LockMode>, ids: Set<usize>) -> Map<
    usize,
    LockMode,
> {
    Map::new(
        |k: usize| modes.dom().contains(k) || ids.contains(k),
        |k: usize|
            if ids.contains(k) {
                LockMode::Exclusive
            } else {
                modes[k]
            },
    )
}

/// A request, either for exclusive access (`true`) or for shared access.
pub open spec fn with_request(modes: Map<usize, LockMode>, req: (usize, bool)) -> Map<
    usize,
    LockMode,
> {
    if req.1 {
        with_write_request(modes, req.0)
    } else {
        with_read_request(modes, req.0)
    }
}

/// Two requests lead to the same requested modes in either order: a lock
/// is requested for exclusive access as soon as one request asks for it.
///
/// With [`lemma_canonical_order`], builders that receive the same requests
/// in any order acquire the same locks in the same order.
pub proof fn lemma_requests_commute(modes: Map<usize, LockMode>, a: (usize, bool), b: (usize, bool))
    ensures
        with_request(with_request(modes, a), b) == with_request(with_request(modes, b), a),
{
    let ab = with_request(with_request(modes, a), b);
    let ba = with_request(with_request(modes, b), a);
    assert(ab =~= ba);
}

/// The identifier and requested access of each request of `reqs`, in order.
pub open spec fn ids_and_modes<'a>(reqs: Seq<(LockId<'a>, LockRequest<'a>)>) -> Seq<
    (usize, LockMode),
> {
    reqs.map_values(|q: (LockId<'a>, LockRequest<'a>)| (q.0.spec_id(), q.1.mode()))
}

/// Without its last request, a sorted list of requests records the same
/// modes but for the identifier of that request.
proof fn lemma_modes_drop_last<'a>(reqs: Seq<(LockId<'a>, LockRequest<'a>)>)
    requires
        sorted_by_id(reqs),
        reqs.len() > 0,
    ensures
        sorted_by_id(reqs.drop_last()),
        modes_of(reqs.drop_last()) == modes_of(reqs).remove(reqs.last().0.spec_id()),
{
    let r = reqs.drop_last();
    let n = reqs.len() - 1;
    let k = reqs.last().0.spec_id();
    assert forall|i: int, j: int| 0 <= i < j < r.len() implies (#[trigger] r[i]).0.spec_id() < (
    #[trigger] r[j]).0.spec_id() by {
        assert(r[i] == reqs[i] && r[j] == reqs[j]);
    }
    let target = modes_of(reqs).remove(k);
    assert forall|x: usize| #[trigger] modes_of(r).dom().contains(x) <==> target.dom().contains(
        x,
    ) by {
        if modes_of(r).dom().contains(x) {
            let i = choose|i: int| 0 <= i < r.len() && r[i].0.spec_id() == x;
            assert(reqs[i].0.spec_id() == x);
            assert(reqs[i].0.spec_id() < reqs[n].0.spec_id());
        }
        if target.dom().contains(x) {
            let i = choose|i: int| 0 <= i < reqs.len() && reqs[i].0.spec_id() == x;
            assert(i != n);
            assert(r[i].0.spec_id() == x);
        }
    }
    assert forall|x: usize| #[trigger] modes_of(r).dom().contains(x) implies modes_of(r)[x]
        == target[x] by {
        let i = choose|i: int| 0 <= i < r.len() && r[i].0.spec_id() == x;
        MultiLockBuilder::lemma_mode_at(r, i);
        MultiLockBuilder::lemma_mode_at(reqs, i);
        assert(r[i] == reqs[i]);
    }
    assert(modes_of(r) =~= target);
}

/// Two sorted lists of requests that record the same modes list the same
/// identifiers with the same modes, in the same order.
proof fn lemma_sorted_requests_unique<'a>(
    s1: Seq<(LockId<'a>, LockRequest<'a>)>,
    s2: Seq<(LockId<'a>, LockRequest<'a>)>,
)
    requires
        sorted_by_id(s1),
        sorted_by_id(s2),
        modes_of(s1) == modes_of(s2),
    ensures
        ids_and_modes(s1) == ids_and_modes(s2),
    decreases s1.len(),
{
    if s1.len() == 0 || s2.len() == 0 {
        if s1.len() > 0 {
            MultiLockBuilder::lemma_mode_at(s1, 0);
        }
        if s2.len() > 0 {
            MultiLockBuilder::lemma_mode_at(s2, 0);
        }
        assert(ids_and_modes(s1) =~= ids_and_modes(s2));
    } else {
        let n1 = s1.len() - 1;
        let n2 = s2.len() - 1;
        let k1 = s1.last().0.spec_id();
        let k2 = s2.last().0.spec_id();
        MultiLockBuilder::lemma_mode_at(s1, n1);
        MultiLockBuilder::lemma_mode_at(s2, n2);
        let j2 = choose|j: int| 0 <= j < s2.len() && s2[j].0.spec_id() == k1;
        if j2 != n2 {
            assert(s2[j2].0.spec_id() < s2[n2].0.spec_id());
        }
        let j1 = choose|j: int| 0 <= j < s1.len() && s1[j].0.spec_id() == k2;
        if j1 != n1 {
            assert(s1[j1].0.spec_id() < s1[n1].0.spec_id());
        }
        assert(k1 == k2);
        lemma_modes_drop_last(s1);
        lemma_modes_drop_last(s2);
        lemma_sorted_requests_unique(s1.drop_last(), s2.drop_last());
        let f = |q: (LockId<'a>, LockRequest<'a>)| (q.0.spec_id(), q.1.mode());
        assert(s1 =~= s1.drop_last().push(s1.last()));
        assert(s2 =~= s2.drop_last().push(s2.last()));
        lemma_push_map_values(s1.drop_last(), s1.last(), f);
        lemma_push_map_values(s2.drop_last(), s2.last(), f);
    }
}

/// Builders that request the same locks in the same modes acquire them in
/// the same order, whatever the order in which the requests were added.
///
/// Every thread therefore takes any two locks in one global order, so no
/// cycle of threads can each wait for a lock that the next one holds.
pub proof fn lemma_canonical_order<'a>(b1: &MultiLockBuilder<'a>, b2: &MultiLockBuilder<'a>)
    requires
        b1.wf(),
        b2.wf(),
        b1.modes() == b2.modes(),
    ensures
        ids_and_modes(b1.requests()) == ids_and_modes(b2.requests()),
{
    lemma_sorted_requests_unique(b1.requests(), b2.requests());
}

/// Mapping a sequence with one more element at its end maps that element
/// last.
pub(crate) proof fn lemma_push_map_values<A, B>(s: Seq<A>, x: A, f: spec_fn(A) -> B)
    ensures
        s.push(x).map_values(f) == s.map_values(f).push(f(x)),
{
    assert(s.push(x).map_values(f) =~= s.map_values(f).push(f(x)));
}

} // verus!
