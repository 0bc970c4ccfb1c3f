use crate::keyed_list::{KeyEq, KeyedList};
use crate::memory::ArrayAllocation;
use std::any::TypeId;
use vstd::prelude::*;

verus! {

#[verifier::external_type_specification]
#[verifier::external_body]
pub struct ExTypeId(TypeId);

/// Compares two type identifiers with `TypeId::eq`, which holds exactly
/// when they identify the same type.
#[verifier::external_body]
fn type_id_eq(a: &TypeId, b: &TypeId) -> (r: bool)
    ensures
        r == (*a == *b),
{
    a == b
}

impl KeyEq for (TypeId, usize, usize) {
    fn key_eq(&self, other: &Self) -> (r: bool) {
        type_id_eq(&self.0, &other.0) && self.1 == other.1 && self.2 == other.2
    }
}

/// The result of an attempt to steal an allocation from an affinity cache.
pub enum StealOutcome {
    /// An allocation was taken.
    Success(ArrayAllocation),
    /// The cache was empty.
    Fail,
    /// The cache was empty and has now failed as many steal attempts in a row
    /// as its eviction threshold allows.
    CacheEviction,
}

/// What an affinity cache holds.
pub struct AffinityCacheModel {
    /// The cached allocations; the last one is handed out first.
    pub allocations: Seq<ArrayAllocation>,
    /// The number of allocations above which further ones spill over.
    pub max_size: usize,
    /// The number of failed steal attempts that marks the cache for eviction.
    pub eviction_thr: usize,
    /// The count of failed steal attempts since the last put.
    pub failed_steals: usize,
}

impl AffinityCacheModel {
    /// A fresh cache.
    pub open spec fn fresh() -> Self {
        AffinityCacheModel {
            allocations: Seq::empty(),
            max_size: 16,
            eviction_thr: 8,
            failed_steals: 0,
        }
    }

    /// Keeps the allocation if there is room, and hands it back otherwise.
    pub open spec fn put(self, a: ArrayAllocation) -> (Self, Option<ArrayAllocation>) {
        if self.allocations.len() < self.max_size {
            (
                AffinityCacheModel { allocations: self.allocations.push(a), failed_steals: 0, ..self },
                None,
            )
        } else {
            (AffinityCacheModel { failed_steals: 0, ..self }, Some(a))
        }
    }

    /// Hands out the most recently cached allocation.
    pub open spec fn take(self) -> (Self, Option<ArrayAllocation>) {
        if self.allocations.len() > 0 {
            (
                AffinityCacheModel { allocations: self.allocations.drop_last(), ..self },
                Some(self.allocations.last()),
            )
        } else {
            (self, None)
        }
    }

    /// An attempt by another owner to take an allocation.
    pub open spec fn steal(self) -> (Self, StealOutcome) {
        if self.allocations.len() > 0 {
            (
                AffinityCacheModel { allocations: self.allocations.drop_last(), ..self },
                StealOutcome::Success(self.allocations.last()),
            )
        } else {
            let failed = ((self.failed_steals + 1) % (self.eviction_thr + 1)) as usize;
            (
                AffinityCacheModel { failed_steals: failed, ..self },
                if failed != self.eviction_thr {
                    StealOutcome::Fail
                } else {
                    StealOutcome::CacheEviction
                },
            )
        }
    }

    /// The cache is empty and has failed enough steal attempts to be evicted.
    pub open spec fn is_stale(self) -> bool {
        self.allocations.len() == 0 && (self.failed_steals == self.eviction_thr + 1
            || self.failed_steals == self.eviction_thr)
    }

    /// Sets the eviction threshold; a failure count that has reached it is
    /// pulled just below it, so the cache is not stale right away.
    pub open spec fn evict_after(self, eviction_thr: usize) -> Self {
        AffinityCacheModel {
            eviction_thr,
            failed_steals: if self.failed_steals < eviction_thr {
                self.failed_steals
            } else if eviction_thr == 0 {
                0
            } else {
                (eviction_thr - 1) as usize
            },
            ..self
        }
    }

    /// Sets the number of allocations above which further ones spill over.
    pub open spec fn spill_after(self, max_size: usize) -> Self {
        AffinityCacheModel { max_size, ..self }
    }

    /// The counters stay clear of overflow.
    pub open spec fn bounded(self) -> bool {
        self.eviction_thr < usize::MAX && self.failed_steals < usize::MAX
    }
}

/// What the shared cache for one (alignment, element size) pair holds.
pub struct StealingCacheModel {
    /// The owners of affinity caches that may be stolen from, in turn.
    pub stealing_ring: Seq<TypeId>,
    /// The position in the ring of the next owner to steal from.
    pub next_stealing_idx: usize,
    /// The number of allocations above which further ones are dropped.
    pub max_size: usize,
    /// The spilled allocations; the last one is handed out first.
    pub allocations: Seq<ArrayAllocation>,
}

impl StealingCacheModel {
    /// A shared cache whose ring holds only `id`.
    pub open spec fn fresh(id: TypeId) -> Self {
        StealingCacheModel {
            stealing_ring: seq![id],
            next_stealing_idx: 0,
            max_size: 256,
            allocations: Seq::empty(),
        }
    }

    /// Keeps the allocation if there is room, and hands it back otherwise.
    pub open spec fn put(self, a: ArrayAllocation) -> (Self, Option<ArrayAllocation>) {
        if self.allocations.len() < self.max_size {
            (StealingCacheModel { allocations: self.allocations.push(a), ..self }, None)
        } else {
            (self, Some(a))
        }
    }

    /// Hands out the most recently spilled allocation.
    pub open spec fn take(self) -> (Self, Option<ArrayAllocation>) {
        if self.allocations.len() > 0 {
            (
                StealingCacheModel { allocations: self.allocations.drop_last(), ..self },
                Some(self.allocations.last()),
            )
        } else {
            (self, None)
        }
    }

    /// The next owner to steal from, advancing the ring.
    pub open spec fn next_target(self) -> (Self, TypeId) {
        (
            StealingCacheModel {
                next_stealing_idx: ((self.next_stealing_idx + 1) % (
                self.stealing_ring.len() as int)) as usize,
                ..self
            },
            self.stealing_ring[self.next_stealing_idx as int],
        )
    }

    /// Sets the number of allocations above which further ones are dropped.
    pub open spec fn discard_after(self, max_size: usize) -> Self {
        StealingCacheModel { max_size, ..self }
    }

    /// Adds an owner to the ring.
    pub open spec fn add_target(self, id: TypeId) -> Self {
        StealingCacheModel { stealing_ring: self.stealing_ring.push(id), ..self }
    }

    /// Removes an owner from the ring, moving the last one into its place;
    /// also tells whether the ring is then empty.
    pub open spec fn remove_target(self, id: TypeId) -> (Self, bool) {
        let pos = self.stealing_ring.index_of(id);
        let ring = self.stealing_ring.update(pos, self.stealing_ring.last()).drop_last();
        (
            StealingCacheModel {
                stealing_ring: ring,
                next_stealing_idx: if self.next_stealing_idx == 0 {
                    0
                } else {
                    (self.next_stealing_idx - 1) as usize
                },
                ..self
            },
            ring.len() == 0,
        )
    }

    /// The ring is a non-empty list of distinct owners and the next position
    /// lies inside it.
    pub open spec fn wf(self) -> bool {
        &&& self.stealing_ring.len() > 0
        &&& self.next_stealing_idx < self.stealing_ring.len()
        &&& self.stealing_ring.no_duplicates()
    }
}

/// The owners that `n` consecutive steal attempts on `c` turn to, in order.
pub open spec fn steal_targets(c: StealingCacheModel, n: nat) -> Seq<TypeId>
    decreases n,
{
    if n == 0 {
        Seq::empty()
    } else {
        seq![c.next_target().1] + steal_targets(c.next_target().0, (n - 1) as nat)
    }
}

/// Steal attempts go round the ring: the `i`-th of `n` consecutive
/// attempts turns to the owner `i` places after the next position, wrapping
/// around at the end of the ring, and the ring itself stays as it was.
pub proof fn lemma_steal_targets_go_round(c: StealingCacheModel, n: nat)
    requires
        c.wf(),
        c.stealing_ring.len() <= usize::MAX,
    ensures
        steal_targets(c, n).len() == n,
        forall|i: int|
            0 <= i < n ==> #[trigger] steal_targets(c, n)[i] == c.stealing_ring[(
            c.next_stealing_idx + i) % (c.stealing_ring.len() as int)],
        c.next_target().0.wf(),
        c.next_target().0.stealing_ring == c.stealing_ring,
    decreases n,
{
    let len = c.stealing_ring.len() as int;
    let d = c.next_target().0;
    vstd::arithmetic::div_mod::lemma_mod_pos_bound(c.next_stealing_idx + 1, len);
    assert(d.next_stealing_idx == (c.next_stealing_idx + 1) % len);
    if n > 0 {
        lemma_steal_targets_go_round(d, (n - 1) as nat);
        let t = steal_targets(c, n);
        let rest = steal_targets(d, (n - 1) as nat);
        assert forall|i: int| 0 <= i < n implies #[trigger] t[i] == c.stealing_ring[(
        c.next_stealing_idx + i) % len] by {
            if i == 0 {
                vstd::arithmetic::div_mod::lemma_small_mod(c.next_stealing_idx as nat, len as nat);
            } else {
                assert(t[i] == rest[i - 1]);
                vstd::arithmetic::div_mod::lemma_add_mod_noop_right(
                    i - 1,
                    c.next_stealing_idx + 1,
                    len,
                );
                assert((i - 1) + (c.next_stealing_idx + 1) == c.next_stealing_idx + i);
            }
        }
    }
}

/// As many consecutive steal attempts as there are owners in the ring turn
/// to every one of them: no owner is passed over.
pub proof fn lemma_steal_targets_reach_every_owner(c: StealingCacheModel)
    requires
        c.wf(),
        c.stealing_ring.len() <= usize::MAX,
    ensures
        forall|j: int|
            0 <= j < c.stealing_ring.len() ==> steal_targets(c, c.stealing_ring.len()).contains(
                #[trigger] c.stealing_ring[j],
            ),
{
    let len = c.stealing_ring.len() as int;
    let idx = c.next_stealing_idx as int;
    let t = steal_targets(c, c.stealing_ring.len());
    lemma_steal_targets_go_round(c, c.stealing_ring.len());
    assert forall|j: int| 0 <= j < len implies t.contains(#[trigger] c.stealing_ring[j]) by {
        let i = if j >= idx {
            j - idx
        } else {
            j + len - idx
        };
        if j >= idx {
            vstd::arithmetic::div_mod::lemma_small_mod(j as nat, len as nat);
            assert(idx + i == j);
        } else {
            vstd::arithmetic::div_mod::lemma_mod_add_multiples_vanish(j, len);
            vstd::arithmetic::div_mod::lemma_small_mod(j as nat, len as nat);
            assert(idx + i == len + j);
        }
        assert(t[i] == c.stealing_ring[j]);
    }
}

/// What an affinity array cache holds.
pub struct ArrayCacheModel {
    /// The affinity caches, by (owner, alignment, element size).
    pub affine: Map<(TypeId, usize, usize), AffinityCacheModel>,
    /// The shared caches, by (alignment, element size).
    pub global: Map<(usize, usize), StealingCacheModel>,
    /// Affinity caches to check for eviction.
    pub eviction_queue: Seq<(TypeId, usize, usize)>,
}

impl ArrayCacheModel {
    /// An empty cache.
    pub open spec fn empty() -> Self {
        ArrayCacheModel { affine: Map::empty(), global: Map::empty(), eviction_queue: Seq::empty() }
    }

    /// Every shared cache has a well-formed ring whose owners all have an
    /// affinity cache of that shape, and no counter is about to overflow.
    pub open spec fn wf(self) -> bool {
        &&& self.affine.dom().finite()
        &&& self.global.dom().finite()
        &&& forall|k: (TypeId, usize, usize)| #[trigger]
            self.affine.dom().contains(k) ==> self.affine[k].bounded()
        &&& forall|g: (usize, usize)| #[trigger]
            self.global.dom().contains(g) ==> self.global[g].wf()
        &&& forall|g: (usize, usize), i: int|
            self.global.dom().contains(g) && 0 <= i < self.global[g].stealing_ring.len()
                ==> self.affine.dom().contains(
                (#[trigger] self.global[g].stealing_ring[i], g.0, g.1),
            )
    }

    /// Takes an allocation for `id`: first from its own affinity cache, then
    /// from the shared cache of that shape, and finally by stealing from the
    /// next owner in the shared cache's ring.
    pub open spec fn take(self, id: TypeId, alignment: usize, element_size: usize) -> (
        Self,
        Option<ArrayAllocation>,
    ) {
        let key = (id, alignment, element_size);
        let gk = (alignment, element_size);
        if self.affine.dom().contains(key) && self.affine[key].allocations.len() > 0 {
            let (c, r) = self.affine[key].take();
            (ArrayCacheModel { affine: self.affine.insert(key, c), ..self }, r)
        } else if !self.global.dom().contains(gk) {
            (self, None)
        } else if self.global[gk].allocations.len() > 0 {
            let (g, r) = self.global[gk].take();
            (ArrayCacheModel { global: self.global.insert(gk, g), ..self }, r)
        } else {
            let (g, target) = self.global[gk].next_target();
            let after_ring = ArrayCacheModel { global: self.global.insert(gk, g), ..self };
            let tk = (target, alignment, element_size);
            let (c, outcome) = self.affine[tk].steal();
            let after_steal = ArrayCacheModel {
                affine: self.affine.insert(tk, c),
                ..after_ring
            };
            match outcome {
                StealOutcome::Success(a) => (after_steal, Some(a)),
                StealOutcome::Fail => (after_steal, None),
                StealOutcome::CacheEviction => (
                    ArrayCacheModel {
                        eviction_queue: self.eviction_queue.push(tk),
                        ..after_steal
                    },
                    None,
                ),
            }
        }
    }

    /// Caches an allocation for `id`: in its own affinity cache if there is
    /// room, else in the shared cache of that shape (joining its ring), and
    /// drops it when that is full too.
    pub open spec fn put(
        self,
        id: TypeId,
        alignment: usize,
        element_size: usize,
        a: ArrayAllocation,
    ) -> Self {
        let key = (id, alignment, element_size);
        let gk = (alignment, element_size);
        let c = if self.affine.dom().contains(key) {
            self.affine[key]
        } else {
            AffinityCacheModel::fresh()
        };
        let (c2, spilled) = c.put(a);
        let after = ArrayCacheModel { affine: self.affine.insert(key, c2), ..self };
        match spilled {
            None => after,
            Some(x) => {
                let g = if self.global.dom().contains(gk) {
                    if self.global[gk].stealing_ring.contains(id) {
                        self.global[gk]
                    } else {
                        self.global[gk].add_target(id)
                    }
                } else {
                    StealingCacheModel::fresh(id)
                };
                let (g2, _dropped) = g.put(x);
                ArrayCacheModel { global: self.global.insert(gk, g2), ..after }
            },
        }
    }

    /// Evicts the affinity cache `k` if it is stale, removing its owner from
    /// the ring of the shared cache and the shared cache once its ring is
    /// empty.
    pub open spec fn prune_one(self, k: (TypeId, usize, usize)) -> Self {
        let gk = (k.1, k.2);
        if !self.affine.dom().contains(k) || !self.affine[k].is_stale() {
            self
        } else if !self.global.dom().contains(gk) || !self.global[gk].stealing_ring.contains(k.0) {
            ArrayCacheModel { affine: self.affine.remove(k), ..self }
        } else {
            let (g, now_empty) = self.global[gk].remove_target(k.0);
            ArrayCacheModel {
                affine: self.affine.remove(k),
                global: if now_empty {
                    self.global.remove(gk)
                } else {
                    self.global.insert(gk, g)
                },
                ..self
            }
        }
    }

    /// Applies `prune_one` to each of `queue` in order.
    pub open spec fn prune_all(self, queue: Seq<(TypeId, usize, usize)>) -> Self
        decreases queue.len(),
    {
        if queue.len() == 0 {
            self
        } else {
            self.prune_all(queue.drop_last()).prune_one(queue.last())
        }
    }

    /// Evicts the stale caches of the eviction queue and empties the queue.
    pub open spec fn prune_stale(self) -> Self {
        ArrayCacheModel {
            eviction_queue: Seq::empty(),
            ..ArrayCacheModel { eviction_queue: Seq::empty(), ..self }.prune_all(
                self.eviction_queue,
            )
        }
    }

    /// Reconfigures the affinity cache `k`, if there is one.
    pub open spec fn configure_affine(
        self,
        k: (TypeId, usize, usize),
        max_size: usize,
        eviction_thr: usize,
    ) -> Self {
        if self.affine.dom().contains(k) {
            ArrayCacheModel {
                affine: self.affine.insert(
                    k,
                    self.affine[k].spill_after(max_size).evict_after(eviction_thr),
                ),
                ..self
            }
        } else {
            self
        }
    }

    /// Reconfigures the shared cache `gk`, if there is one.
    pub open spec fn configure_global(self, gk: (usize, usize), max_size: usize) -> Self {
        if self.global.dom().contains(gk) {
            ArrayCacheModel {
                global: self.global.insert(gk, self.global[gk].discard_after(max_size)),
                ..self
            }
        } else {
            self
        }
    }
}


/// The affinity cache `c` after `n` attempts to steal from it.
pub open spec fn after_steals(c: AffinityCacheModel, n: nat) -> AffinityCacheModel
    decreases n,
{
    if n == 0 {
        c
    } else {
        after_steals(c, (n - 1) as nat).steal().0
    }
}

/// Setting a positive eviction threshold keeps the failure count below it,
/// so a reconfigured cache is not stale right after the call, and a count
/// that was already below the threshold is kept.
pub proof fn lemma_reconfigured_not_stale(c: AffinityCacheModel, max_size: usize, thr: usize)
    requires
        thr > 0,
    ensures
        c.spill_after(max_size).evict_after(thr).failed_steals < thr,
        !c.spill_after(max_size).evict_after(thr).is_stale(),
        c.failed_steals < thr ==> c.spill_after(max_size).evict_after(thr).failed_steals
            == c.failed_steals,
{
}

/// Stealing from an empty cache that has not failed yet counts the failures:
/// it stays empty and its count is the number of attempts, while that stays
/// within the threshold.
proof fn lemma_failed_steals_count(c: AffinityCacheModel, n: nat)
    requires
        c.allocations.len() == 0,
        c.failed_steals == 0,
        n <= c.eviction_thr,
        c.bounded(),
    ensures
        after_steals(c, n).allocations.len() == 0,
        after_steals(c, n).failed_steals == n,
        after_steals(c, n).eviction_thr == c.eviction_thr,
    decreases n,
{
    if n > 0 {
        lemma_failed_steals_count(c, (n - 1) as nat);
        let prev = after_steals(c, (n - 1) as nat);
        assert((prev.failed_steals + 1) % (prev.eviction_thr + 1) == n) by {
            vstd::arithmetic::div_mod::lemma_small_mod(n, (c.eviction_thr + 1) as nat);
        }
    }
}

/// An empty cache that its owner stops filling is reported for eviction
/// exactly at the attempt to steal that makes its failures reach the
/// eviction threshold, and every earlier attempt fails without report.
pub proof fn lemma_eviction_at_threshold(c: AffinityCacheModel, k: nat)
    requires
        c.allocations.len() == 0,
        c.failed_steals == 0,
        c.bounded(),
        1 <= k <= c.eviction_thr,
    ensures
        k < c.eviction_thr ==> after_steals(c, (k - 1) as nat).steal().1 is Fail,
        k == c.eviction_thr ==> after_steals(c, (k - 1) as nat).steal().1 is CacheEviction,
        k == c.eviction_thr ==> after_steals(c, k).is_stale(),
{
    lemma_failed_steals_count(c, (k - 1) as nat);
    lemma_failed_steals_count(c, k);
    let prev = after_steals(c, (k - 1) as nat);
    assert((prev.failed_steals + 1) % (prev.eviction_thr + 1) == k) by {
        vstd::arithmetic::div_mod::lemma_small_mod(k, (c.eviction_thr + 1) as nat);
    }
}

/// An owner that caches an allocation while its own cache of that shape has
/// room takes that same allocation back next, and its cache then holds what
/// it held before.
pub proof fn lemma_array_take_after_put(
    m: ArrayCacheModel,
    id: TypeId,
    alignment: usize,
    element_size: usize,
    a: ArrayAllocation,
)
    requires
        m.affine.dom().contains((id, alignment, element_size)) ==> m.affine[(
            id,
            alignment,
            element_size,
        )].allocations.len() < m.affine[(id, alignment, element_size)].max_size,
    ensures
        m.put(id, alignment, element_size, a).take(id, alignment, element_size).1 == Some(a),
        m.affine.dom().contains((id, alignment, element_size)) ==> m.put(
            id,
            alignment,
            element_size,
            a,
        ).take(id, alignment, element_size).0.affine[(id, alignment, element_size)].allocations
            == m.affine[(id, alignment, element_size)].allocations,
{
    let key = (id, alignment, element_size);
    let m1 = m.put(id, alignment, element_size, a);
    if m.affine.dom().contains(key) {
        assert(m1.affine[key].allocations == m.affine[key].allocations.push(a));
        assert(m1.affine[key].allocations.drop_last() =~= m.affine[key].allocations);
    } else {
        assert(m1.affine[key].allocations == Seq::<ArrayAllocation>::empty().push(a));
    }
}

/// An allocation that does not fit in its owner's full cache goes to the
/// shared cache of its shape, where another owner of that shape, whose own
/// cache is empty, takes it next.
pub proof fn lemma_spilled_allocation_is_shared(
    m: ArrayCacheModel,
    id: TypeId,
    other: TypeId,
    alignment: usize,
    element_size: usize,
    a: ArrayAllocation,
)
    requires
        m.affine.dom().contains((id, alignment, element_size)),
        m.affine[(id, alignment, element_size)].allocations.len() >= m.affine[(
            id,
            alignment,
            element_size,
        )].max_size,
        m.global.dom().contains((alignment, element_size)) ==> m.global[(
            alignment,
            element_size,
        )].allocations.len() < m.global[(alignment, element_size)].max_size,
        other != id,
        m.affine.dom().contains((other, alignment, element_size)) ==> m.affine[(
            other,
            alignment,
            element_size,
        )].allocations.len() == 0,
    ensures
        m.put(id, alignment, element_size, a).take(other, alignment, element_size).1 == Some(a),
{
    let gk = (alignment, element_size);
    let m1 = m.put(id, alignment, element_size, a);
    let okey = (other, alignment, element_size);
    assert(okey != (id, alignment, element_size));
    if m.global.dom().contains(gk) {
        assert(m1.global[gk].allocations == m.global[gk].allocations.push(a));
    } else {
        assert(m1.global[gk].allocations == Seq::<ArrayAllocation>::empty().push(a));
    }
}


/// The cache of one owner for arrays of one shape.
#[derive(Debug)]
struct AffinityCache {
    allocations: Vec<ArrayAllocation>,
    max_size: usize,
    eviction_thr: usize,
    failed_steals: usize,
}

impl View for AffinityCache {
    type V = AffinityCacheModel;

    closed spec fn view(&self) -> AffinityCacheModel {
        AffinityCacheModel {
            allocations: self.allocations@,
            max_size: self.max_size,
            eviction_thr: self.eviction_thr,
            failed_steals: self.failed_steals,
        }
    }
}

impl AffinityCache {
    fn new() -> (r: Self)
        ensures
            r@ == AffinityCacheModel::fresh(),
    {
        AffinityCache { allocations: Vec::new(), max_size: 16, eviction_thr: 8, failed_steals: 0 }
    }

    fn put(&mut self, allocation: ArrayAllocation) -> (r: Option<ArrayAllocation>)
        ensures
            (final(self)@, r) == old(self)@.put(allocation),
    {
        self.failed_steals = 0;
        if self.allocations.len() < self.max_size {
            self.allocations.push(allocation);
            None
        } else {
            Some(allocation)
        }
    }

    fn take(&mut self) -> (r: Option<ArrayAllocation>)
        ensures
            (final(self)@, r) == old(self)@.take(),
    {
        let r = self.allocations.pop();
        proof {
            if old(self)@.allocations.len() > 0 {
                assert(self.allocations@ =~= old(self)@.allocations.drop_last());
            }
        }
        r
    }

    fn steal(&mut self) -> (r: StealOutcome)
        requires
            old(self)@.bounded(),
        ensures
            (final(self)@, r) == old(self)@.steal(),
    {
        if let Some(object) = self.allocations.pop() {
            assert(self.allocations@ =~= old(self)@.allocations.drop_last());
            return StealOutcome::Success(object);
        }
        self.failed_steals = (self.failed_steals + 1) % (self.eviction_thr + 1);
        if self.failed_steals != self.eviction_thr {
            StealOutcome::Fail
        } else {
            StealOutcome::CacheEviction
        }
    }

    fn is_stale(&self) -> (r: bool)
        requires
            self@.bounded(),
        ensures
            r == self@.is_stale(),
    {
        self.allocations.len() == 0 && (self.failed_steals == self.eviction_thr + 1
            || self.failed_steals == self.eviction_thr)
    }

    fn evict_after(&mut self, eviction_thr: usize)
        ensures
            final(self)@ == old(self)@.evict_after(eviction_thr),
    {
        self.eviction_thr = eviction_thr;
        if self.failed_steals >= eviction_thr {
            self.failed_steals = eviction_thr.saturating_sub(1);
        }
    }

    fn spill_after(&mut self, max_size: usize)
        ensures
            final(self)@ == old(self)@.spill_after(max_size),
    {
        self.max_size = max_size;
    }
}

/// The cache shared by all owners for arrays of one shape.
#[derive(Debug)]
struct StealingCache {
    stealing_ring: Vec<TypeId>,
    next_stealing_idx: usize,
    max_size: usize,
    allocations: Vec<ArrayAllocation>,
}

impl View for StealingCache {
    type V = StealingCacheModel;

    closed spec fn view(&self) -> StealingCacheModel {
        StealingCacheModel {
            stealing_ring: self.stealing_ring@,
            next_stealing_idx: self.next_stealing_idx,
            max_size: self.max_size,
            allocations: self.allocations@,
        }
    }
}

impl StealingCache {
    fn new(id: TypeId) -> (r: Self)
        ensures
            r@ == StealingCacheModel::fresh(id),
    {
        let r = StealingCache {
            stealing_ring: vec![id],
            next_stealing_idx: 0,
            max_size: 256,
            allocations: Vec::new(),
        };
        assert(r@.stealing_ring =~= seq![id]);
        r
    }

    fn put(&mut self, allocation: ArrayAllocation) -> (r: Option<ArrayAllocation>)
        ensures
            (final(self)@, r) == old(self)@.put(allocation),
    {
        if self.allocations.len() < self.max_size {
            self.allocations.push(allocation);
            None
        } else {
            Some(allocation)
        }
    }

    fn take(&mut self) -> (r: Option<ArrayAllocation>)
        ensures
            (final(self)@, r) == old(self)@.take(),
    {
        let r = self.allocations.pop();
        proof {
            if old(self)@.allocations.len() > 0 {
                assert(self.allocations@ =~= old(self)@.allocations.drop_last());
            }
        }
        r
    }

    fn next_stealing_target(&mut self) -> (r: TypeId)
        requires
            old(self)@.wf(),
        ensures
            (final(self)@, r) == old(self)@.next_target(),
    {
        let idx = self.next_stealing_idx;
        let len = self.stealing_ring.len();
        let steal_from = self.stealing_ring[idx];
        let next = idx + 1;
        self.next_stealing_idx = next % len;
        steal_from
    }

    fn discard_after(&mut self, max_size: usize)
        ensures
            final(self)@ == old(self)@.discard_after(max_size),
    {
        self.max_size = max_size;
    }

    fn add_stealing_target(&mut self, affinity_id: TypeId)
        ensures
            final(self)@ == old(self)@.add_target(affinity_id),
    {
        self.stealing_ring.push(affinity_id);
    }

    /// The position of `id` in the ring, if it is there.
    fn ring_position(&self, id: &TypeId) -> (r: Option<usize>)
        ensures
            r is Some <==> self@.stealing_ring.contains(*id),
            r matches Some(i) ==> i < self@.stealing_ring.len() && self@.stealing_ring[i as int]
                == *id,
    {
        let mut i: usize = 0;
        while i < self.stealing_ring.len()
            invariant
                i <= self.stealing_ring@.len(),
                forall|j: int| 0 <= j < i ==> self.stealing_ring@[j] != *id,
            decreases self.stealing_ring@.len() - i,
        {
            if type_id_eq(&self.stealing_ring[i], id) {
                return Some(i);
            }
            i += 1;
        }
        None
    }

    fn remove_stealing_target(&mut self, pos: usize) -> (r: bool)
        requires
            old(self)@.stealing_ring.no_duplicates(),
            pos < old(self)@.stealing_ring.len(),
        ensures
            (final(self)@, r) == old(self)@.remove_target(old(self)@.stealing_ring[pos as int]),
    {
        let ghost id = self.stealing_ring@[pos as int];
        proof {
            let ring = self.stealing_ring@;
            assert(ring[pos as int] == id);
            assert(ring.contains(id));
            let j = ring.index_of(id);
            assert(ring[j] == id);
            assert(j == pos);
        }
        self.stealing_ring.swap_remove(pos);
        self.next_stealing_idx = self.next_stealing_idx.saturating_sub(1);
        self.stealing_ring.len() == 0
    }
}

/// Caches array allocations by owner and shape.
///
/// Each owner (a type identity) has an affinity cache for each
/// (alignment, element size) pair it uses. Allocations that do not fit in a
/// full affinity cache spill into a cache shared by all owners of that shape,
/// and owners that find both caches empty steal from the others in turn. An
/// affinity cache that keeps failing steal attempts is queued for eviction.
#[derive(Debug)]
pub struct AffinityArrayCache {
    affine: KeyedList<(TypeId, usize, usize), AffinityCache>,
    global: KeyedList<(usize, usize), StealingCache>,
    eviction_queue: Vec<(TypeId, usize, usize)>,
}

impl View for AffinityArrayCache {
    type V = ArrayCacheModel;

    closed spec fn view(&self) -> ArrayCacheModel {
        ArrayCacheModel {
            affine: self.affine.view().map_values(|c: AffinityCache| c@),
            global: self.global.view().map_values(|g: StealingCache| g@),
            eviction_queue: self.eviction_queue@,
        }
    }
}

impl AffinityArrayCache {
    /// The lists hold distinct keys and the model is well-formed.
    pub closed spec fn wf(&self) -> bool {
        &&& self.affine.wf()
        &&& self.global.wf()
        &&& self@.wf()
    }

    /// An empty cache.
    pub fn new() -> (r: Self)
        ensures
            r.wf(),
            r@ == ArrayCacheModel::empty(),
    {
        let r = AffinityArrayCache {
            affine: KeyedList::new(),
            global: KeyedList::new(),
            eviction_queue: Vec::new(),
        };
        assert(r@.affine =~= Map::empty());
        assert(r@.global =~= Map::empty());
        assert(r@.eviction_queue =~= Seq::empty());
        r
    }

    /// Takes an allocation of the given shape for `affinity_id`, from its own
    /// affinity cache, the shared cache, or another owner's affinity cache.
    pub fn take(
        &mut self,
        affinity_id: &TypeId,
        alignment: usize,
        element_size: usize,
    ) -> (r: Option<ArrayAllocation>)
        requires
            old(self).wf(),
        ensures
            final(self).wf(),
            (final(self)@, r) == old(self)@.take(*affinity_id, alignment, element_size),
    {
        let ghost m = self@;
        let key = (*affinity_id, alignment, element_size);
        match self.affine.remove(&key) {
            Some(mut cache) => {
                let r = cache.take();
                let ghost c = cache@;
                self.affine.insert_new(key, cache);
                proof {
                    assert(self@.affine =~= m.affine.insert(key, c));
                    assert(self@.global =~= m.global);
                    assert(self@.affine.dom() =~= m.affine.dom());
                }
                if r.is_some() {
                    return r;
                }
                proof {
                    assert(self@.affine =~= m.affine);
                }
            },
            None => {
                proof {
                    assert(self@.affine =~= m.affine);
                }
            },
        }
        let gk = (alignment, element_size);
        let mut g = match self.global.remove(&gk) {
            Some(g) => g,
            None => {
                proof {
                    assert(self@.global =~= m.global);
                }
                return None;
            },
        };
        if g.allocations.len() > 0 {
            let r = g.take();
            let ghost gm = g@;
            self.global.insert_new(gk, g);
            proof {
                assert(self@.global =~= m.global.insert(gk, gm));
                assert(self@.affine =~= m.affine);
                assert(self@.global.dom() =~= m.global.dom());
            }
            return r;
        }
        proof {
            assert(m.global.dom().contains(gk));
            assert(g@ == m.global[gk]);
        }
        let target = g.next_stealing_target();
        let ghost gm = g@;
        self.global.insert_new(gk, g);
        let tk = (target, alignment, element_size);
        proof {
            assert(self@.global =~= m.global.insert(gk, gm));
            assert(self@.affine =~= m.affine);
            assert(self@.global.dom() =~= m.global.dom());
            assert(m.global[gk].stealing_ring[m.global[gk].next_stealing_idx as int] == target);
            assert(m.affine.dom().contains(tk));
        }
        let ghost m1 = self@;
        let mut victim = match self.affine.remove(&tk) {
            Some(c) => c,
            None => {
                proof {
                    assert(false);
                }
                return None;
            },
        };
        let outcome = victim.steal();
        let ghost cm = victim@;
        self.affine.insert_new(tk, victim);
        proof {
            assert(self@.affine =~= m.affine.insert(tk, cm));
            assert(self@.affine.dom() =~= m.affine.dom());
            assert(self@.global =~= m1.global);
        }
        match outcome {
            StealOutcome::Success(x) => Some(x),
            StealOutcome::Fail => None,
            StealOutcome::CacheEviction => {
                self.eviction_queue.push(tk);
                None
            },
        }
    }

    /// Caches an allocation of the given shape for `affinity_id`: in its
    /// own affinity cache while it has room, then in the shared cache of that
    /// shape, whose ring the owner joins; it is dropped when both are full.
    pub fn put(
        &mut self,
        affinity_id: &TypeId,
        alignment: usize,
        element_size: usize,
        allocation: ArrayAllocation,
    )
        requires
            old(self).wf(),
        ensures
            final(self).wf(),
            final(self)@ == old(self)@.put(*affinity_id, alignment, element_size, allocation),
    {
        let ghost m = self@;
        let key = (*affinity_id, alignment, element_size);
        let mut cache = match self.affine.remove(&key) {
            Some(c) => c,
            None => AffinityCache::new(),
        };
        let spilled = cache.put(allocation);
        let ghost c2 = cache@;
        self.affine.insert_new(key, cache);
        proof {
            assert(self@.affine =~= m.affine.insert(key, c2));
            assert(self@.global =~= m.global);
        }
        let x = match spilled {
            None => {
                return ;
            },
            Some(x) => x,
        };
        let ghost m1 = self@;
        let gk = (alignment, element_size);
        let mut g = match self.global.remove(&gk) {
            Some(g0) => {
                let mut g0 = g0;
                proof {
                    assert(m.global.dom().contains(gk));
                    assert(g0@ == m.global[gk]);
                }
                match g0.ring_position(affinity_id) {
                    Some(_) => {},
                    None => {
                        proof {
                            lemma_push_fresh(g0@.stealing_ring, *affinity_id);
                        }
                        g0.add_stealing_target(*affinity_id);
                    },
                }
                g0
            },
            None => StealingCache::new(*affinity_id),
        };
        let ghost g1 = g@;
        proof {
            assert forall|i: int| 0 <= i < g1.stealing_ring.len() implies m1.affine.dom().contains(
                (#[trigger] g1.stealing_ring[i], gk.0, gk.1),
            ) by {
                if m.global.dom().contains(gk) && i < m.global[gk].stealing_ring.len() {
                    assert(g1.stealing_ring[i] == m.global[gk].stealing_ring[i]);
                    assert(m.affine.dom().contains((m.global[gk].stealing_ring[i], gk.0, gk.1)));
                } else {
                    assert(g1.stealing_ring[i] == *affinity_id);
                }
            }
            assert(g1.wf());
        }
        let _dropped = g.put(x);
        let ghost g2 = g@;
        self.global.insert_new(gk, g);
        proof {
            assert(self@.global =~= m1.global.insert(gk, g2));
            assert(self@.affine == m1.affine);
            assert(g2.stealing_ring == g1.stealing_ring);
            assert(forall|i: int|
                0 <= i < g1.stealing_ring.len() ==> m1.affine.dom().contains(
                    (#[trigger] g1.stealing_ring[i], gk.0, gk.1),
                ));
            assert forall|h: (usize, usize), i: int|
                self@.global.dom().contains(h) && 0 <= i < self@.global[h].stealing_ring.len()
                    implies self@.affine.dom().contains(
                (#[trigger] self@.global[h].stealing_ring[i], h.0, h.1),
            ) by {
                if h == gk {
                    assert(self@.global[h].stealing_ring[i] == g1.stealing_ring[i]);
                } else {
                    assert(m.global[h].stealing_ring[i] == self@.global[h].stealing_ring[i]);
                }
            }
        }
    }

    /// Evicts the cache `k` if it is stale, and takes its owner off the ring
    /// of the shared cache of that shape.
    fn prune_one(&mut self, k: &(TypeId, usize, usize))
        requires
            old(self).wf(),
        ensures
            final(self).wf(),
            final(self)@ == old(self)@.prune_one(*k),
    {
        let ghost m = self@;
        let stale = match self.affine.get(k) {
            None => {
                return ;
            },
            Some(c) => {
                assert(m.affine.dom().contains(*k));
                assert(c@ == m.affine[*k]);
                c.is_stale()
            },
        };
        if !stale {
            return ;
        }
        let _ = self.affine.remove(k);
        let gk = (k.1, k.2);
        proof {
            assert(self@.affine =~= m.affine.remove(*k));
            assert(self@.global =~= m.global);
        }
        let ghost m1 = self@;
        let mut g = match self.global.remove(&gk) {
            None => {
                proof {
                    assert(self@.global =~= m.global);
                    assert forall|h: (usize, usize), i: int|
                        self@.global.dom().contains(h) && 0 <= i
                            < self@.global[h].stealing_ring.len() implies self@.affine.dom().contains(
                        (#[trigger] self@.global[h].stealing_ring[i], h.0, h.1),
                    ) by {
                        assert(m.global[h].stealing_ring[i] == self@.global[h].stealing_ring[i]);
                    }
                }
                return ;
            },
            Some(g) => g,
        };
        let ghost g0 = g@;
        proof {
            assert(m.global.dom().contains(gk));
            assert(g0 == m.global[gk]);
        }
        match g.ring_position(&k.0) {
            None => {
                self.global.insert_new(gk, g);
                proof {
                    assert(self@.global =~= m.global);
                    assert forall|h: (usize, usize), i: int|
                        self@.global.dom().contains(h) && 0 <= i
                            < self@.global[h].stealing_ring.len() implies self@.affine.dom().contains(
                        (#[trigger] self@.global[h].stealing_ring[i], h.0, h.1),
                    ) by {
                        assert(m.global[h].stealing_ring[i] == self@.global[h].stealing_ring[i]);
                        if h == gk {
                            assert(g0.stealing_ring.contains(g0.stealing_ring[i]));
                        }
                    }
                }
            },
            Some(pos) => {
                proof {
                    lemma_swap_remove_seq(g0.stealing_ring, pos as int);
                }
                let now_empty = g.remove_stealing_target(pos);
                let ghost g1 = g@;
                if !now_empty {
                    self.global.insert_new(gk, g);
                    proof {
                        assert(self@.global =~= m.global.insert(gk, g1));
                    }
                } else {
                    proof {
                        assert(self@.global =~= m.global.remove(gk));
                    }
                }
                proof {
                    assert forall|h: (usize, usize), i: int|
                        self@.global.dom().contains(h) && 0 <= i
                            < self@.global[h].stealing_ring.len() implies self@.affine.dom().contains(
                        (#[trigger] self@.global[h].stealing_ring[i], h.0, h.1),
                    ) by {
                        if h == gk {
                            let t = g1.stealing_ring[i];
                            assert(g1.stealing_ring.contains(t));
                            assert(g0.stealing_ring.contains(t));
                            let j = choose|j: int| 0 <= j < g0.stealing_ring.len() && g0.stealing_ring[j] == t;
                            assert(m.global[gk].stealing_ring[j] == t);
                            assert(m.affine.dom().contains((t, gk.0, gk.1)));
                            assert(t != k.0);
                        } else {
                            assert(m.global[h].stealing_ring[i] == self@.global[h].stealing_ring[i]);
                        }
                    }
                }
            },
        }
    }

    /// Evicts every queued cache that is still stale and empties the queue.
    pub fn prune_stale(&mut self)
        requires
            old(self).wf(),
        ensures
            final(self).wf(),
            final(self)@ == old(self)@.prune_stale(),
    {
        let ghost m = self@;
        let mut queue = Vec::new();
        std::mem::swap(&mut queue, &mut self.eviction_queue);
        let ghost start = self@;
        proof {
            assert(start == ArrayCacheModel { eviction_queue: Seq::empty(), ..m });
            assert(queue@.take(0) =~= Seq::<(TypeId, usize, usize)>::empty());
        }
        let mut i: usize = 0;
        while i < queue.len()
            invariant
                self.wf(),
                i <= queue@.len(),
                queue@ == m.eviction_queue,
                self@ == start.prune_all(queue@.take(i as int)),
            decreases queue@.len() - i,
        {
            self.prune_one(&queue[i]);
            proof {
                assert(queue@.take(i + 1).drop_last() =~= queue@.take(i as int));
            }
            i += 1;
        }
        proof {
            assert(queue@.take(queue@.len() as int) =~= queue@);
            lemma_prune_all_keeps_queue(start, queue@);
        }
    }

    /// Drops every cached allocation and every cache.
    pub fn clear(&mut self)
        ensures
            final(self).wf(),
            final(self)@ == ArrayCacheModel::empty(),
    {
        self.affine.clear();
        self.global.clear();
        self.eviction_queue.clear();
        assert(self@.affine =~= Map::empty());
        assert(self@.global =~= Map::empty());
        assert(self@.eviction_queue =~= Seq::empty());
    }

    /// Sets the capacity and eviction threshold of the affinity cache of
    /// `affinity_id` for the given shape, if there is one.
    pub fn configure_affine_cache(
        &mut self,
        affinity_id: &TypeId,
        alignment: usize,
        element_size: usize,
        max_size: usize,
        eviction_threshold: usize,
    )
        requires
            old(self).wf(),
            eviction_threshold < usize::MAX,
        ensures
            final(self).wf(),
            final(self)@ == old(self)@.configure_affine(
                (*affinity_id, alignment, element_size),
                max_size,
                eviction_threshold,
            ),
    {
        let ghost m = self@;
        let key = (*affinity_id, alignment, element_size);
        match self.affine.remove(&key) {
            Some(mut c) => {
                c.spill_after(max_size);
                c.evict_after(eviction_threshold);
                let ghost cm = c@;
                self.affine.insert_new(key, c);
                proof {
                    assert(self@.affine =~= m.affine.insert(key, cm));
                    assert(self@.affine.dom() =~= m.affine.dom());
                    assert(self@.global =~= m.global);
                }
            },
            None => {
                proof {
                    assert(self@.affine =~= m.affine);
                }
            },
        }
    }

    /// Sets the capacity of the shared cache of the given shape, if there is
    /// one.
    pub fn configure_global_cache(&mut self, alignment: usize, element_size: usize, max_size: usize)
        requires
            old(self).wf(),
        ensures
            final(self).wf(),
            final(self)@ == old(self)@.configure_global((alignment, element_size), max_size),
    {
        let ghost m = self@;
        let gk = (alignment, element_size);
        match self.global.remove(&gk) {
            Some(mut g) => {
                g.discard_after(max_size);
                let ghost gm = g@;
                self.global.insert_new(gk, g);
                proof {
                    assert(self@.global =~= m.global.insert(gk, gm));
                    assert(self@.affine =~= m.affine);
                    assert forall|h: (usize, usize), i: int|
                        self@.global.dom().contains(h) && 0 <= i
                            < self@.global[h].stealing_ring.len() implies self@.affine.dom().contains(
                        (#[trigger] self@.global[h].stealing_ring[i], h.0, h.1),
                    ) by {
                        assert(m.global[h].stealing_ring[i] == self@.global[h].stealing_ring[i]);
                    }
                }
            },
            None => {
                proof {
                    assert(self@.global =~= m.global);
                }
            },
        }
    }
}

/// Adding an element that a duplicate-free sequence lacks keeps it free of
/// duplicates.
proof fn lemma_push_fresh<A>(s: Seq<A>, x: A)
    requires
        s.no_duplicates(),
        !s.contains(x),
    ensures
        s.push(x).no_duplicates(),
{
    let t = s.push(x);
    assert forall|i: int, j: int| 0 <= i < t.len() && 0 <= j < t.len() && i != j implies t[i]
        != t[j] by {
        if i == s.len() as int {
            assert(s.contains(t[j]) ==> t[j] != x);
            assert(s[j] == t[j]);
        } else if j == s.len() as int {
            assert(s[i] == t[i]);
        }
    }
}

/// Moving the last element of a duplicate-free sequence into position `pos`
/// removes exactly the element that was there.
proof fn lemma_swap_remove_seq<A>(s: Seq<A>, pos: int)
    requires
        s.no_duplicates(),
        0 <= pos < s.len(),
    ensures
        s.update(pos, s.last()).drop_last().no_duplicates(),
        s.update(pos, s.last()).drop_last().len() == s.len() - 1,
        forall|x: A|
            s.update(pos, s.last()).drop_last().contains(x) <==> (s.contains(x) && x != s[pos]),
{
    let r = s.update(pos, s.last()).drop_last();
    let n = s.len() - 1;
    assert forall|i: int, j: int| 0 <= i < r.len() && 0 <= j < r.len() && i != j implies r[i]
        != r[j] by {
        let si = if i == pos { n } else { i };
        let sj = if j == pos { n } else { j };
        assert(r[i] == s[si]);
        assert(r[j] == s[sj]);
    }
    assert forall|x: A| r.contains(x) <==> (s.contains(x) && x != s[pos]) by {
        if r.contains(x) {
            let i = choose|i: int| 0 <= i < r.len() && r[i] == x;
            let si = if i == pos { n } else { i };
            assert(s[si] == x);
        }
        if s.contains(x) && x != s[pos] {
            let i = choose|i: int| 0 <= i < s.len() && s[i] == x;
            assert(i != pos);
            let ri = if i == n { pos } else { i };
            assert(r[ri] == x);
        }
    }
}

/// Pruning leaves the eviction queue as it found it.
proof fn lemma_prune_all_keeps_queue(m: ArrayCacheModel, q: Seq<(TypeId, usize, usize)>)
    ensures
        m.prune_all(q).eviction_queue == m.eviction_queue,
    decreases q.len(),
{
    if q.len() > 0 {
        lemma_prune_all_keeps_queue(m, q.drop_last());
    }
}

impl Default for AffinityArrayCache {
    fn default() -> (r: Self)
        ensures
            r.wf(),
            r@ == ArrayCacheModel::empty(),
    {
        AffinityArrayCache::new()
    }
}

} // verus!
