use crate::keyed_list::KeyedList;
use crate::memory::{Layout, ObjectAllocation};
use vstd::prelude::*;

verus! {

/// Caches object allocations by layout.
#[derive(Debug)]
pub struct FlatObjectCache {
    inner: KeyedList<Layout, Vec<ObjectAllocation>>,
}

/// The allocations that `m` holds for `layout`.
pub open spec fn cached_for(m: Map<Layout, Seq<ObjectAllocation>>, layout: Layout) -> Seq<
    ObjectAllocation,
> {
    if m.dom().contains(layout) {
        m[layout]
    } else {
        Seq::empty()
    }
}

/// The cache `m` after `a` is cached.
pub open spec fn after_put(m: Map<Layout, Seq<ObjectAllocation>>, a: ObjectAllocation) -> Map<
    Layout,
    Seq<ObjectAllocation>,
> {
    m.insert(a.spec_layout(), cached_for(m, a.spec_layout()).push(a))
}

/// What taking an allocation of `layout` from `m` hands out: the most
/// recently cached one.
pub open spec fn taken_from(m: Map<Layout, Seq<ObjectAllocation>>, layout: Layout) -> Option<
    ObjectAllocation,
> {
    if cached_for(m, layout).len() > 0 {
        Some(cached_for(m, layout).last())
    } else {
        None
    }
}

/// The cache `m` after an allocation of `layout` is taken from it.
pub open spec fn after_take(m: Map<Layout, Seq<ObjectAllocation>>, layout: Layout) -> Map<
    Layout,
    Seq<ObjectAllocation>,
> {
    if cached_for(m, layout).len() > 0 {
        m.insert(layout, cached_for(m, layout).drop_last())
    } else {
        m
    }
}

/// The cache `m` without the layouts that hold no allocation.
pub open spec fn without_empty(m: Map<Layout, Seq<ObjectAllocation>>) -> Map<
    Layout,
    Seq<ObjectAllocation>,
> {
    m.restrict(Set::new(|k: Layout| m.dom().contains(k) && m[k].len() > 0))
}

/// `entries` lists the layouts of `m` once each, with their allocations.
pub open spec fn lists_entries(
    entries: Seq<(Layout, Vec<ObjectAllocation>)>,
    m: Map<Layout, Seq<ObjectAllocation>>,
) -> bool {
    &&& entries.len() == m.dom().len()
    &&& forall|i: int, j: int|
        0 <= i < entries.len() && 0 <= j < entries.len() && #[trigger] entries[i].0
            == #[trigger] entries[j].0 ==> i == j
    &&& forall|i: int|
        0 <= i < entries.len() ==> m.dom().contains(#[trigger] entries[i].0) && m[entries[i].0]
            == entries[i].1@
    &&& forall|k: Layout| #[trigger]
        m.dom().contains(k) ==> exists|i: int| 0 <= i < entries.len() && entries[i].0 == k
}

impl View for FlatObjectCache {
    type V = Map<Layout, Seq<ObjectAllocation>>;

    closed spec fn view(&self) -> Map<Layout, Seq<ObjectAllocation>> {
        self.inner.view().map_values(|v: Vec<ObjectAllocation>| v@)
    }
}

impl FlatObjectCache {
    /// The list holds distinct layouts and every allocation is cached under
    /// its own layout.
    pub closed spec fn wf(&self) -> bool {
        &&& self.inner.wf()
        &&& stored_under_own_layout(self@)
    }

    /// An empty cache.
    pub fn new() -> (r: Self)
        ensures
            r.wf(),
            r@ == Map::<Layout, Seq<ObjectAllocation>>::empty(),
    {
        let r = FlatObjectCache { inner: KeyedList::new() };
        assert(r@ =~= Map::<Layout, Seq<ObjectAllocation>>::empty());
        r
    }

    /// Caches an allocation under its layout.
    pub fn put(&mut self, allocation: ObjectAllocation)
        requires
            old(self).wf(),
        ensures
            final(self).wf(),
            final(self)@ == after_put(old(self)@, allocation),
    {
        let ghost m = self@;
        let layout = *allocation.layout();
        let mut list = match self.inner.remove(&layout) {
            Some(l) => l,
            None => Vec::new(),
        };
        proof {
            assert(list@ == cached_for(m, layout));
        }
        list.push(allocation);
        let ghost l2 = list@;
        self.inner.insert_new(layout, list);
        proof {
            assert(self@ =~= m.insert(layout, l2));
            assert forall|k: Layout, i: int|
                self@.dom().contains(k) && 0 <= i < self@[k].len() implies (
                #[trigger] self@[k][i]).spec_layout() == k by {
                if k != layout {
                    assert(m[k][i] == self@[k][i]);
                }
            }
        }
    }

    /// Hands out the most recently cached allocation of the given layout.
    pub fn take(&mut self, layout: &Layout) -> (r: Option<ObjectAllocation>)
        requires
            old(self).wf(),
        ensures
            final(self).wf(),
            r == taken_from(old(self)@, *layout),
            final(self)@ == after_take(old(self)@, *layout),
            r matches Some(a) ==> a.spec_layout() == *layout,
    {
        let ghost m = self@;
        match self.inner.remove(layout) {
            Some(mut list) => {
                let r = list.pop();
                let ghost l2 = list@;
                self.inner.insert_new(*layout, list);
                proof {
                    assert(self@ =~= m.insert(*layout, l2));
                    if m[*layout].len() > 0 {
                        assert(l2 =~= m[*layout].drop_last());
                        let n = m[*layout].len() - 1;
                        assert(m[*layout][n].spec_layout() == *layout);
                    } else {
                        assert(self@ =~= m);
                    }
                    assert forall|k: Layout, i: int|
                        self@.dom().contains(k) && 0 <= i < self@[k].len() implies (
                        #[trigger] self@[k][i]).spec_layout() == k by {
                        if k == *layout {
                            assert(self@[k][i] == m[k][i]);
                        } else {
                            assert(m[k][i] == self@[k][i]);
                        }
                    }
                }
                r
            },
            None => {
                proof {
                    assert(self@ =~= m);
                }
                None
            },
        }
    }

    /// Drops the entries of layouts that hold no allocation.
    pub fn optimize(&mut self)
        requires
            old(self).wf(),
        ensures
            final(self).wf(),
            final(self)@ == without_empty(old(self)@),
    {
        let ghost m = self@;
        let mut old_inner = KeyedList::new();
        std::mem::swap(&mut old_inner, &mut self.inner);
        let ghost mv = old_inner.view();
        let mut entries = old_inner.into_entries();
        let ghost es = entries@;
        let ghost n = es.len();
        while entries.len() > 0
            invariant
                self.inner.wf(),
                n == es.len(),
                entries@.len() <= n,
                entries@ == es.take(entries@.len() as int),
                crate::keyed_list::entries_match(es, mv),
                m == mv.map_values(|v: Vec<ObjectAllocation>| v@),
                forall|k: Layout|
                    #[trigger] self.inner.view().dom().contains(k) <==> exists|j: int|
                        entries@.len() <= j < n && es[j].0 == k && es[j].1@.len() > 0,
                forall|j: int|
                    entries@.len() <= j < n && es[j].1@.len() > 0 ==> self.inner.view().dom().contains(
                        #[trigger] es[j].0,
                    ) && self.inner.view()[es[j].0] == es[j].1,
            decreases entries@.len(),
        {
            let ghost cur = entries@.len() - 1;
            let ghost before = entries@;
            proof {
                assert(before == es.take(cur + 1));
                assert(before[cur] == es[cur]);
            }
            let (k, v) = entries.pop().unwrap();
            proof {
                assert(entries@ =~= es.take(cur));
                assert(es[cur] == (k, v));
            }
            if v.len() > 0 {
                proof {
                    if self.inner.view().dom().contains(k) {
                        let j = choose|j: int| cur + 1 <= j < n && es[j].0 == k && es[j].1@.len() > 0;
                        assert(es[j].0 == es[cur].0);
                    }
                }
                let ghost before = self.inner.view();
                self.inner.insert_new(k, v);
                proof {
                    assert forall|x: Layout|
                        #[trigger] self.inner.view().dom().contains(x) <==> exists|j: int|
                            cur <= j < n && es[j].0 == x && es[j].1@.len() > 0 by {
                        if x != k && self.inner.view().dom().contains(x) {
                            assert(before.dom().contains(x));
                            let j = choose|j: int| cur + 1 <= j < n && es[j].0 == x && es[j].1@.len() > 0;
                            assert(cur <= j < n && es[j].0 == x && es[j].1@.len() > 0);
                        }
                        if x == k {
                            assert(cur <= cur < n && es[cur].0 == x && es[cur].1@.len() > 0);
                        }
                        if exists|j: int| cur <= j < n && es[j].0 == x && es[j].1@.len() > 0 {
                            let j = choose|j: int| cur <= j < n && es[j].0 == x && es[j].1@.len() > 0;
                            if j != cur {
                                assert(before.dom().contains(x));
                            }
                        }
                    }
                    assert forall|j: int|
                        cur <= j < n && es[j].1@.len() > 0 implies self.inner.view().dom().contains(
                        #[trigger] es[j].0,
                    ) && self.inner.view()[es[j].0] == es[j].1 by {
                        if j != cur {
                            assert(es[j].0 != es[cur].0);
                        }
                    }
                }
            } else {
                proof {
                    assert forall|x: Layout|
                        #[trigger] self.inner.view().dom().contains(x) <==> exists|j: int|
                            cur <= j < n && es[j].0 == x && es[j].1@.len() > 0 by {
                        if exists|j: int| cur <= j < n && es[j].0 == x && es[j].1@.len() > 0 {
                            let j = choose|j: int| cur <= j < n && es[j].0 == x && es[j].1@.len() > 0;
                            assert(j != cur);
                        }
                    }
                }
            }
        }
        proof {
            let target = without_empty(m);
            assert forall|k: Layout| #[trigger] self@.dom().contains(k) <==> target.dom().contains(k) by {
                if self@.dom().contains(k) {
                    let j = choose|j: int| 0 <= j < n && es[j].0 == k && es[j].1@.len() > 0;
                    assert(mv.dom().contains(k));
                }
                if target.dom().contains(k) {
                    assert(mv.dom().contains(k));
                    let j = choose|j: int| 0 <= j < es.len() && es[j].0 == k;
                    assert(mv[es[j].0] == es[j].1);
                    assert(es[j].1@.len() > 0);
                }
            }
            assert forall|k: Layout| #[trigger] self@.dom().contains(k) implies self@[k] == target[k] by {
                let j = choose|j: int| 0 <= j < n && es[j].0 == k && es[j].1@.len() > 0;
                assert(mv[es[j].0] == es[j].1);
            }
            assert(self@ =~= target);
            assert forall|k: Layout, i: int|
                self@.dom().contains(k) && 0 <= i < self@[k].len() implies (
                #[trigger] self@[k][i]).spec_layout() == k by {
                assert(m[k][i] == self@[k][i]);
            }
        }
    }

    /// Drops every cached allocation.
    pub fn clear(&mut self)
        ensures
            final(self).wf(),
            final(self)@ == Map::<Layout, Seq<ObjectAllocation>>::empty(),
    {
        self.inner.clear();
        assert(self@ =~= Map::<Layout, Seq<ObjectAllocation>>::empty());
    }

    /// Consumes the cache, returning the allocations of each layout.
    pub fn into_inner(self) -> (r: Vec<(Layout, Vec<ObjectAllocation>)>)
        requires
            self.wf(),
        ensures
            lists_entries(r@, self@),
    {
        let ghost m = self@;
        let ghost mv = self.inner.view();
        let r = self.inner.into_entries();
        proof {
            assert(m.dom() =~= mv.dom());
            assert forall|k: Layout| #[trigger] m.dom().contains(k) implies exists|i: int|
                0 <= i < r@.len() && r@[i].0 == k by {
                assert(mv.dom().contains(k));
            }
        }
        r
    }
}

impl Default for FlatObjectCache {
    fn default() -> (r: Self)
        ensures
            r.wf(),
            r@ == Map::<Layout, Seq<ObjectAllocation>>::empty(),
    {
        FlatObjectCache::new()
    }
}

/// Caching an allocation and then taking one of its layout hands the same
/// allocation back, and leaves every layout with the allocations it had.
pub proof fn lemma_object_take_after_put(m: Map<Layout, Seq<ObjectAllocation>>, a: ObjectAllocation)
    ensures
        taken_from(after_put(m, a), a.spec_layout()) == Some(a),
        forall|k: Layout|
            cached_for(#[trigger] after_take(after_put(m, a), a.spec_layout()), k) == cached_for(
                m,
                k,
            ),
{
    let l = a.spec_layout();
    let m1 = after_put(m, a);
    assert(cached_for(m1, l) == cached_for(m, l).push(a));
    assert(cached_for(m1, l).drop_last() =~= cached_for(m, l));
}

/// Taking an allocation of one layout leaves the allocations of every other
/// layout as they were.
pub proof fn lemma_take_keeps_other_layouts(
    m: Map<Layout, Seq<ObjectAllocation>>,
    layout: Layout,
    k: Layout,
)
    requires
        k != layout,
    ensures
        cached_for(after_take(m, layout), k) == cached_for(m, k),
{
}

/// Dropping the empty entries changes no layout's allocations, so every
/// later take hands out what it would have.
pub proof fn lemma_optimize_keeps_allocations(m: Map<Layout, Seq<ObjectAllocation>>, k: Layout)
    ensures
        cached_for(without_empty(m), k) == cached_for(m, k),
        taken_from(without_empty(m), k) == taken_from(m, k),
{
    if m.dom().contains(k) && m[k].len() == 0 {
        assert(cached_for(m, k) =~= Seq::<ObjectAllocation>::empty());
    }
}

/// Every allocation in `m` is cached under its own layout.
pub open spec fn stored_under_own_layout(m: Map<Layout, Seq<ObjectAllocation>>) -> bool {
    forall|k: Layout, i: int|
        m.dom().contains(k) && 0 <= i < m[k].len() ==> (#[trigger] m[k][i]).spec_layout() == k
}

} // verus!
