//! A finite map kept as a list of entries with distinct keys.

use vstd::prelude::*;

verus! {

/// Keys whose executable equality coincides with equality of values.
pub trait KeyEq: Sized {
    fn key_eq(&self, other: &Self) -> (r: bool)
        ensures
            r == (*self == *other),
    ;
}

impl KeyEq for (usize, usize) {
    fn key_eq(&self, other: &Self) -> (r: bool) {
        self.0 == other.0 && self.1 == other.1
    }
}

/// A finite map from `K` to `V`, stored as a list of entries whose keys are
/// pairwise distinct.
#[derive(Debug)]
pub struct KeyedList<K, V> {
    entries: Vec<(K, V)>,
}

impl<K, V> KeyedList<K, V> {
    /// The keys of the entries are pairwise distinct.
    pub closed spec fn wf(self) -> bool {
        self.distinct_keys()
    }

    closed spec fn distinct_keys(self) -> bool {
        forall|i: int, j: int|
            0 <= i < self.entries@.len() && 0 <= j < self.entries@.len() && #[trigger] self.entries@[i].0
                == #[trigger] self.entries@[j].0 ==> i == j
    }

    closed spec fn has(self, k: K) -> bool {
        exists|i: int| 0 <= i < self.entries@.len() && self.entries@[i].0 == k
    }

    closed spec fn index_of(self, k: K) -> int {
        choose|i: int| 0 <= i < self.entries@.len() && self.entries@[i].0 == k
    }

    /// The map that the list holds.
    pub closed spec fn view(self) -> Map<K, V> {
        Map::new(|k: K| self.has(k), |k: K| self.entries@[self.index_of(k)].1)
    }

    proof fn lemma_view_at(self, i: int)
        requires
            self.distinct_keys(),
            0 <= i < self.entries@.len(),
        ensures
            self.view().dom().contains(self.entries@[i].0),
            self.view()[self.entries@[i].0] == self.entries@[i].1,
    {
        let k = self.entries@[i].0;
        assert(self.has(k));
        let j = self.index_of(k);
        assert(self.entries@[j].0 == self.entries@[i].0);
    }

    /// An empty map.
    pub fn new() -> (r: Self)
        ensures
            r.wf(),
            r.view() == Map::<K, V>::empty(),
    {
        let r = KeyedList { entries: Vec::new() };
        assert(r.view() =~= Map::<K, V>::empty());
        r
    }

    /// The number of entries.
    pub fn len(&self) -> (r: usize)
        requires
            self.wf(),
        ensures
            r == self.view().dom().len(),
    {
        proof {
            self.lemma_len();
        }
        self.entries.len()
    }

    proof fn lemma_len(self)
        requires
            self.distinct_keys(),
        ensures
            self.view().dom().len() == self.entries@.len(),
            self.view().dom().finite(),
        decreases self.entries@.len(),
    {
        let keys = self.entries@.map_values(|e: (K, V)| e.0);
        assert(self.view().dom() =~= keys.to_set()) by {
            assert forall|k: K| self.view().dom().contains(k) implies keys.to_set().contains(k) by {
                let i = self.index_of(k);
                assert(keys[i] == k);
            }
            assert forall|k: K| keys.to_set().contains(k) implies self.view().dom().contains(k) by {
                let i = choose|i: int| 0 <= i < keys.len() && keys[i] == k;
                assert(self.entries@[i].0 == k);
            }
        }
        assert(keys.no_duplicates()) by {
            assert forall|i: int, j: int| 0 <= i < keys.len() && 0 <= j < keys.len() && i != j implies keys[i] != keys[j] by {
                assert(keys[i] == self.entries@[i].0);
                assert(keys[j] == self.entries@[j].0);
            }
        }
        keys.unique_seq_to_set();
    }

    /// Removes every entry.
    pub fn clear(&mut self)
        ensures
            final(self).wf(),
            final(self).view() == Map::<K, V>::empty(),
    {
        self.entries.clear();
        assert(self.view() =~= Map::<K, V>::empty());
    }

    /// Adds an entry for a key that the map does not hold.
    pub fn insert_new(&mut self, k: K, v: V)
        requires
            old(self).wf(),
            !old(self).view().dom().contains(k),
        ensures
            final(self).wf(),
            final(self).view() == old(self).view().insert(k, v),
    {
        let ghost before = *self;
        assert forall|i: int| 0 <= i < before.entries@.len() implies before.entries@[i].0 != k by {
            if before.entries@[i].0 == k {
                assert(before.has(k));
            }
        }
        self.entries.push((k, v));
        let ghost n = before.entries@.len() as int;
        assert(self.distinct_keys());
        assert(self.view() =~= before.view().insert(k, v)) by {
            assert forall|x: K| #[trigger] self.view().dom().contains(x) <==> before.view().insert(k, v).dom().contains(x) by {
                if self.has(x) {
                    let i = self.index_of(x);
                    if i < n {
                        assert(before.entries@[i].0 == x);
                    }
                }
                if before.has(x) {
                    let i = before.index_of(x);
                    assert(self.entries@[i].0 == x);
                }
                if x == k {
                    assert(self.entries@[n].0 == k);
                }
            }
            assert forall|x: K| #[trigger] self.view().dom().contains(x) implies self.view()[x] == before.view().insert(k, v)[x] by {
                let i = self.index_of(x);
                if x == k {
                    assert(self.entries@[n].0 == k);
                    assert(i == n);
                } else {
                    assert(i < n);
                    assert(before.entries@[i].0 == x);
                    before.lemma_view_at(i);
                }
            }
        }
    }

    /// The position of the entry for `k`, if there is one.
    fn position(&self, k: &K) -> (r: Option<usize>)
        where
            K: KeyEq,
        ensures
            r is Some <==> self.view().dom().contains(*k),
            r matches Some(i) ==> i < self.entries@.len() && self.entries@[i as int].0 == *k,
    {
        let mut i: usize = 0;
        while i < self.entries.len()
            invariant
                i <= self.entries@.len(),
                forall|j: int| 0 <= j < i ==> self.entries@[j].0 != *k,
            decreases self.entries@.len() - i,
        {
            if self.entries[i].0.key_eq(k) {
                return Some(i);
            }
            i += 1;
        }
        assert(!self.has(*k));
        None
    }

    /// Tells whether the map holds an entry for `k`.
    pub fn contains_key(&self, k: &K) -> (r: bool)
        where
            K: KeyEq,
        ensures
            r == self.view().dom().contains(*k),
    {
        self.position(k).is_some()
    }

    /// The value stored for `k`, if there is one.
    pub fn get(&self, k: &K) -> (r: Option<&V>)
        where
            K: KeyEq,
        requires
            self.wf(),
        ensures
            r is Some <==> self.view().dom().contains(*k),
            r matches Some(v) ==> *v == self.view()[*k],
    {
        match self.position(k) {
            Some(i) => {
                proof {
                    self.lemma_view_at(i as int);
                }
                Some(&self.entries[i].1)
            },
            None => None,
        }
    }

    /// Removes the entry for `k`, returning its value if there was one.
    pub fn remove(&mut self, k: &K) -> (r: Option<V>)
        where
            K: KeyEq,
        requires
            old(self).wf(),
        ensures
            final(self).wf(),
            r is Some <==> old(self).view().dom().contains(*k),
            r matches Some(v) ==> v == old(self).view()[*k],
            final(self).view() == old(self).view().remove(*k),
    {
        let ghost before = *self;
        match self.position(k) {
            Some(i) => {
                proof {
                    before.lemma_view_at(i as int);
                }
                let (_, v) = self.entries.swap_remove(i);
                proof {
                    before.lemma_swap_remove(i as int, *self);
                }
                Some(v)
            },
            None => {
                assert(before.view().remove(*k) =~= before.view());
                None
            },
        }
    }

    proof fn lemma_swap_remove(self, i: int, after: Self)
        requires
            self.distinct_keys(),
            0 <= i < self.entries@.len(),
            after.entries@ == self.entries@.update(i, self.entries@.last()).drop_last(),
        ensures
            after.distinct_keys(),
            after.view() == self.view().remove(self.entries@[i].0),
    {
        let n = self.entries@.len() - 1;
        let k = self.entries@[i].0;
        assert forall|a: int, b: int|
            0 <= a < after.entries@.len() && 0 <= b < after.entries@.len() && #[trigger] after.entries@[a].0
                == #[trigger] after.entries@[b].0 implies a == b by {
            let sa = if a == i { n } else { a };
            let sb = if b == i { n } else { b };
            assert(self.entries@[sa].0 == self.entries@[sb].0);
        }
        assert(after.view() =~= self.view().remove(k)) by {
            assert forall|x: K| #[trigger] after.view().dom().contains(x) <==> self.view().remove(k).dom().contains(x) by {
                if after.has(x) {
                    let a = after.index_of(x);
                    let sa = if a == i { n } else { a };
                    assert(self.entries@[sa].0 == x);
                    assert(sa != i);
                }
                if self.has(x) && x != k {
                    let s = self.index_of(x);
                    assert(s != i);
                    let a = if s == n { i } else { s };
                    assert(after.entries@[a].0 == x);
                }
            }
            assert forall|x: K| #[trigger] after.view().dom().contains(x) implies after.view()[x] == self.view().remove(k)[x] by {
                let a = after.index_of(x);
                let sa = if a == i { n } else { a };
                assert(self.entries@[sa].0 == x);
                self.lemma_view_at(sa);
            }
        }
    }

    /// Consumes the map, returning its entries in some order.
    pub fn into_entries(self) -> (r: Vec<(K, V)>)
        requires
            self.wf(),
        ensures
            entries_match(r@, self.view()),
    {
        proof {
            self.lemma_len();
            assert forall|i: int| 0 <= i < self.entries@.len() implies self.view().dom().contains(
                #[trigger] self.entries@[i].0,
            ) && self.view()[self.entries@[i].0] == self.entries@[i].1 by {
                self.lemma_view_at(i);
            }
            assert forall|k: K| #[trigger] self.view().dom().contains(k) implies exists|i: int|
                0 <= i < self.entries@.len() && self.entries@[i].0 == k by {
                let i = self.index_of(k);
                assert(self.entries@[i].0 == k);
            }
        }
        self.entries
    }
}

/// `entries` lists the entries of `m`, each once.
pub open spec fn entries_match<K, V>(entries: Seq<(K, V)>, m: Map<K, V>) -> bool {
    &&& m.dom().finite()
    &&& entries.len() == m.dom().len()
    &&& forall|i: int, j: int|
        0 <= i < entries.len() && 0 <= j < entries.len() && #[trigger] entries[i].0
            == #[trigger] entries[j].0 ==> i == j
    &&& forall|i: int|
        0 <= i < entries.len() ==> m.dom().contains(#[trigger] entries[i].0) && m[entries[i].0]
            == entries[i].1
    &&& forall|k: K|
        #[trigger] m.dom().contains(k) ==> exists|i: int| 0 <= i < entries.len() && entries[i].0 == k
}

} // verus!
