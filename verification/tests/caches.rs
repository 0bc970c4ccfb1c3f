use std::any::TypeId;
use substratum::memory::pool::cores::{AffinityArrayCache, FlatObjectCache};
use substratum::memory::{ArrayAllocation, Layout, ObjectAllocation};

fn array_of_u32(capacity: usize) -> ArrayAllocation {
    ArrayAllocation::from_vec(Vec::<u32>::with_capacity(capacity)).unwrap()
}

#[test]
fn flat_cache_hands_back_the_latest_allocation_of_a_layout() {
    let small = Layout::new::<u32>();
    let large = Layout::new::<u64>();
    let mut cache = FlatObjectCache::new();
    cache.put(ObjectAllocation::new(1, small));
    cache.put(ObjectAllocation::new(2, small));
    cache.put(ObjectAllocation::new(3, large));

    assert_eq!(cache.take(&small).unwrap().into_inner(), (2, small));
    assert_eq!(cache.take(&large).unwrap().into_inner(), (3, large));
    assert_eq!(cache.take(&small).unwrap().into_inner(), (1, small));
    assert!(cache.take(&small).is_none());
    assert!(cache.take(&Layout::new::<u8>()).is_none());
}

#[test]
fn optimizing_a_flat_cache_keeps_its_allocations() {
    let small = Layout::new::<u16>();
    let large = Layout::new::<u128>();
    let mut cache = FlatObjectCache::default();
    cache.put(ObjectAllocation::new(10, small));
    cache.put(ObjectAllocation::new(20, large));
    assert!(cache.take(&small).is_some());
    cache.optimize();
    let entries = cache.into_inner();
    assert_eq!(entries.len(), 1);
    assert_eq!(entries[0].0, large);
    assert_eq!(entries[0].1.len(), 1);
}

#[test]
fn clearing_a_flat_cache_drops_everything() {
    let layout = Layout::new::<u32>();
    let mut cache = FlatObjectCache::new();
    cache.put(ObjectAllocation::new(1, layout));
    cache.clear();
    assert!(cache.take(&layout).is_none());
    assert!(cache.into_inner().is_empty());
}

#[test]
fn an_owner_takes_back_what_it_put() {
    let owner = TypeId::of::<u8>();
    let mut cache = AffinityArrayCache::new();
    cache.put(&owner, 4, 4, array_of_u32(4));
    let back = cache.take(&owner, 4, 4).unwrap();
    assert_eq!(back.layout().size(), 16);
    assert!(cache.take(&owner, 4, 4).is_none());
    assert!(cache.take(&owner, 8, 8).is_none());
}

#[test]
fn spilled_allocations_are_shared_and_others_steal() {
    let first = TypeId::of::<u8>();
    let second = TypeId::of::<u16>();
    let mut cache = AffinityArrayCache::default();
    cache.put(&first, 4, 4, array_of_u32(1));
    cache.configure_affine_cache(&first, 4, 4, 1, 8);
    // The affinity cache of `first` is full: this one goes to the shared cache.
    cache.put(&first, 4, 4, array_of_u32(2));

    let shared = cache.take(&second, 4, 4).unwrap();
    assert_eq!(shared.layout().size(), 8);
    // The shared cache is empty now: `second` steals from `first`.
    let stolen = cache.take(&second, 4, 4).unwrap();
    assert_eq!(stolen.layout().size(), 4);
    assert!(cache.take(&first, 4, 4).is_none());
}

#[test]
fn a_full_shared_cache_drops_allocations() {
    let owner = TypeId::of::<u8>();
    let other = TypeId::of::<u16>();
    let mut cache = AffinityArrayCache::new();
    cache.put(&owner, 4, 4, array_of_u32(1));
    cache.configure_affine_cache(&owner, 4, 4, 1, 8);
    cache.put(&owner, 4, 4, array_of_u32(2));
    cache.configure_global_cache(4, 4, 1);
    cache.put(&owner, 4, 4, array_of_u32(3));
    assert_eq!(cache.take(&other, 4, 4).unwrap().layout().size(), 8);
    assert_eq!(cache.take(&other, 4, 4).unwrap().layout().size(), 4);
    assert!(cache.take(&other, 4, 4).is_none());
}

#[test]
fn stale_affinity_caches_are_evicted() {
    let owner = TypeId::of::<u8>();
    let other = TypeId::of::<u16>();
    let mut cache = AffinityArrayCache::new();
    cache.put(&owner, 4, 4, array_of_u32(1));
    cache.configure_affine_cache(&owner, 4, 4, 0, 1);
    cache.put(&owner, 4, 4, array_of_u32(2));
    assert!(cache.take(&owner, 4, 4).is_some());
    assert!(cache.take(&other, 4, 4).is_some());
    // Nothing is left: the failed steal marks the owner's cache for eviction.
    assert!(cache.take(&other, 4, 4).is_none());
    cache.prune_stale();
    assert!(cache.take(&other, 4, 4).is_none());
    cache.put(&owner, 4, 4, array_of_u32(5));
    assert_eq!(cache.take(&owner, 4, 4).unwrap().layout().size(), 20);
    cache.clear();
    assert!(cache.take(&owner, 4, 4).is_none());
}

#[test]
fn an_affinity_cache_is_evicted_once_its_failures_reach_the_threshold() {
    let owner = TypeId::of::<u8>();
    let other = TypeId::of::<u16>();
    let mut cache = AffinityArrayCache::new();
    cache.put(&owner, 4, 4, array_of_u32(1));
    cache.configure_affine_cache(&owner, 4, 4, 1, 2);
    cache.put(&owner, 4, 4, array_of_u32(2));
    assert_eq!(cache.take(&owner, 4, 4).unwrap().layout().size(), 4);
    assert_eq!(cache.take(&other, 4, 4).unwrap().layout().size(), 8);
    // The first failed steal stays below the threshold of two.
    assert!(cache.take(&other, 4, 4).is_none());
    cache.prune_stale();
    cache.put(&owner, 4, 4, array_of_u32(3));
    cache.put(&owner, 4, 4, array_of_u32(4));
    // Still the small cache of one allocation: the second one is shared.
    assert_eq!(cache.take(&other, 4, 4).unwrap().layout().size(), 16);
    assert_eq!(cache.take(&owner, 4, 4).unwrap().layout().size(), 12);
    // Two failed steals in a row reach the threshold.
    assert!(cache.take(&other, 4, 4).is_none());
    assert!(cache.take(&other, 4, 4).is_none());
    cache.prune_stale();
    // The owner starts over with a fresh cache, which keeps both.
    cache.put(&owner, 4, 4, array_of_u32(5));
    cache.put(&owner, 4, 4, array_of_u32(6));
    assert!(cache.take(&other, 4, 4).is_none());
    assert_eq!(cache.take(&owner, 4, 4).unwrap().layout().size(), 24);
}
