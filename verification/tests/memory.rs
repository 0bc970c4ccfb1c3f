use std::mem::size_of;
use substratum::memory::pool::cores::TaggedLease;
use substratum::memory::pool::{FakePool, Pool, PoolAcquire, PoolLease, PoolRelease};
use substratum::memory::{ArrayAllocation, Layout, ObjectAllocation};

#[test]
fn drop_deallocates_memory() {
    let layout = Layout::new::<u32>();
    let allocation = ObjectAllocation::new(0x1000, layout);

    assert_eq!(allocation.layout(), &layout);
}

#[test]
fn allocation_into_inner_prevents_drop() {
    let layout = Layout::new::<u64>();
    let addr: usize = 0x2000;
    let allocation = ObjectAllocation::new(addr, layout);

    let (inner_addr, inner_layout) = allocation.into_inner();
    assert_eq!(inner_addr, addr);
    assert_eq!(inner_layout, layout);
}

#[test]
fn new_and_drop_deallocates_memory() {
    let layout = Layout::array::<u32>(10).unwrap();
    let allocation = ArrayAllocation::new(0x3000, size_of::<u32>(), layout);

    assert_eq!(allocation.element_size(), size_of::<u32>());
    assert_eq!(allocation.layout(), &layout);
}

#[test]
fn array_allocation_into_inner_prevents_drop() {
    let layout = Layout::array::<u16>(20).unwrap();
    let addr: usize = 0x4000;
    let allocation = ArrayAllocation::new(addr, size_of::<u16>(), layout);

    let (inner_addr, inner_element_size, inner_layout) = allocation.into_inner();
    assert_eq!(inner_addr, addr);
    assert_eq!(inner_element_size, size_of::<u16>());
    assert_eq!(inner_layout, layout);
}

#[test]
fn from_vec_with_capacity() {
    let vec = Vec::<u32>::with_capacity(10);
    let expected_layout = Layout::array::<u32>(10).unwrap();
    let allocation = ArrayAllocation::from_vec(vec).unwrap();

    assert_eq!(allocation.element_size(), size_of::<u32>());
    assert_eq!(allocation.layout(), &expected_layout);
}

#[test]
fn from_vec_with_zero_capacity_is_none() {
    let vec = Vec::<u32>::with_capacity(0);
    assert!(ArrayAllocation::from_vec(vec).is_none());
}

#[test]
fn from_vec_with_zero_sized_type_is_none() {
    let vec = Vec::<()>::with_capacity(10);
    assert!(ArrayAllocation::from_vec(vec).is_none());
}

#[test]
fn into_vec_success() {
    let vec = Vec::<u32>::with_capacity(10);
    let allocation = ArrayAllocation::from_vec(vec).unwrap();

    let new_vec = allocation.into_vec::<(i32, i32)>().unwrap();
    assert_eq!(new_vec.len(), 0);
    assert_eq!(new_vec.capacity(), 5);
}

#[test]
fn into_vec_mismatched_alignment() {
    let vec = Vec::<u64>::with_capacity(5);
    let allocation = ArrayAllocation::from_vec(vec).unwrap();

    let result = allocation.into_vec::<u32>();
    assert_eq!(
        result.unwrap_err(),
        "Element type alignment does not match allocation alignment"
    );
}

#[test]
fn into_vec_incompatible_size() {
    let vec = Vec::<u8>::with_capacity(4);
    let allocation = ArrayAllocation::from_vec(vec).unwrap();

    let result = allocation.into_vec::<(u8, u8, u8)>();
    assert_eq!(
        result.unwrap_err(),
        "Allocation size is not a multiple of element size"
    );
}

#[test]
fn layout_from_size_align_checks_validity() {
    let l = Layout::from_size_align(24, 8).unwrap();
    assert_eq!(l.size(), 24);
    assert_eq!(l.align(), 8);
    assert!(Layout::from_size_align(8, 3).is_none());
    assert!(Layout::from_size_align(8, 0).is_none());
    assert!(Layout::from_size_align(usize::MAX, 1).is_none());
    assert!(Layout::array::<u64>(usize::MAX / 4).is_none());
    assert_eq!(Layout::array::<u16>(3).unwrap().size(), 6);
}

#[test]
fn test_string_pooling() {
    let fakepool = FakePool::new(true);

    // Acquire an empty string from the pool
    let mut string = fakepool.acquiring().acquire::<String>().take();
    assert!(string.is_empty());
    string.reserve_exact(16);
    string.push_str("Hello world!");

    // Release the string back into the pool
    fakepool.releasing().release(string);

    // Check that the string array is recycled
    let arrays = fakepool.try_into_array_allocations().ok().unwrap();
    assert_eq!(arrays.len(), 1);
    assert_eq!(arrays[0].layout().size(), 16);
}

#[test]
fn test_vec_pooling() {
    let fakepool = FakePool::new(true);

    // Acquire an empty vector from the pool
    let mut vector = fakepool.acquiring().acquire::<Vec<u8>>().take();
    assert!(vector.is_empty());
    vector.reserve_exact(32);
    vector.extend_from_slice(&[1, 2, 3, 4, 5, 6, 7, 8, 9, 10]);

    // Release the vec back into the pool
    fakepool.releasing().release(vector);

    // Check that the array is recycled
    let arrays = fakepool.try_into_array_allocations().ok().unwrap();
    assert_eq!(arrays.len(), 1);
    assert_eq!(arrays[0].layout().size(), 32);
}

#[test]
fn test_tagged_lease() {
    let mut lease = TaggedLease::new("tag", 42);
    assert_eq!(lease.tag(), &"tag");
    assert_eq!(*lease, 42);

    *lease = 345;
    assert_eq!(lease.into_parts(), ("tag", 345));
}

#[test]
fn test_tagged_lease_take() {
    let lease = TaggedLease::new("tag", 42);
    let obj = lease.take();
    assert_eq!(obj, 42);
}

#[test]
fn try_into_inner() {
    let pool = FakePool::new(true);

    // try_into_inner will succeed only if there are no clones
    let clone = pool.clone();
    assert!(clone.try_into_inner().is_err());

    let (objects, arrays) = pool.try_into_inner().ok().unwrap();
    assert!(objects.is_empty());
    assert!(arrays.is_empty());
}

#[test]
fn release() {
    let mut pool = FakePool::new(false);

    pool.releasing().release(Vec::<u8>::with_capacity(8));
    pool.save_allocations();
    pool.releasing().release(Vec::<u8>::with_capacity(16));
    pool.discard_allocations();
    pool.releasing().release(Vec::<u8>::with_capacity(32));

    let arrays = pool.try_into_array_allocations().ok().unwrap();
    assert_eq!(arrays.len(), 1);
    assert_eq!(arrays[0].element_size(), 1);
    assert_eq!(arrays[0].layout().size(), 16);
}

#[test]
fn acquire() {
    let pool = FakePool::new(false);

    let mut lease = pool.acquiring().acquire::<Vec<u8>>();
    lease.reserve_exact(16);
    pool.releasing().reclaim(lease);

    // Nothing is cached in the pool: trying to acquire always fails
    let lease = pool.acquiring().try_acquire::<Vec<u8>>();
    assert!(lease.is_none());

    let (objects, arrays) = pool.try_into_inner().ok().unwrap();
    assert!(objects.is_empty());
    assert!(arrays.is_empty());
}

#[test]
fn clear_removes_all_allocations() {
    let pool = FakePool::new(true);
    pool.releasing()
        .release(Vec::<u8>::with_capacity(8))
        .release(Vec::<u8>::with_capacity(16));

    pool.clear();

    let (objects, arrays) = pool.try_into_inner().ok().unwrap();
    assert!(objects.is_empty());
    assert!(arrays.is_empty());
}

#[test]
fn optimize_does_not_panic() {
    let pool = FakePool::new(true);
    pool.releasing().release(Vec::<u8>::with_capacity(8));
    pool.optimize();
}

#[test]
fn optimizing_keeps_the_saved_allocations() {
    let pool = FakePool::new(true);
    pool.releasing().release(Vec::<u8>::with_capacity(8));
    pool.releasing().release(Vec::<u16>::with_capacity(4));
    pool.optimize();
    let (objects, arrays) = pool.try_into_inner().ok().unwrap();
    assert!(objects.is_empty());
    assert_eq!(arrays.len(), 2);
    assert_eq!(arrays[0].layout().size(), 8);
    assert_eq!(arrays[1].element_size(), 2);
}

#[test]
fn released_vector_of_strings_gives_back_every_buffer() {
    let pool = FakePool::new(true);
    let mut outer: Vec<String> = Vec::with_capacity(4);
    let mut a = String::with_capacity(8);
    a.push_str("ab");
    let mut b = String::with_capacity(24);
    b.push_str("cd");
    outer.push(a);
    outer.push(b);
    pool.releasing().release(outer);
    let arrays = pool.try_into_array_allocations().ok().unwrap();
    let mut sizes: Vec<usize> = arrays.iter().map(|x| x.layout().size()).collect();
    sizes.sort();
    assert_eq!(sizes.len(), 3);
    assert!(sizes.contains(&8));
    assert!(sizes.contains(&24));
}

#[test]
fn from_capacity_describes_the_array() {
    let allocation = ArrayAllocation::from_capacity::<u32>(10).unwrap();
    assert_eq!(allocation.element_size(), 4);
    assert_eq!(allocation.layout(), &Layout::array::<u32>(10).unwrap());
    assert_eq!(allocation.layout().size(), 40);
}

#[test]
fn from_capacity_of_nothing_is_none() {
    assert!(ArrayAllocation::from_capacity::<u32>(0).is_none());
    assert!(ArrayAllocation::from_capacity::<()>(10).is_none());
    assert!(ArrayAllocation::from_capacity::<u64>(usize::MAX / 4).is_none());
}

#[test]
fn fake_pool_finds_nothing_cached() {
    let pool = FakePool::new(true);
    pool.releasing().release(Vec::<u8>::with_capacity(8));
    assert!(pool.acquiring().try_acquire::<Vec<u8>>().is_none());
    assert_eq!(pool.acquiring().acquire::<Vec<u8>>().take().capacity(), 0);
}

#[test]
fn only_objects_and_only_arrays_keep_mixed_lists() {
    let object = ObjectAllocation::new(0x10, Layout::new::<u64>());
    let array = ArrayAllocation::new(0x20, 4, Layout::array::<u32>(2).unwrap());
    let objects_only = FakePool::only_objects((vec![object], Vec::new())).unwrap();
    assert_eq!(objects_only.len(), 1);
    let mixed = FakePool::only_arrays((
        vec![ObjectAllocation::new(0x30, Layout::new::<u8>())],
        vec![array],
    ));
    let (objects, arrays) = mixed.unwrap_err();
    assert_eq!(objects.len(), 1);
    assert_eq!(arrays.len(), 1);
    assert!(FakePool::only_objects((objects, arrays)).is_err());
}

#[test]
fn released_vector_gives_back_its_elements_in_order_then_its_buffer() {
    let pool = FakePool::new(true);
    let mut outer: Vec<Vec<u8>> = Vec::with_capacity(4);
    outer.push(Vec::with_capacity(8));
    outer.push(Vec::with_capacity(24));
    pool.releasing().release(outer);
    let arrays = pool.try_into_array_allocations().ok().unwrap();
    assert_eq!(arrays.len(), 3);
    assert!(arrays[0].layout().size() >= 8 && arrays[0].element_size() == 1);
    assert!(arrays[1].layout().size() >= 24 && arrays[1].element_size() == 1);
    assert_eq!(arrays[2].element_size(), std::mem::size_of::<Vec<u8>>());
}
