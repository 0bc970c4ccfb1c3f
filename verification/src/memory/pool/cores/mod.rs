//! The caching cores that pools are built from.

mod affinity_array_cache;
mod flat_object_cache;
mod tagged_lease;

pub use affinity_array_cache::{
    after_steals, lemma_array_take_after_put, lemma_eviction_at_threshold,
    lemma_spilled_allocation_is_shared, AffinityArrayCache,
    AffinityCacheModel, ArrayCacheModel, StealOutcome, StealingCacheModel,
};
pub use flat_object_cache::{
    after_put, after_take, cached_for, lemma_optimize_keeps_allocations, lemma_object_take_after_put,
    lemma_take_keeps_other_layouts, lists_entries, stored_under_own_layout, taken_from,
    without_empty, FlatObjectCache,
};
pub use tagged_lease::TaggedLease;
