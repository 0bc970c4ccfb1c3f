//! Memory management: descriptions of recyclable allocations and the pools
//! that cache them.

mod allocation;
pub mod pool;

pub use allocation::{ArrayAllocation, Layout, ObjectAllocation};
