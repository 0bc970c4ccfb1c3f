//! Building blocks for memory recycling, compression settings and
//! deadlock-free acquisition of several locks.

mod keyed_list;
pub mod compress;
pub mod memory;
pub mod multilock;
pub mod vista;
