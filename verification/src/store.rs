//! Storage of downloaded stream data and the bookkeeping around it.
pub mod capacity;
pub mod limited_mem;
pub mod mem;
pub mod migrate;
pub mod range_watch;
pub mod unlimited_mem;
pub mod disk;
