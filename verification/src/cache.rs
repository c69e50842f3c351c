//! The two-tier cache, under a short path.

pub use crate::adapters::inmemory::TieredCache;
