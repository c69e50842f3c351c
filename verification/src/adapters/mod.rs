//! Adapters: the stores behind the ports.

pub mod hot_tier;
pub mod inmemory;
pub mod persistent;
pub mod tiered_laws;
pub mod warm_tier;
