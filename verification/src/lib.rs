//! A multi-tier cache: a bounded least-recently-used tier for hot data in
//! front of a concurrent map for warm data, with expiry, hit statistics and
//! domain events.
//!
//! The crate is laid out in ports and adapters: the domain's terms, the
//! ports through which the application reaches the stores, the adapters
//! that implement them, and the application's use cases.

pub mod adapters;
pub mod application;
pub mod cache;
pub mod domain;
pub mod ports;

pub use application::commands::{
    ClearCacheCommand, CompleteSingleflightCommand, RemoveCacheCommand, SetCacheCommand,
    SetConfigCommand, StartSingleflightCommand,
};
pub use application::queries::{
    ExistsCacheQuery, GetCacheQuery, GetSingleflightQuery, GetSizeQuery, GetStatsQuery,
    ListKeysQuery,
};
pub use domain::entities::{CacheEntry, CrossProcessRequest, CrossProcessStatus, SingleflightRequest};
pub use domain::events::{CacheEvent, EvictionReason};
pub use domain::time::Timestamp;
pub use domain::value_objects::{CacheConfig, CacheKey, CacheStats, CacheTier, CacheValue, Ttl};
pub use ports::driven::CachePort;
pub use ports::driven::SingleflightPort;
