//! Commands: requests that change state.

use vstd::prelude::*;
use crate::domain::value_objects::{CacheKey, CacheTier, CacheValue, Ttl};

verus! {

/// Sets a cache value.
#[derive(Debug, Clone)]
pub struct SetCacheCommand {
    pub key: CacheKey,
    pub value: CacheValue,
    pub ttl: Option<Ttl>,
}

/// Removes a cache entry.
#[derive(Debug, Clone)]
pub struct RemoveCacheCommand {
    pub key: CacheKey,
}

/// Clears the cache, or one tier of it.
#[derive(Debug, Clone)]
pub struct ClearCacheCommand {
    pub tier: Option<CacheTier>,
}

/// Changes the cache's configuration.
#[derive(Debug, Clone)]
pub struct SetConfigCommand {
    pub l1_max_size: Option<usize>,
    pub l2_max_size: Option<usize>,
    pub default_ttl: Option<Ttl>,
}

/// Starts a singleflight request.
#[derive(Debug, Clone)]
pub struct StartSingleflightCommand {
    pub key: String,
    pub requester_pid: u32,
}

/// Completes a singleflight request.
#[derive(Debug, Clone)]
pub struct CompleteSingleflightCommand<T> {
    pub key: String,
    pub result: Option<T>,
    pub error: Option<String>,
}

} // verus!
