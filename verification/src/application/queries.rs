//! Queries: requests that read state without changing it.

use vstd::prelude::*;
use crate::domain::value_objects::{CacheKey, CacheTier};

verus! {

/// Gets a cache value.
#[derive(Debug, Clone)]
pub struct GetCacheQuery {
    pub key: CacheKey,
}

/// Checks whether a key exists.
#[derive(Debug, Clone)]
pub struct ExistsCacheQuery {
    pub key: CacheKey,
}

/// Gets the cache's statistics.
#[derive(Debug, Clone)]
pub struct GetStatsQuery {}

/// Lists keys.
#[derive(Debug, Clone)]
pub struct ListKeysQuery {
    pub tier: Option<CacheTier>,
    pub limit: Option<usize>,
}

/// Gets the cache's size.
#[derive(Debug, Clone)]
pub struct GetSizeQuery {}

/// Gets a singleflight request's status.
#[derive(Debug, Clone)]
pub struct GetSingleflightQuery {
    pub key: String,
}

} // verus!
