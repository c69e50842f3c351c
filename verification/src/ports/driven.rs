//! Driven ports: what the cache's adapters offer the application.
//!
//! Each port states its operations' effects through spec functions that an
//! adapter defines: the adapter says what a step may do, and the port's
//! callers reason over that.

use vstd::prelude::*;
use crate::domain::entities::{CacheEntry, SingleflightRequest};
use crate::domain::events::CacheEvent;
use crate::domain::value_objects::{CacheKey, CacheStats, CacheTier, CacheValue, StatsView, Ttl};

verus! {

/// The text of a value that a read found, if it found one.
pub open spec fn found_view(r: Option<CacheValue>) -> Option<Seq<char>> {
    match r {
        Some(v) => Some(v@),
        None => None,
    }
}

/// Reads from a cache (the query side).
pub trait CachePort: Sized {
    /// Whether the adapter can serve a read of `key`.
    spec fn read_ready(&self, key: Seq<char>) -> bool;

    /// Whether the adapter can look up an entry.
    spec fn entry_ready(&self) -> bool;

    /// Whether a read of `key` may take the adapter from `self` to `post`
    /// and find `found`.
    spec fn read_step(self, post: Self, key: Seq<char>, found: Option<Seq<char>>) -> bool;

    /// Whether a lookup of an entry for `key` may take the adapter from
    /// `self` to `post` and find a value of text `found`.
    spec fn entry_step(self, post: Self, key: Seq<char>, found: Option<Seq<char>>) -> bool;

    /// Gets a value from the cache.
    fn get(&mut self, key: &CacheKey) -> (r: Option<CacheValue>)
        requires
            old(self).read_ready(key@),
        ensures
            old(self).read_step(*final(self), key@, found_view(r)),
    ;

    /// Gets an entry, with its metadata, from the cache.
    fn get_entry(&mut self, key: &CacheKey) -> (r: Option<CacheEntry>)
        requires
            old(self).entry_ready(),
        ensures
            old(self).entry_step(
                *final(self),
                key@,
                match r {
                    Some(e) => Some(e.value@),
                    None => None,
                },
            ),
            r matches Some(e) ==> e.key@ == key@,
    ;
}

/// Writes to a cache (the command side).
pub trait CacheWritePort: Sized {
    /// Whether the adapter can take a write or a removal.
    spec fn write_ready(&self) -> bool;

    /// Whether the adapter can clear `tier` (every tier for `None`).
    spec fn clear_ready(&self, tier: Option<CacheTier>) -> bool;

    /// Whether a successful write of `value` under `key`, with TTL `ttl` or
    /// the adapter's default for `None`, may take the adapter from `self` to
    /// `post`.
    spec fn set_step(self, post: Self, key: Seq<char>, value: Seq<char>, ttl: Option<Ttl>) -> bool;

    /// Whether a write of `value` under `key`, with TTL `ttl` or the
    /// adapter's default for `None`, may fail with `error` and leave the
    /// adapter as `post`.
    spec fn set_fails(self, post: Self, key: Seq<char>, value: Seq<char>, ttl: Option<Ttl>, error: CacheError) -> bool;

    /// Whether a successful removal of `key` may take the adapter from
    /// `self` to `post`.
    spec fn remove_step(self, post: Self, key: Seq<char>) -> bool;

    /// Whether a removal of `key` may fail with `error` and leave the adapter
    /// as `post`.
    spec fn remove_fails(self, post: Self, key: Seq<char>, error: CacheError) -> bool;

    /// Whether a successful clear of `tier` that reports `count` removals
    /// may take the adapter from `self` to `post`.
    spec fn clear_step(self, post: Self, tier: Option<CacheTier>, count: nat) -> bool;

    /// Sets a value with the adapter's default TTL.
    fn set(&mut self, key: CacheKey, value: CacheValue) -> (r: Result<(), CacheError>)
        requires
            old(self).write_ready(),
        ensures
            r is Ok ==> old(self).set_step(*final(self), key@, value@, None),
            r matches Err(e) ==> old(self).set_fails(*final(self), key@, value@, None, e),
    ;

    /// Sets a value with TTL `ttl`.
    fn set_with_ttl(&mut self, key: CacheKey, value: CacheValue, ttl: Ttl) -> (r: Result<(), CacheError>)
        requires
            old(self).write_ready(),
        ensures
            r is Ok ==> old(self).set_step(*final(self), key@, value@, Some(ttl)),
            r matches Err(e) ==> old(self).set_fails(*final(self), key@, value@, Some(ttl), e),
    ;

    /// Removes a key.
    fn remove(&mut self, key: &CacheKey) -> (r: Result<(), CacheError>)
        requires
            old(self).write_ready(),
        ensures
            r is Ok ==> old(self).remove_step(*final(self), key@),
            r matches Err(e) ==> old(self).remove_fails(*final(self), key@, e),
    ;

    /// Clears every entry, or those of one tier, and says how many went.
    fn clear(&mut self, tier: Option<CacheTier>) -> (r: Result<usize, CacheError>)
        requires
            old(self).clear_ready(tier),
        ensures
            r matches Ok(n) ==> old(self).clear_step(*final(self), tier, n as nat),
    ;
}

/// Singleflight: one in-flight request per key.
pub trait SingleflightPort<T> {
    /// Gets or creates the request for `key`.
    fn get_or_create(&mut self, key: &str) -> &mut SingleflightRequest<T>;

    /// The request for `key`, to wait on.
    fn wait(&self, key: &str) -> Option<&SingleflightRequest<T>>;

    /// Removes a completed request.
    fn remove(&mut self, key: &str);
}

/// Statistics.
pub trait StatsPort: Sized {
    /// Whether the adapter's statistics can be read and counted.
    spec fn stats_ready(&self) -> bool;

    /// The statistics the adapter reports.
    spec fn stats_view(&self) -> StatsView;

    /// The current statistics.
    fn get_stats(&self) -> (r: CacheStats)
        requires
            self.stats_ready(),
            self.stats_view().size <= usize::MAX,
        ensures
            r@ == self.stats_view(),
    ;

    /// Counts a hit in `tier`.
    fn record_hit(&mut self, tier: CacheTier)
        requires
            old(self).stats_ready(),
            old(self).stats_view().can_hit(tier),
        ensures
            final(self).stats_ready(),
            final(self).stats_view() == old(self).stats_view().with_hit(tier),
    ;

    /// Counts a miss.
    fn record_miss(&mut self)
        requires
            old(self).stats_ready(),
            old(self).stats_view().can_miss(),
        ensures
            final(self).stats_ready(),
            final(self).stats_view() == old(self).stats_view().with_miss(),
    ;

    /// Counts an eviction.
    fn record_eviction(&mut self)
        requires
            old(self).stats_ready(),
            old(self).stats_view().can_evict(),
        ensures
            final(self).stats_ready(),
            final(self).stats_view() == old(self).stats_view().with_eviction(),
    ;

    /// Sets every counter back to zero.
    fn reset(&mut self)
        requires
            old(self).stats_ready(),
        ensures
            final(self).stats_ready(),
            final(self).stats_view() == StatsView::zeroed(old(self).stats_view().size),
    ;
}

/// Eviction.
pub trait EvictionPort {
    /// Evicts expired entries and says how many went.
    fn evict_expired(&mut self) -> usize;

    /// Evicts up to `count` least-recently-used entries and says how many went.
    fn evict_lru(&mut self, count: usize) -> usize;

    /// The current size.
    fn size(&self) -> usize;

    /// The size of one tier.
    fn tier_size(&self, tier: CacheTier) -> usize;
}

/// Publishing domain events.
pub trait EventPort: Sized {
    /// The events published so far.
    spec fn published(&self) -> Seq<CacheEvent>;

    /// Whether publishing `event` may be refused with the message `message`.
    spec fn refuses(&self, event: CacheEvent, message: Seq<char>) -> bool;

    /// Publishes `event`: on success it is the last event published, and on
    /// failure nothing is published.
    fn publish(&mut self, event: CacheEvent) -> (r: Result<(), String>)
        ensures
            r is Ok ==> final(self).published() == old(self).published().push(event),
            r is Err ==> final(self).published() == old(self).published(),
            r matches Err(m) ==> old(self).refuses(event, m@),
    ;
}

/// What can go wrong in a cache.
#[derive(Debug, Clone)]
pub enum CacheError {
    /// The key is not there.
    NotFound(String),
    /// The key is there already.
    AlreadyExists(String),
    /// No entry can be evicted to make room.
    CacheFull,
    /// A value could not be serialized.
    SerializationError(String),
    /// Storage failed.
    IoError(String),
    /// A TTL is not acceptable.
    InvalidTtl(String),
}

/// The message of an error.
pub open spec fn error_text(e: CacheError) -> Seq<char> {
    match e {
        CacheError::NotFound(k) => "Key not found: "@ + k@,
        CacheError::AlreadyExists(k) => "Key already exists: "@ + k@,
        CacheError::CacheFull => "Cache full: cannot evict to make room"@,
        CacheError::SerializationError(m) => "Serialization error: "@ + m@,
        CacheError::IoError(m) => "IO error: "@ + m@,
        CacheError::InvalidTtl(m) => "Invalid TTL: "@ + m@,
    }
}

impl CacheError {
    /// The error's message, such as `Key not found: user:1`.
    pub fn to_string(&self) -> (r: String)
        ensures
            r@ == error_text(*self),
    {
        match self {
            CacheError::NotFound(k) => String::from_str("Key not found: ").concat(k.as_str()),
            CacheError::AlreadyExists(k) => String::from_str("Key already exists: ").concat(k.as_str()),
            CacheError::CacheFull => String::from_str("Cache full: cannot evict to make room"),
            CacheError::SerializationError(m) => String::from_str("Serialization error: ").concat(m.as_str()),
            CacheError::IoError(m) => String::from_str("IO error: ").concat(m.as_str()),
            CacheError::InvalidTtl(m) => String::from_str("Invalid TTL: ").concat(m.as_str()),
        }
    }
}

} // verus!
