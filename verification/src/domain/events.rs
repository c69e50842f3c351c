//! Domain events: immutable facts about what happened to the cache.

use vstd::prelude::*;
use crate::domain::time::Timestamp;
use crate::domain::value_objects::CacheTier;

verus! {

/// Events of the cache's bounded context.
#[derive(Debug, Clone)]
pub enum CacheEvent {
    /// A read found its key.
    CacheHit { key: String, tier: CacheTier, timestamp: Timestamp },
    /// A read did not find its key.
    CacheMiss { key: String, timestamp: Timestamp },
    /// An entry was written.
    CacheEntryCreated { key: String, tier: CacheTier, ttl_secs: u64, timestamp: Timestamp },
    /// An entry was evicted.
    CacheEntryEvicted { key: String, tier: CacheTier, reason: EvictionReason, timestamp: Timestamp },
    /// An entry expired.
    CacheEntryExpired { key: String, tier: CacheTier, timestamp: Timestamp },
    /// The cache, or one tier of it, was cleared.
    CacheCleared { tier: Option<CacheTier>, entries_removed: usize, timestamp: Timestamp },
    /// A singleflight request started.
    SingleflightStarted { key: String, requester_pid: u32, timestamp: Timestamp },
    /// A singleflight request completed.
    SingleflightCompleted { key: String, result_waiters: u32, duration_ms: u64, timestamp: Timestamp },
    /// A singleflight request failed.
    SingleflightFailed { key: String, error: String, waiters: u32, timestamp: Timestamp },
}

/// When an event happened.
pub open spec fn event_time(e: CacheEvent) -> Timestamp {
    match e {
        CacheEvent::CacheHit { timestamp, .. } => timestamp,
        CacheEvent::CacheMiss { timestamp, .. } => timestamp,
        CacheEvent::CacheEntryCreated { timestamp, .. } => timestamp,
        CacheEvent::CacheEntryEvicted { timestamp, .. } => timestamp,
        CacheEvent::CacheEntryExpired { timestamp, .. } => timestamp,
        CacheEvent::CacheCleared { timestamp, .. } => timestamp,
        CacheEvent::SingleflightStarted { timestamp, .. } => timestamp,
        CacheEvent::SingleflightCompleted { timestamp, .. } => timestamp,
        CacheEvent::SingleflightFailed { timestamp, .. } => timestamp,
    }
}

/// The key an event is about: every event but `CacheCleared` has one.
pub open spec fn event_key(e: CacheEvent) -> Option<Seq<char>> {
    match e {
        CacheEvent::CacheHit { key, .. } => Some(key@),
        CacheEvent::CacheMiss { key, .. } => Some(key@),
        CacheEvent::CacheEntryCreated { key, .. } => Some(key@),
        CacheEvent::CacheEntryEvicted { key, .. } => Some(key@),
        CacheEvent::CacheEntryExpired { key, .. } => Some(key@),
        CacheEvent::SingleflightStarted { key, .. } => Some(key@),
        CacheEvent::SingleflightCompleted { key, .. } => Some(key@),
        CacheEvent::SingleflightFailed { key, .. } => Some(key@),
        CacheEvent::CacheCleared { .. } => None,
    }
}

impl CacheEvent {
    /// When the event happened.
    pub fn timestamp(&self) -> (r: Timestamp)
        ensures
            r == event_time(*self),
    {
        match self {
            CacheEvent::CacheHit { timestamp, .. } => *timestamp,
            CacheEvent::CacheMiss { timestamp, .. } => *timestamp,
            CacheEvent::CacheEntryCreated { timestamp, .. } => *timestamp,
            CacheEvent::CacheEntryEvicted { timestamp, .. } => *timestamp,
            CacheEvent::CacheEntryExpired { timestamp, .. } => *timestamp,
            CacheEvent::CacheCleared { timestamp, .. } => *timestamp,
            CacheEvent::SingleflightStarted { timestamp, .. } => *timestamp,
            CacheEvent::SingleflightCompleted { timestamp, .. } => *timestamp,
            CacheEvent::SingleflightFailed { timestamp, .. } => *timestamp,
        }
    }

    /// The key the event is about, if it is about one.
    pub fn key(&self) -> (r: Option<&str>)
        ensures
            r is Some <==> event_key(*self) is Some,
            r matches Some(k) ==> k@ == event_key(*self)->0,
    {
        match self {
            CacheEvent::CacheHit { key, .. } => Some(key.as_str()),
            CacheEvent::CacheMiss { key, .. } => Some(key.as_str()),
            CacheEvent::CacheEntryCreated { key, .. } => Some(key.as_str()),
            CacheEvent::CacheEntryEvicted { key, .. } => Some(key.as_str()),
            CacheEvent::CacheEntryExpired { key, .. } => Some(key.as_str()),
            CacheEvent::SingleflightStarted { key, .. } => Some(key.as_str()),
            CacheEvent::SingleflightCompleted { key, .. } => Some(key.as_str()),
            CacheEvent::SingleflightFailed { key, .. } => Some(key.as_str()),
            CacheEvent::CacheCleared { .. } => None,
        }
    }
}

/// Why an entry was evicted.
#[derive(Debug, Clone, Copy, PartialEq, Eq, Structural)]
pub enum EvictionReason {
    /// The entry was removed by hand.
    Manual,
    /// The entry expired.
    Expired,
    /// The least-recently-used entry made room (capacity reached).
    Capacity,
    /// The entry was replaced.
    Replaced,
}

/// The name a reason is shown by.
pub open spec fn reason_text(r: EvictionReason) -> Seq<char> {
    match r {
        EvictionReason::Manual => seq!['m', 'a', 'n', 'u', 'a', 'l'],
        EvictionReason::Expired => seq!['e', 'x', 'p', 'i', 'r', 'e', 'd'],
        EvictionReason::Capacity => seq!['c', 'a', 'p', 'a', 'c', 'i', 't', 'y'],
        EvictionReason::Replaced => seq!['r', 'e', 'p', 'l', 'a', 'c', 'e', 'd'],
    }
}

impl EvictionReason {
    /// The reason's name: `manual`, `expired`, `capacity` or `replaced`.
    pub fn as_str(&self) -> (r: &'static str)
        ensures
            r@ == reason_text(*self),
    {
        match self {
            EvictionReason::Manual => {
                proof { reveal_strlit("manual"); }
                "manual"
            },
            EvictionReason::Expired => {
                proof { reveal_strlit("expired"); }
                "expired"
            },
            EvictionReason::Capacity => {
                proof { reveal_strlit("capacity"); }
                "capacity"
            },
            EvictionReason::Replaced => {
                proof { reveal_strlit("replaced"); }
                "replaced"
            },
        }
    }
}

} // verus!
