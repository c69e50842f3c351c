use thegent_cache::domain::events::{CacheEvent, EvictionReason};
use thegent_cache::domain::time::Timestamp;
use thegent_cache::domain::value_objects::CacheTier;

#[test]
fn event_key_and_timestamp() {
    let t = Timestamp::from_nanos(42);
    let hit = CacheEvent::CacheHit { key: "k".to_string(), tier: CacheTier::L2, timestamp: t };
    assert_eq!(hit.key(), Some("k"));
    assert_eq!(hit.timestamp(), t);
    let cleared = CacheEvent::CacheCleared { tier: None, entries_removed: 3, timestamp: t };
    assert_eq!(cleared.key(), None);
    assert_eq!(cleared.timestamp().as_nanos(), 42);
    let failed = CacheEvent::SingleflightFailed { key: "s".to_string(), error: "e".to_string(), waiters: 2, timestamp: t };
    assert_eq!(failed.key(), Some("s"));
}

#[test]
fn eviction_reason_names() {
    assert_eq!(EvictionReason::Manual.as_str(), "manual");
    assert_eq!(EvictionReason::Expired.as_str(), "expired");
    assert_eq!(EvictionReason::Capacity.as_str(), "capacity");
    assert_eq!(EvictionReason::Replaced.as_str(), "replaced");
}

#[test]
fn clock_reads_after_the_epoch() {
    assert!(Timestamp::now().as_nanos() > 1_600_000_000_000_000_000);
}
