use thegent_cache::adapters::inmemory::TieredCache;
use thegent_cache::domain::events::CacheEvent;
use thegent_cache::domain::time::Timestamp;
use thegent_cache::domain::value_objects::{CacheKey, CacheTier, CacheValue, Ttl};
use thegent_cache::ports::driven::{CachePort, CacheWritePort, EventPort, StatsPort};

const SEC: u128 = 1_000_000_000;

fn at(secs: u128) -> Timestamp {
    Timestamp::from_nanos(1_700_000_000 * SEC + secs * SEC)
}

#[test]
fn test_basic_cache_operations() {
    let mut cache = TieredCache::default();
    cache.set("key1".into(), "value1".into()).unwrap();
    assert_eq!(cache.get(&"key1".into()), Some("value1".into()));
}

#[test]
fn test_cache_miss() {
    let mut cache = TieredCache::default();
    assert_eq!(cache.get(&"nonexistent".into()), None);
}

#[test]
fn test_cache_remove() {
    let mut cache = TieredCache::default();
    cache.set("key1".into(), "value1".into()).unwrap();
    cache.remove(&"key1".into()).unwrap();
    assert_eq!(cache.get(&"key1".into()), None);
}

#[test]
fn test_cache_clear() {
    let mut cache = TieredCache::default();
    cache.set("key1".into(), "value1".into()).unwrap();
    cache.set("key2".into(), "value2".into()).unwrap();
    // Entries are stored in both L1 and L2, so clear counts both
    let count = cache.clear(None).unwrap();
    assert_eq!(count, 4); // 2 entries * 2 tiers
    assert_eq!(cache.get(&"key1".into()), None);
}

#[test]
fn test_stats() {
    let mut cache = TieredCache::default();
    cache.set("key1".into(), "value1".into()).unwrap();
    cache.get(&"key1".into());
    cache.get(&"nonexistent".into());

    let stats = cache.get_stats();
    assert_eq!(stats.hits, 1);
    assert_eq!(stats.misses, 1);
}

#[test]
fn read_after_write_until_stale() {
    let mut cache = TieredCache::with_config(4, 100, Ttl::from_secs(10));
    cache.set_with_ttl_at(CacheKey::new("k"), CacheValue::new("v"), Ttl::from_secs(5), at(0)).unwrap();
    // fresh while its expiry (5 s) is after the read
    assert_eq!(cache.get_at(&CacheKey::new("k"), at(4)), Some(CacheValue::new("v")));
    assert_eq!(cache.get_at(&CacheKey::new("k"), at(5)), None);
    let stats = cache.get_stats();
    assert_eq!(stats.hits, 1);
    assert_eq!(stats.misses, 1);
    assert_eq!(stats.tier_hits, [1, 0, 0]);
}

#[test]
fn stale_l2_entry_is_dropped_on_read() {
    let mut cache = TieredCache::with_config(4, 100, Ttl::from_secs(10));
    cache.set_with_ttl_at(CacheKey::new("k"), CacheValue::new("v"), Ttl::from_secs(0), at(0)).unwrap();
    assert_eq!(cache.tier_size(CacheTier::L2), 1);
    assert_eq!(cache.get_at(&CacheKey::new("k"), at(20)), None);
    // the stale L1 slot stays; the stale L2 entry is gone
    assert_eq!(cache.tier_size(CacheTier::L1), 1);
    assert_eq!(cache.tier_size(CacheTier::L2), 0);
}

#[test]
fn evicted_entry_is_served_by_l2() {
    let mut cache = TieredCache::with_config(2, 100, Ttl::from_secs(60));
    cache.set_with_ttl_at(CacheKey::new("a"), CacheValue::new("1"), Ttl::from_secs(60), at(0)).unwrap();
    cache.set_with_ttl_at(CacheKey::new("b"), CacheValue::new("2"), Ttl::from_secs(60), at(0)).unwrap();
    cache.set_with_ttl_at(CacheKey::new("c"), CacheValue::new("3"), Ttl::from_secs(60), at(0)).unwrap();
    assert_eq!(cache.tier_size(CacheTier::L1), 2);
    assert_eq!(cache.tier_size(CacheTier::L2), 3);
    assert_eq!(cache.get_at(&CacheKey::new("a"), at(1)), Some(CacheValue::new("1")));
    assert_eq!(cache.get_at(&CacheKey::new("c"), at(1)), Some(CacheValue::new("3")));
    assert_eq!(cache.get_stats().tier_hits, [1, 1, 0]);
}

#[test]
fn reading_makes_an_entry_most_recent() {
    let mut cache = TieredCache::with_config(2, 100, Ttl::from_secs(60));
    cache.set_with_ttl_at(CacheKey::new("a"), CacheValue::new("1"), Ttl::from_secs(60), at(0)).unwrap();
    cache.set_with_ttl_at(CacheKey::new("b"), CacheValue::new("2"), Ttl::from_secs(60), at(0)).unwrap();
    cache.get_at(&CacheKey::new("a"), at(1));
    cache.set_with_ttl_at(CacheKey::new("c"), CacheValue::new("3"), Ttl::from_secs(60), at(1)).unwrap();
    // "b" was least recently used, so it left L1; "a" is still there
    cache.get_at(&CacheKey::new("a"), at(2));
    cache.get_at(&CacheKey::new("b"), at(2));
    assert_eq!(cache.get_stats().tier_hits, [2, 1, 0]);
}

#[test]
fn overwrite_replaces_value() {
    let mut cache = TieredCache::new();
    cache.set("k".into(), "old".into()).unwrap();
    cache.set("k".into(), "new".into()).unwrap();
    assert_eq!(cache.get(&"k".into()), Some("new".into()));
    assert_eq!(cache.tier_size(CacheTier::L1), 1);
    assert_eq!(cache.tier_size(CacheTier::L2), 1);
}

#[test]
fn clear_by_tier() {
    let mut cache = TieredCache::default();
    cache.set("a".into(), "1".into()).unwrap();
    cache.set("b".into(), "2".into()).unwrap();
    assert_eq!(cache.clear(Some(CacheTier::L3)).unwrap(), 0);
    assert_eq!(cache.clear(Some(CacheTier::L1)).unwrap(), 2);
    assert_eq!(cache.get(&"a".into()), Some("1".into()));
    assert_eq!(cache.get_stats().tier_hits, [0, 1, 0]);
    assert_eq!(cache.clear(Some(CacheTier::L2)).unwrap(), 2);
    assert_eq!(cache.get(&"a".into()), None);
}

#[test]
fn cleanup_removes_stale_entries_from_both_tiers() {
    let mut cache = TieredCache::with_config(10, 100, Ttl::from_secs(10));
    cache.set_with_ttl_at(CacheKey::new("old"), CacheValue::new("1"), Ttl::from_secs(1), at(0)).unwrap();
    cache.set_with_ttl_at(CacheKey::new("new"), CacheValue::new("2"), Ttl::from_secs(100), at(0)).unwrap();
    // "old" is stale from 1 s on: one slot in each tier goes
    assert_eq!(cache.cleanup_at(at(0)), 0);
    assert_eq!(cache.cleanup_at(at(1)), 2);
    assert_eq!(cache.get_stats().size, 2);
    assert_eq!(cache.get_at(&CacheKey::new("new"), at(11)), Some(CacheValue::new("2")));
    assert_eq!(cache.get_at(&CacheKey::new("old"), at(11)), None);
    assert_eq!(cache.cleanup_at(at(12)), 0);
    // by the real clock, long after 2023, "new" is stale too
    assert_eq!(cache.cleanup(), 2);
    assert_eq!(cache.get_stats().size, 0);
}

#[test]
fn get_entry_does_not_count() {
    let mut cache = TieredCache::default();
    cache.set("k".into(), "v".into()).unwrap();
    let e = cache.get_entry(&"k".into()).unwrap();
    assert_eq!(e.key.as_str(), "k");
    assert_eq!(e.value.as_str(), "v");
    assert_eq!(e.tier, CacheTier::L1);
    assert_eq!(e.ttl, Ttl::from_secs(3600));
    assert!(cache.get_entry(&"missing".into()).is_none());
    let stats = cache.get_stats();
    assert_eq!(stats.hits + stats.misses, 0);
}

#[test]
fn stats_port_counts_and_resets() {
    let mut cache = TieredCache::default();
    cache.set("k".into(), "v".into()).unwrap();
    cache.record_hit(CacheTier::L2);
    cache.record_miss();
    cache.record_eviction();
    let s = cache.get_stats();
    assert_eq!((s.hits, s.misses, s.evictions, s.size), (1, 1, 1, 2));
    assert_eq!(s.tier_hits, [0, 1, 0]);
    cache.reset();
    let s = cache.get_stats();
    assert_eq!((s.hits, s.misses, s.evictions, s.size), (0, 0, 0, 2));
}

#[test]
fn publish_keeps_events() {
    let mut cache = TieredCache::default();
    let e = CacheEvent::CacheMiss { key: "k".to_string(), timestamp: at(0) };
    assert!(cache.publish(e).is_ok());
}

#[test]
fn with_config_sets_capacity() {
    let mut cache = TieredCache::with_config(1, 1, Ttl::from_secs(60));
    cache.set("a".into(), "1".into()).unwrap();
    cache.set("b".into(), "2".into()).unwrap();
    assert_eq!(cache.tier_size(CacheTier::L1), 1);
    assert_eq!(cache.tier_size(CacheTier::L3), 0);
}

#[test]
fn zero_ttl_expires_at_once() {
    let mut cache = TieredCache::default();
    cache.set_with_ttl_at(CacheKey::new("k"), CacheValue::new("v"), Ttl::zero(), at(0)).unwrap();
    let ten_ms_later = Timestamp::from_nanos(at(0).as_nanos() + 10_000_000);
    assert_eq!(cache.get_at(&CacheKey::new("k"), ten_ms_later), None);
    let s = cache.get_stats();
    assert_eq!((s.hits, s.misses), (0, 1));
    assert_eq!(cache.cleanup_at(ten_ms_later), 1);
    let mut live = TieredCache::default();
    live.set_with_ttl(CacheKey::new("k"), CacheValue::new("v"), Ttl::zero()).unwrap();
    assert_eq!(live.get(&CacheKey::new("k")), None);
}
