use std::time::Duration;
use thegent_cache::domain::value_objects::{CacheConfig, CacheKey, CacheStats, CacheTier, CacheValue, Ttl};

#[test]
fn test_cache_key() {
    let key = CacheKey::new("test");
    assert_eq!(key.as_str(), "test");
    assert_eq!(key.len(), 4);
    assert!(!key.is_empty());
}

#[test]
fn test_cache_key_equality() {
    let key1 = CacheKey::new("test");
    let key2 = CacheKey::new("test");
    let key3 = CacheKey::new("other");
    assert_eq!(key1, key2);
    assert_ne!(key1, key3);
}

#[test]
fn test_ttl() {
    let ttl = Ttl::from_secs(60);
    assert_eq!(ttl.as_secs(), 60);
    assert!(!ttl.is_zero());
    assert!(!ttl.is_infinite());
}

#[test]
fn test_ttl_display() {
    assert_eq!(Ttl::zero().to_string(), "0s");
    assert_eq!(Ttl::from_secs(120).to_string(), "120s");
    assert_eq!(Ttl::infinite().to_string(), "infinite");
}

#[test]
fn test_cache_stats() {
    let mut stats = CacheStats::new();
    stats.record_hit(CacheTier::L1);
    stats.record_hit(CacheTier::L2);
    stats.record_miss();
    assert_eq!(stats.hits, 2);
    assert_eq!(stats.misses, 1);
    let hit_rate = stats.hits as f64 / (stats.hits + stats.misses) as f64;
    assert!((hit_rate - 0.666).abs() < 0.01);
}

#[test]
fn ttl_display_under_a_second_is_in_millis() {
    assert_eq!(Ttl::from_millis(250).to_string(), "250ms");
    assert_eq!(Ttl::from_millis(1500).to_string(), "1s");
    assert_eq!(Ttl::from_secs(3600).to_string(), "3600s");
}

#[test]
fn ttl_default_is_an_hour() {
    assert_eq!(Ttl::default().as_secs(), 3600);
    assert_eq!(Ttl::default(), Ttl::from_secs(3600));
}

#[test]
fn ttl_duration_round_trip() {
    let ttl = Ttl::from_millis(1234);
    let d = ttl.as_duration();
    assert_eq!(d, Duration::from_millis(1234));
    assert_eq!(Ttl::from_duration(d), ttl);
    assert_eq!(Ttl::infinite().as_duration(), Duration::MAX);
    assert!(Ttl::from_duration(Duration::MAX).is_infinite());
}

#[test]
fn ttl_from_nanos_refuses_more_than_a_duration_holds() {
    assert_eq!(Ttl::from_nanos(5).map(|t| t.as_nanos()), Some(5));
    assert!(Ttl::from_nanos(u128::MAX).is_none());
    assert_eq!(Ttl::from_secs(2).as_nanos(), 2_000_000_000);
}

#[test]
fn ttl_zero_and_infinite() {
    assert!(Ttl::zero().is_zero());
    assert!(Ttl::infinite().is_infinite());
    assert_eq!(Ttl::infinite().as_secs(), u64::MAX);
}

#[test]
fn cache_key_conversions_and_utf8_length() {
    let a: CacheKey = "héllo".into();
    let b: CacheKey = String::from("héllo").into();
    assert_eq!(a, b);
    assert_eq!(a.len(), 6);
    assert!(CacheKey::new("").is_empty());
    assert_eq!(a.to_owned_string(), "héllo");
}

#[test]
fn cache_value_basics() {
    let v = CacheValue::new("value");
    assert_eq!(v.as_str(), "value");
    assert_eq!(v.len(), 5);
    assert!(!v.is_empty());
    let w: CacheValue = "value".into();
    assert_eq!(v, w);
    assert_ne!(v, CacheValue::from_string("other".to_string()));
}

#[test]
fn cache_tier_names_and_default() {
    assert_eq!(CacheTier::L1.as_str(), "L1");
    assert_eq!(CacheTier::L2.as_str(), "L2");
    assert_eq!(CacheTier::L3.as_str(), "L3");
    assert_eq!(CacheTier::default(), CacheTier::L1);
}

#[test]
fn cache_stats_counts_per_tier() {
    let mut stats = CacheStats::default();
    stats.record_hit(CacheTier::L3);
    stats.record_hit(CacheTier::L3);
    stats.record_eviction();
    assert_eq!(stats.tier_hits, [0, 0, 2]);
    assert_eq!(stats.hits, 2);
    assert_eq!(stats.evictions, 1);
    let sized = stats.copy_with_size(7);
    assert_eq!(sized.size, 7);
    assert_eq!(sized.tier_hits, [0, 0, 2]);
}

#[test]
fn cache_config_defaults() {
    let c = CacheConfig::default();
    assert_eq!(c.l1_max_size, 1000);
    assert_eq!(c.l2_max_size, 10000);
    assert_eq!(c.default_ttl.as_secs(), 3600);
    assert_eq!(c.cleanup_interval, Duration::from_secs(60));
    let c = CacheConfig::new(5, 6, Ttl::from_secs(7)).with_cleanup_interval(Duration::from_millis(9));
    assert_eq!(c.l1_max_size, 5);
    assert_eq!(c.l2_max_size, 6);
    assert_eq!(c.default_ttl, Ttl::from_secs(7));
    assert_eq!(c.cleanup_interval, Duration::from_millis(9));
}
