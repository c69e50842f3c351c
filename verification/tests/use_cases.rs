use thegent_cache::adapters::inmemory::TieredCache;
use thegent_cache::application::use_cases::{GetCacheUseCase, GetStatsUseCase, RemoveCacheUseCase, SetCacheUseCase};
use thegent_cache::domain::value_objects::{CacheKey, CacheTier, CacheValue, Ttl};
use thegent_cache::ports::driven::{CacheError, CachePort, StatsPort};

#[test]
fn get_use_case_counts_hits_in_l1_and_misses() {
    let mut cache = TieredCache::default();
    let mut sink = TieredCache::default();
    {
        let mut set = SetCacheUseCase::new(&mut cache, &mut sink);
        set.execute(CacheKey::new("k"), CacheValue::new("v"), None).unwrap();
    }
    let mut stats = TieredCache::default();
    {
        let mut get = GetCacheUseCase::new(&mut cache, &mut stats);
        assert_eq!(get.execute(&CacheKey::new("k")), Some(CacheValue::new("v")));
        assert_eq!(get.execute(&CacheKey::new("x")), None);
    }
    let s = stats.get_stats();
    assert_eq!((s.hits, s.misses), (1, 1));
    assert_eq!(s.tier_hits, [1, 0, 0]);
    let c = cache.get_stats();
    assert_eq!((c.hits, c.misses), (1, 1));
}

#[test]
fn set_use_case_writes_with_ttl() {
    let mut cache = TieredCache::default();
    let mut sink = TieredCache::default();
    {
        let mut set = SetCacheUseCase::new(&mut cache, &mut sink);
        assert!(set.execute(CacheKey::new("k"), CacheValue::new("v"), Some(Ttl::from_secs(5))).is_ok());
    }
    assert_eq!(cache.get(&CacheKey::new("k")), Some(CacheValue::new("v")));
}

#[test]
fn remove_and_stats_use_cases() {
    let mut cache = TieredCache::default();
    cache.record_hit(CacheTier::L1);
    {
        let mut rm = RemoveCacheUseCase::new(&mut cache);
        assert!(rm.execute(&CacheKey::new("absent")).is_ok());
    }
    let stats = GetStatsUseCase::new(&cache);
    assert_eq!(stats.execute().hits, 1);
}

#[test]
fn error_messages() {
    assert_eq!(CacheError::NotFound("k".to_string()).to_string(), "Key not found: k");
    assert_eq!(CacheError::AlreadyExists("k".to_string()).to_string(), "Key already exists: k");
    assert_eq!(CacheError::CacheFull.to_string(), "Cache full: cannot evict to make room");
    assert_eq!(CacheError::SerializationError("bad".to_string()).to_string(), "Serialization error: bad");
    assert_eq!(CacheError::IoError("disk".to_string()).to_string(), "IO error: disk");
    assert_eq!(CacheError::InvalidTtl("-1".to_string()).to_string(), "Invalid TTL: -1");
}
