use std::time::Duration;
use thegent_cache::domain::entities::{CacheEntry, CrossProcessRequest, CrossProcessStatus, SingleflightRequest};
use thegent_cache::domain::time::Timestamp;
use thegent_cache::domain::value_objects::{CacheKey, CacheTier, CacheValue, Ttl};

const SEC: u128 = 1_000_000_000;
const MS: u128 = 1_000_000;

#[test]
fn test_cache_entry_creation() {
    let key = CacheKey::new("test_key");
    let value = CacheValue::new("test_value");
    let entry = CacheEntry::new(key, value);
    assert!(!entry.is_expired());
    assert_eq!(entry.tier, CacheTier::L1);
    assert_eq!(entry.hits, 0);
}

// The clock is not slept on: the entry is read 10 ms after it was made.
#[test]
fn test_cache_entry_expiration() {
    let key = CacheKey::new("test_key");
    let value = CacheValue::new("test_value");
    let ttl = Ttl::from_secs(0);
    let t0 = Timestamp::from_nanos(1_700_000_000 * SEC);
    let entry = CacheEntry::with_ttl_at(key, value, ttl, t0);
    assert!(entry.is_expired_at(Timestamp::from_nanos(t0.as_nanos() + 10 * MS)));
}

#[test]
fn test_cache_entry_hit_recording() {
    let key = CacheKey::new("test_key");
    let value = CacheValue::new("test_value");
    let mut entry = CacheEntry::new(key, value);
    entry.record_hit();
    entry.record_hit();
    assert_eq!(entry.hits, 2);
}

#[test]
fn test_singleflight_request() {
    let mut req: SingleflightRequest<String> = SingleflightRequest::new("test_key");
    assert_eq!(req.waiters, 1);
    req.add_waiter();
    assert_eq!(req.waiters, 2);
    assert!(!req.is_complete());
    req.set_result("value".to_string());
    assert!(req.is_complete());
    assert_eq!(req.result, Some("value".to_string()));
}

// The clock is not slept on: the request is checked 100 ms after it started.
#[test]
fn test_cross_process_request_timeout() {
    let t0 = Timestamp::from_nanos(1_700_000_000 * SEC);
    let req = CrossProcessRequest::new_at("req1", "test_key", 1234, t0);
    assert_eq!(req.status, CrossProcessStatus::InProgress);
    let later = Timestamp::from_nanos(t0.as_nanos() + 100 * MS);
    assert!(req.is_timed_out_at(Duration::from_millis(50), later));
    assert!(!req.is_timed_out_at(Duration::from_secs(1), later));
}

#[test]
fn entry_expiry_ages_and_remaining_time() {
    let t0 = Timestamp::from_nanos(1_000 * SEC);
    let e = CacheEntry::with_ttl_at(CacheKey::new("k"), CacheValue::new("v"), Ttl::from_secs(10), t0);
    assert_eq!(e.expires_at.as_nanos(), 1_010 * SEC);
    assert!(!e.is_expired_at(Timestamp::from_nanos(1_010 * SEC)));
    assert!(e.is_expired_at(Timestamp::from_nanos(1_010 * SEC + 1)));
    assert_eq!(e.age_at(Timestamp::from_nanos(1_004 * SEC)), Duration::from_secs(4));
    assert_eq!(e.age_at(Timestamp::from_nanos(900 * SEC)), Duration::ZERO);
    assert_eq!(e.remaining_ttl_at(Timestamp::from_nanos(1_004 * SEC)), Some(Duration::from_secs(6)));
    assert_eq!(e.remaining_ttl_at(Timestamp::from_nanos(1_010 * SEC)), None);
    assert!(e.remaining_ttl().is_none());
    let fresh = CacheEntry::new(CacheKey::new("k"), CacheValue::new("v"));
    assert!(fresh.remaining_ttl().is_some());
    assert!(fresh.age() < Duration::from_secs(60));
}

#[test]
fn entry_promote_and_ttl() {
    let mut e = CacheEntry::with_ttl(CacheKey::new("k"), CacheValue::new("v"), Ttl::from_secs(5));
    assert_eq!(e.ttl, Ttl::from_secs(5));
    e.promote(CacheTier::L2);
    assert_eq!(e.tier, CacheTier::L2);
    assert_eq!(e.key.as_str(), "k");
}

#[test]
fn singleflight_waiters_and_errors() {
    let mut req: SingleflightRequest<u32> = SingleflightRequest::new("k");
    req.remove_waiter();
    assert_eq!(req.waiters, 0);
    req.remove_waiter();
    assert_eq!(req.waiters, 0);
    req.set_error("boom");
    assert!(req.is_complete());
    assert_eq!(req.error.as_deref(), Some("boom"));
    assert_eq!(req.result, None);
    assert_eq!(req.key, "k");
}

#[test]
fn cross_process_request_not_in_progress_never_times_out() {
    let t0 = Timestamp::from_nanos(SEC);
    let mut req = CrossProcessRequest::new_at("r", "k", 7, t0);
    req.status = CrossProcessStatus::Completed;
    assert!(!req.is_timed_out_at(Duration::from_millis(1), Timestamp::from_nanos(100 * SEC)));
    let live = CrossProcessRequest::new("r", "k", 7);
    assert_eq!(live.owner_pid, 7);
    assert_eq!(live.waiters, 1);
    assert!(!live.is_timed_out(Duration::from_secs(60)));
}
