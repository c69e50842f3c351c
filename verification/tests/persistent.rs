use thegent_cache::adapters::persistent::{
    clears_storage, encode_record, is_cache_file_name, parse_record, PersistentCache,
};
use thegent_cache::domain::time::Timestamp;
use thegent_cache::domain::value_objects::{CacheKey, CacheTier, CacheValue};

#[test]
fn file_path_is_base_key_and_extension() {
    let cache = PersistentCache::new("/tmp/cache");
    assert_eq!(cache.file_path(&CacheKey::new("user:1")), "/tmp/cache/user:1.cache");
    assert_eq!(cache.base_path(), "/tmp/cache");
}

#[test]
fn record_round_trip() {
    let text = encode_record(&CacheKey::new("k"), &CacheValue::new("line1\nline2"));
    assert_eq!(text, "k\nline1\nline2");
    let (k, v) = parse_record(&text).unwrap();
    assert_eq!(k.as_str(), "k");
    assert_eq!(v.as_str(), "line1\nline2");
}

#[test]
fn record_key_with_newline_does_not_round_trip() {
    let text = encode_record(&CacheKey::new("a\nb"), &CacheValue::new("c"));
    let (k, v) = parse_record(&text).unwrap();
    assert_eq!(k.as_str(), "a");
    assert_eq!(v.as_str(), "b\nc");
}

#[test]
fn text_without_newline_is_no_record() {
    assert!(parse_record("just text").is_none());
    let (k, v) = parse_record("\n").unwrap();
    assert_eq!((k.as_str(), v.as_str()), ("", ""));
}

#[test]
fn cache_file_names() {
    assert!(is_cache_file_name("a.cache"));
    assert!(is_cache_file_name("x..cache"));
    assert!(!is_cache_file_name(".cache"));
    assert!(!is_cache_file_name("a.cache.bak"));
    assert!(!is_cache_file_name("a.cachex"));
}

#[test]
fn clear_touches_files_for_all_and_l3() {
    assert!(clears_storage(None));
    assert!(clears_storage(Some(CacheTier::L3)));
    assert!(!clears_storage(Some(CacheTier::L1)));
    assert!(!clears_storage(Some(CacheTier::L2)));
}

#[test]
fn load_counts_records() {
    let mut cache = PersistentCache::new("/tmp/cache");
    let contents = vec!["a\n1".to_string(), "garbage".to_string(), "b\n2".to_string(), "a\n3".to_string()];
    assert_eq!(cache.load_records(&contents, Timestamp::from_nanos(5)), 3);
    cache.note_set(&CacheKey::new("c"), &CacheValue::new("4"), Timestamp::from_nanos(6));
    cache.note_remove(&CacheKey::new("a"));
    cache.note_clear();
}

#[test]
fn cache_files_selected_for_clear() {
    let names = vec![
        "a.cache".to_string(),
        "notes.txt".to_string(),
        ".cache".to_string(),
        "b.cache".to_string(),
    ];
    let chosen = thegent_cache::adapters::persistent::cache_file_names(&names);
    assert_eq!(chosen, vec!["a.cache".to_string(), "b.cache".to_string()]);
    assert!(thegent_cache::adapters::persistent::cache_file_names(&Vec::new()).is_empty());
}

#[test]
fn clear_files_by_tier() {
    let names = vec!["a.cache".to_string(), "b.txt".to_string(), "c.cache".to_string()];
    let mut cache = PersistentCache::new("/tmp/cache");
    cache.note_set(&CacheKey::new("a"), &CacheValue::new("1"), Timestamp::from_nanos(1));
    assert!(cache.clear_files(&names, Some(CacheTier::L1)).is_empty());
    assert!(cache.clear_files(&names, Some(CacheTier::L2)).is_empty());
    let all = cache.clear_files(&names, None);
    assert_eq!(all, vec!["a.cache".to_string(), "c.cache".to_string()]);
    let l3 = cache.clear_files(&names, Some(CacheTier::L3));
    assert_eq!(l3.len(), 2);
}

#[test]
fn stored_value_reads_after_first_newline() {
    let text = encode_record(&CacheKey::new("k"), &CacheValue::new("v\nw"));
    assert_eq!(thegent_cache::adapters::persistent::stored_value(&text), Some(CacheValue::new("v\nw")));
    assert_eq!(thegent_cache::adapters::persistent::stored_value("no newline"), None);
}
