use thegent_cache::application::cli::clear_tier_arg;
use thegent_cache::domain::value_objects::CacheTier;

#[test]
fn clear_tier_names() {
    assert_eq!(clear_tier_arg("L1"), Some(CacheTier::L1));
    assert_eq!(clear_tier_arg("l1"), Some(CacheTier::L1));
    assert_eq!(clear_tier_arg("L2"), Some(CacheTier::L2));
    assert_eq!(clear_tier_arg("l2"), Some(CacheTier::L2));
    assert_eq!(clear_tier_arg("L3"), None);
    assert_eq!(clear_tier_arg("all"), None);
    assert_eq!(clear_tier_arg(""), None);
}
