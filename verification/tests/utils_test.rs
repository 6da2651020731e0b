use rs_czsc::utils::cache::{czsc_home, fresh, home_path, DiskCache};
use rs_czsc::utils::{freqs_sorted, mac_address};

#[test]
fn mod_test_mac_address() {
    let mac = mac_address();
    assert_eq!(mac.len(), 17);
}

#[test]
fn mod_test_freqs_sorted() {
    let freqs = vec!["日线", "5分钟", "30分钟", "1分钟"];
    let sorted = freqs_sorted(freqs);
    assert_eq!(sorted, vec!["1分钟", "5分钟", "30分钟", "日线"]);
}

#[test]
fn utils_test_test_mac_address() {
    let mac = mac_address();
    assert_eq!(mac.len(), 17);
    assert!(mac.chars().all(|c| c.is_ascii_hexdigit() || c == '-'));
}

#[test]
fn utils_test_test_freqs_sorted() {
    let input = vec!["日线", "1分钟", "5分钟", "周线"];
    let sorted = freqs_sorted(input);
    let expected = vec!["1分钟", "5分钟", "日线", "周线"];
    assert_eq!(sorted, expected);
}

#[test]
fn mod_test_test_mac_address() {
    let mac = mac_address();
    assert_eq!(mac.len(), 17);
    assert!(mac.chars().all(|c| c.is_ascii_hexdigit() || c == '-'));
}

#[test]
fn mod_test_test_freqs_sorted() {
    let input = vec!["日线", "1分钟", "5分钟", "周线"];
    let sorted = freqs_sorted(input);
    let expected = vec!["1分钟", "5分钟", "日线", "周线"];
    assert_eq!(sorted, expected);
}

#[test]
fn unknown_periods_go_last_in_their_order() {
    let input = vec!["年线", "月线", "X", "15分钟", "60分钟", "年线", "1分钟"];
    let sorted = freqs_sorted(input);
    assert_eq!(sorted, vec!["1分钟", "15分钟", "60分钟", "月线", "年线", "X", "年线"]);
    assert!(freqs_sorted(vec![]).is_empty());
}

#[test]
fn cache_test_test_home_path() {
    let path = home_path();
    assert!(path.contains(".czsc"));
}

#[test]
fn cache_test_test_disk_cache() {
    let mut cache = DiskCache::new();
    let key = "test_key";
    let value = "Hello, Cache!";
    cache.set(key, value, "").unwrap();
    let retrieved: String = cache.get(key, "").unwrap();
    assert_eq!(retrieved, value);
    cache.remove(key, "");
}

#[test]
fn cache_test_test_cache_operations() {
    let mut cache = DiskCache::new();
    let key = "operation_test";
    assert!(!cache.is_found(key, "", 3600));
    cache.set(key, "test_value", "").unwrap();
    assert!(cache.is_found(key, "", 3600));
    let value: String = cache.get(key, "").unwrap();
    assert_eq!(value, "test_value");
    cache.remove(key, "");
    assert!(!cache.is_found(key, "", 3600));
}

#[test]
fn cache_entries_are_told_apart_by_suffix() {
    let mut cache = DiskCache::new();
    cache.set("k", "one", "pkl").unwrap();
    cache.set("k", "two", "json").unwrap();
    assert_eq!(cache.get("k", "pkl").unwrap(), "one");
    assert_eq!(cache.get("k", "json").unwrap(), "two");
    cache.set("k", "three", "pkl").unwrap();
    assert_eq!(cache.get("k", "pkl").unwrap(), "three");
    cache.remove("k", "pkl");
    assert!(cache.get("k", "pkl").is_none());
    assert!(cache.is_found("k", "json", 0));
    assert_eq!(cache.get_dir_size(&std::path::PathBuf::from("/tmp")), Ok(0));
}

#[test]
fn home_and_freshness_rules() {
    assert_eq!(czsc_home(Some("/home/u".to_string())), "/home/u/.czsc");
    assert_eq!(czsc_home(None), "./.czsc");
    assert!(fresh(100, 150, 60));
    assert!(!fresh(100, 161, 60));
    assert!(fresh(100, 10_000, 0));
    assert!(fresh(200, 100, 5));
}

#[test]
fn removing_twice_changes_nothing_more() {
    let mut cache = DiskCache::new();
    cache.set("a", "1", "").unwrap();
    cache.set("b", "2", "").unwrap();
    cache.remove("a", "");
    assert!(cache.get("a", "").is_none());
    assert_eq!(cache.get("b", "").unwrap(), "2");
    cache.remove("a", "");
    assert_eq!(cache.get("b", "").unwrap(), "2");
    assert!(!cache.is_found("a", "", 0));
}

#[test]
fn period_sorting_is_stable_and_idempotent() {
    let input = vec!["x", "日线", "1分钟", "y", "日线", "5分钟"];
    let sorted = freqs_sorted(input);
    assert_eq!(sorted, vec!["1分钟", "5分钟", "日线", "日线", "x", "y"]);
    assert_eq!(freqs_sorted(sorted.clone()), sorted);
    assert_eq!(freqs_sorted(vec!["b", "a"]), vec!["b", "a"]);
}
