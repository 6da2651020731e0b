use rs_czsc::store::TextStore;
use chrono::{TimeZone, Utc};
use rs_czsc::traders::rwc::{clear_strategy, get_strategy_weights, has_prefix, has_suffix, RedisWeightsClient};
use rs_czsc::StringHashMap;

fn client() -> RedisWeightsClient {
    RedisWeightsClient::new("test_strategy".to_string(), None, None, Some(false), StringHashMap::new())
}

#[test]
fn test_redis_weights_client_creation() {
    let client = client();
    assert_eq!(client.strategy_name, "test_strategy");
    assert_eq!(client.key_prefix, "Weights");
}

#[test]
fn settings_come_from_kwargs() {
    let mut kwargs = StringHashMap::new();
    kwargs.insert("key_prefix".to_string(), "W2".to_string());
    let c = RedisWeightsClient::new("s".to_string(), None, None, None, kwargs);
    assert_eq!(c.key_prefix, "W2");
    assert_eq!(c.heartbeat_prefix, "heartbeat");
    assert!(c.send_heartbeat);
    assert_eq!(c.heartbeat_key(), "W2:heartbeat:s");
}

#[test]
fn clearing_removes_only_the_strategy() {
    let mut c = client();
    let s = &mut c.redis_connection;
    s.insert("Weights:test_strategy:AAA:LAST:weight".to_string(), "1".to_string());
    s.insert("Weights:test_strategy:BBB:20240101:weight".to_string(), "1".to_string());
    s.insert("Weights:META:test_strategy:author".to_string(), "me".to_string());
    s.insert("Weights:META:test_strategy".to_string(), "x".to_string());
    s.insert("Weights:StrategyNames".to_string(), "test_strategy".to_string());
    s.insert("Weights:other:AAA:LAST".to_string(), "keep".to_string());
    c.beat("2024-01-01 00:00:00".to_string());
    assert_eq!(c.redis_connection.get("Weights:heartbeat:test_strategy"), Some("2024-01-01 00:00:00".to_string()));
    c.clear_all(Some(false));
    let keys = c.redis_connection.keys();
    assert_eq!(keys, vec!["Weights:META:test_strategy:author".to_string(), "Weights:other:AAA:LAST".to_string()]);
}

#[test]
fn symbols_and_metadata_are_read_from_keys() {
    let mut c = client();
    c.redis_connection.insert("Weights:test_strategy:AAA:LAST".to_string(), "".to_string());
    c.redis_connection.insert("Weights:test_strategy:BBB:LAST".to_string(), "".to_string());
    c.redis_connection.insert("Weights:test_strategy:AAA:LAST".to_string(), "again".to_string());
    c.redis_connection.insert("Weights:test_strategy:CCC:20240101".to_string(), "".to_string());
    c.redis_connection.insert("Weights:META:test_strategy:author".to_string(), "test author".to_string());
    c.redis_connection.insert("Weights:META:test_strategy:base_freq".to_string(), "日线".to_string());
    let mut symbols = c.get_symbols();
    symbols.sort();
    assert_eq!(symbols, vec!["AAA".to_string(), "BBB".to_string()]);
    let meta = c.get_metadata();
    assert_eq!(meta.get("author").unwrap(), "test author");
    assert_eq!(meta.get("base_freq").unwrap(), "日线");
    assert_eq!(meta.len(), 2);
}

#[test]
fn clear_strategy_runs_on_a_fresh_client() {
    clear_strategy("s", None, None, Some("P"), StringHashMap::new());
}

#[test]
fn text_store_and_affixes() {
    let mut s = TextStore::new();
    s.insert("a".to_string(), "1".to_string());
    s.insert("b".to_string(), "2".to_string());
    s.insert("a".to_string(), "3".to_string());
    assert_eq!(s.get("a"), Some("3".to_string()));
    assert_eq!(s.keys().len(), 2);
    s.remove("a");
    assert_eq!(s.get("a"), None);
    assert!(has_prefix("abc", "ab"));
    assert!(!has_prefix("a", "ab"));
    assert!(has_suffix("x:LAST", ":LAST"));
    assert!(!has_suffix("LAST", ":LAST"));
}

fn settings(pairs: &[(&str, &str)]) -> TextStore {
    let mut t = TextStore::new();
    for (k, v) in pairs {
        t.insert(k.to_string(), v.to_string());
    }
    t
}

#[test]
fn test_set_metadata() {
    let kwargs = StringHashMap::new();
    let mut client = RedisWeightsClient::new("test_strategy".to_string(), None, None, Some(false), kwargs);
    client.set_metadata("daily", "test description", "test author", "20230101", TextStore::new());
    let metadata = client.get_metadata();
    assert_eq!(metadata.get("author").unwrap(), "test author");
}

#[test]
fn test_publish_weight() {
    let mut client = client();
    let dt = Utc::now();
    let result = client.publish("TEST", (dt.timestamp(), dt.timestamp_subsec_nanos()), &1.0f64.to_string(), Some(&100.0f64.to_string()), None, None);
    assert_eq!(result, 1);
}

#[test]
fn stored_metadata_is_kept_without_overwrite() {
    let mut c = RedisWeightsClient::new("s".to_string(), None, None, Some(false), StringHashMap::new());
    c.set_metadata("daily", "d1", "a1", "20230101", TextStore::new());
    assert_eq!(c.get_metadata().get("author").unwrap(), "a1");
    c.set_metadata("weekly", "d2", "a2", "20240101", settings(&[("overwrite", "false")]));
    let m = c.get_metadata();
    assert_eq!(m.get("author").unwrap(), "a1");
    assert_eq!(m.get("base_freq").unwrap(), "daily");
    c.redis_connection.insert("Weights:META:s:extra".to_string(), "old".to_string());
    c.set_metadata("weekly", "d2", "a2", "20240101", settings(&[("overwrite", "true")]));
    let m = c.get_metadata();
    assert_eq!(m.get("author").unwrap(), "a2");
    assert_eq!(m.get("extra"), None);
}

#[test]
fn metadata_fields_and_overwrite() {
    let mut c = client();
    c.set_metadata("daily", "d", "a", "20230101", settings(&[("x", "1")]));
    let s = &c.redis_connection;
    assert_eq!(s.get("Weights:META:test_strategy:outsample_sdt"), Some("20230101".to_string()));
    assert_eq!(s.get("Weights:META:test_strategy:kwargs"), Some(r#"{"x":"1"}"#.to_string()));
    assert_eq!(s.get("Weights:META:test_strategy:key_prefix"), Some("Weights".to_string()));
    assert_eq!(s.get("Weights:StrategyNames"), Some("test_strategy".to_string()));
    c.set_metadata("daily", "d", "a", "not a date", settings(&[("overwrite", "true")]));
    assert_eq!(c.redis_connection.get("Weights:META:test_strategy:outsample_sdt"), Some("not a date".to_string()));
    c.redis_connection.insert("Weights:META:test_strategy".to_string(), "x".to_string());
    c.set_metadata("weekly", "d", "a", "20230101", TextStore::new());
    assert_eq!(c.redis_connection.get("Weights:META:test_strategy:base_freq"), Some("daily".to_string()));
    c.set_metadata("weekly", "d", "a", "20230101", settings(&[("overwrite", "true")]));
    assert_eq!(c.redis_connection.get("Weights:META:test_strategy:base_freq"), Some("weekly".to_string()));
    assert_eq!(c.redis_connection.get("Weights:META:test_strategy"), None);
}

#[test]
fn last_update_is_recorded() {
    let mut c = client();
    c.update_last(TextStore::new());
    assert_eq!(c.redis_connection.get("Weights:LAST:test_strategy:name"), Some("test_strategy".to_string()));
    assert_eq!(c.redis_connection.get("Weights:LAST:test_strategy:kwargs"), Some("{}".to_string()));
    assert_eq!(c.redis_connection.get("Weights:LAST:test_strategy:time").unwrap().len(), 19);
}

#[test]
fn heartbeat_times_read_with_or_without_an_offset() {
    let mut c = client();
    assert_eq!(c.get_heartbeat_time(), None);
    let t = Utc.with_ymd_and_hms(2023, 1, 1, 0, 0, 0).unwrap().timestamp();
    c.beat("2023-01-01 00:00:00".to_string());
    assert_eq!(c.get_heartbeat_time(), Some((t, 0)));
    c.beat("not a time".to_string());
    assert_eq!(c.get_heartbeat_time(), None);
    c.beat("2023-01-01 08:00:00.5+0800".to_string());
    assert_eq!(c.get_heartbeat_time(), Some((t, 500_000_000)));
}

#[test]
fn published_weights_are_stored_and_listed() {
    let mut c = client();
    let t = Utc.with_ymd_and_hms(2023, 1, 2, 9, 30, 0).unwrap().timestamp();
    assert_eq!(c.publish("AAA", (t, 0), "0.5", None, Some(settings(&[("k", "v")])), None), 1);
    assert_eq!(c.publish("BBB", (t - 60, 0), "1", Some("10"), None, Some(true)), 1);
    let s = &c.redis_connection;
    assert_eq!(s.get("Weights:test_strategy:AAA:20230102093000:weight"), Some("0.5".to_string()));
    assert_eq!(s.get("Weights:test_strategy:AAA:LAST:dt"), Some("2023-01-02 09:30:00".to_string()));
    assert_eq!(s.get("Weights:test_strategy:AAA:LAST:price"), Some("0".to_string()));
    assert_eq!(s.get("Weights:test_strategy:AAA:LAST:ref"), Some(r#"{"k":"v"}"#.to_string()));
    assert_eq!(s.get("Weights:test_strategy:AAA:score:20230102093000"), Some("20230102093000".to_string()));
    assert_eq!(s.get("Weights:test_strategy:BBB:LAST:ref"), Some("{}".to_string()));
    // no symbol is listed (see below), so no time is asked for
    assert_eq!(c.get_last_times(None).len(), 0);
    let times = c.get_last_times(Some(vec!["AAA".to_string()]));
    assert_eq!(times.get("AAA"), Some(&(t, 0)));
    // the stored keys end in a field name, not in `:LAST`, so no symbol is listed
    assert!(c.get_symbols().is_empty());
    assert!(c.last_weight_rows(None).is_empty());
    let rows = c.last_weight_rows(Some(vec!["AAA".to_string(), "BBB".to_string()]));
    assert_eq!(rows.len(), 2);
    assert_eq!(rows[0].get("symbol"), Some(&"BBB".to_string()));
    assert_eq!(rows[1].get("symbol"), Some(&"AAA".to_string()));
    assert_eq!(rows[1].get("weight"), Some(&"0.5".to_string()));
    let asked = c.last_weight_rows(Some(vec!["ZZZ".to_string()]));
    assert_eq!(asked[0].get("weight"), Some(&"0".to_string()));
    assert_eq!(asked[0].get("ref"), Some(&"{}".to_string()));
}

#[test]
fn strategy_weights_of_a_fresh_client() {
    let mut kwargs = StringHashMap::new();
    kwargs.insert("symbols".to_string(), r#"["A", "B"]"#.to_string());
    kwargs.insert("only_last".to_string(), "true".to_string());
    let rows = get_strategy_weights("s", None, None, None, kwargs);
    assert_eq!(rows.len(), 2);
    assert_eq!(rows[0].get("weight"), Some(&"0".to_string()));
    let mut kwargs = StringHashMap::new();
    kwargs.insert("sdt".to_string(), "2023-01-01 00:00:00".to_string());
    assert!(get_strategy_weights("s", None, None, Some("W"), kwargs).is_empty());
}

#[test]
fn repeated_or_older_signals_are_refused() {
    let mut c = client();
    let dt = Utc::now();
    let d = (dt.timestamp(), dt.timestamp_subsec_nanos());
    assert_eq!(c.publish("TEST", d, "1", Some("100"), None, None), 1);
    let before = c.redis_connection.entries.len();
    assert_eq!(c.publish("TEST", d, "2", None, None, None), 0);
    assert_eq!(c.publish("TEST", (d.0 - 3600, 0), "2", None, None, None), 0);
    assert_eq!(c.redis_connection.entries.len(), before);
    assert_eq!(c.redis_connection.get("Weights:test_strategy:TEST:LAST:weight"), Some("1".to_string()));
    assert_eq!(c.publish("TEST", d, "3", None, None, Some(true)), 1);
    assert_eq!(c.publish("TEST", (d.0 + 1, 0), "4", None, None, None), 1);
    assert_eq!(c.redis_connection.get("Weights:test_strategy:TEST:LAST:weight"), Some("4".to_string()));
}
