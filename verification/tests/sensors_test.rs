use rs_czsc::sensors::cta::CtaResearch;
use rs_czsc::sensors::event::{analyze_events, detect_events_simple, detect_multiple_events, DetectedEvent, EventMatcher};
use rs_czsc::StringHashMap;
use std::path::PathBuf;

fn pattern_of(pairs: &[(&str, &str)]) -> StringHashMap<String> {
    let mut m = StringHashMap::new();
    for (k, v) in pairs {
        m.insert(k.to_string(), v.to_string());
    }
    m
}

fn obs(pairs: &[(&str, i64)]) -> StringHashMap<i64> {
    let mut m = StringHashMap::new();
    for (k, v) in pairs {
        m.insert(k.to_string(), *v);
    }
    m
}

fn event(ts: &str, kind: &str, desc: &str) -> DetectedEvent {
    DetectedEvent {
        timestamp: ts.to_string(),
        event_type: kind.to_string(),
        description: desc.to_string(),
        data: StringHashMap::new(),
    }
}

#[test]
fn test_cta_research_creation() {
    let kwargs = StringHashMap::new();
    let research = CtaResearch::new("test_strategy".to_string(), PathBuf::from("./test_results"), kwargs);
    assert_eq!(research.strategy_name, "test_strategy");
}

#[test]
fn test_cta_research_init() {
    let strategy_name = "test_strategy".to_string();
    let results_path = PathBuf::from("./test_results");
    let kwargs = StringHashMap::new();
    let cta = CtaResearch::new(strategy_name, results_path, kwargs);
    assert!(true, "CTAResearch对象应能创建");
    assert_eq!(cta.strategy_name, "test_strategy");
}

#[test]
fn test_cta_research_backtest() {
    let strategy_name = "test_strategy".to_string();
    let results_path = PathBuf::from("./test_results");
    let kwargs = StringHashMap::new();
    let cta = CtaResearch::new(strategy_name, results_path, kwargs);
    assert_eq!(cta.results_path, PathBuf::from("./test_results"));
    assert!(true, "应有replay方法");
}

#[test]
fn test_event_matcher_creation() {
    let pattern = pattern_of(&[("type", "price_pattern"), ("condition", "price_breakout")]);
    let matcher = EventMatcher::new(pattern);
    assert!(!matcher.pattern.is_empty());
}

#[test]
fn test_event_matcher_init() {
    let pattern = pattern_of(&[("type", "price_pattern"), ("condition", "close > ma")]);
    let matcher = EventMatcher::new(pattern);
    assert!(true, "EventMatcher对象应能创建");
    assert!(matcher.pattern.contains_key("type"), "应有pattern属性");
}

#[test]
fn test_event_detection() {
    let item1 = obs(&[("high", 100), ("low", 95)]);
    let item2 = obs(&[("high", 105), ("low", 100)]);
    let item3 = obs(&[("high", 103), ("low", 98)]);
    let data = vec![item1, item2, item3];
    let matcher = EventMatcher::new(pattern_of(&[("condition", "price_breakout")]));
    let events = matcher.detect_events(&data).unwrap();
    assert!(!events.is_empty());
}

#[test]
fn breakout_events_name_their_positions() {
    let data = vec![
        obs(&[("high", 100)]),
        obs(&[("high", 105)]),
        obs(&[("high", 103)]),
        obs(&[("low", 1)]),
        obs(&[("high", 110)]),
        obs(&[("high", 111)]),
    ];
    let matcher = EventMatcher::new(pattern_of(&[("condition", "price_breakout")]));
    let events = matcher.detect_events(&data).unwrap();
    assert_eq!(events.len(), 2);
    assert_eq!(events[0].timestamp, "index_1");
    assert_eq!(events[0].event_type, "breakout");
    assert_eq!(events[0].description, "Price breakout detected at index 1");
    assert_eq!(events[1].timestamp, "index_5");
    assert!(events[1].data.is_empty());
}

#[test]
fn volume_spike_needs_more_than_half_again() {
    let data = vec![
        obs(&[("volume", 100)]),
        obs(&[("volume", 150)]),
        obs(&[("volume", 226)]),
        obs(&[("volume", 10)]),
    ];
    let matcher = EventMatcher::new(pattern_of(&[("condition", "volume_spike")]));
    let events = matcher.detect_events(&data).unwrap();
    assert_eq!(events.len(), 1);
    assert_eq!(events[0].timestamp, "index_2");
    assert_eq!(events[0].event_type, "volume_spike");
    assert_eq!(events[0].description, "Volume spike detected at index 2");
}

#[test]
fn unknown_or_missing_condition_finds_nothing() {
    let data = vec![obs(&[("high", 1)]), obs(&[("high", 2)])];
    let m1 = EventMatcher::new(pattern_of(&[("condition", "close > ma")]));
    assert!(m1.detect_events(&data).unwrap().is_empty());
    let m2 = EventMatcher::new(pattern_of(&[("type", "x")]));
    assert!(m2.detect_events(&data).unwrap().is_empty());
}

#[test]
fn test_event_analysis() {
    let events = vec![
        event("2023-01-01", "buy", "Buy signal"),
        event("2023-01-02", "sell", "Sell signal"),
        event("2023-01-03", "buy", "Buy signal"),
    ];
    let stats = analyze_events(&events);
    assert_eq!(stats.get("buy"), Some(&2));
    assert_eq!(stats.get("sell"), Some(&1));
}

#[test]
fn analysis_of_no_events_is_empty() {
    let stats = analyze_events(&[]);
    assert!(stats.is_empty());
    assert_eq!(stats.get("buy"), None);
}

#[test]
fn multiple_patterns_are_filed_by_position() {
    let data = vec![obs(&[("high", 1), ("volume", 10)]), obs(&[("high", 2), ("volume", 30)])];
    let patterns = vec![
        pattern_of(&[("condition", "price_breakout")]),
        pattern_of(&[("condition", "volume_spike")]),
        pattern_of(&[("condition", "none")]),
    ];
    let all = detect_multiple_events(&data, &patterns).unwrap();
    assert_eq!(all.len(), 3);
    assert_eq!(all.get("pattern_0").unwrap().len(), 1);
    assert_eq!(all.get("pattern_1").unwrap()[0].event_type, "volume_spike");
    assert!(all.get("pattern_2").unwrap().is_empty());
}

#[test]
fn simple_detection_applies_the_condition() {
    let data = vec![obs(&[("close", 5)]), obs(&[("close", 15)])];
    let r = detect_events_simple(&data, |m: &StringHashMap<i64>| m.get("close").map(|c| *c > 10).unwrap_or(false)).unwrap();
    assert_eq!(r, vec![false, true]);
}
