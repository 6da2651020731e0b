use chrono::{TimeZone, Utc};
use rs_czsc::store::TextStore;
use rs_czsc::traders::base::{generate_czsc_signals, CzscSignals, CzscTrader};
use rs_czsc::{BarGenerator, Event, Freq, Operate, Position, RawBar, Signal, StringHashMap};

fn ts(h: u32, m: u32) -> i64 {
    Utc.with_ymd_and_hms(2023, 1, 1, h, m, 0).unwrap().timestamp()
}

fn bar(id: i32, dt: i64, close: i64) -> RawBar {
    RawBar { symbol: "TEST".to_string(), id, dt, freq: Freq::F1, open: close, close, high: close + 1, low: close - 1, vol: 10, amount: 100 }
}

fn config_kwargs() -> StringHashMap<String> {
    let mut kwargs = StringHashMap::new();
    kwargs.insert("signals_config".to_string(), r#"[{"name": "abc", "freq": "5分钟"}]"#.to_string());
    kwargs
}

fn long_event() -> Event {
    let s = Signal::new("日线".to_string(), "D1".to_string(), "状态".to_string(), "多头".to_string(), "任意".to_string(), "任意".to_string(), 0);
    Event::new(Operate::LO, vec![s], vec![], vec![], "long".to_string())
}

#[test]
fn test_czsc_signals_creation() {
    let kwargs = StringHashMap::new();
    let signals = CzscSignals::new(None, kwargs);
    assert_eq!(signals.name, "CzscSignals");
}

#[test]
fn test_czsc_trader_creation() {
    let kwargs = StringHashMap::new();
    let trader = CzscTrader::new(None, None, None, kwargs);
    assert_eq!(trader.signals.name, "CzscSignals");
    assert_eq!(trader.ensemble_method, "mean");
}

#[test]
fn signals_follow_the_latest_base_bar() {
    let mut bg = BarGenerator::new("1分钟", &[Freq::F5], 100);
    bg.update(&bar(1, ts(9, 31), 10));
    let mut cs = CzscSignals::new(Some(bg), config_kwargs());
    assert_eq!(cs.symbol, Some("TEST".to_string()));
    assert_eq!(cs.base_freq, Some(Freq::F1));
    assert_eq!(cs.freqs, vec![Freq::F1, Freq::F5]);
    assert_eq!(cs.end_dt, Some(ts(9, 31)));
    assert_eq!(cs.bid, Some(1));
    assert_eq!(cs.latest_price, Some(10));
    assert_eq!(cs.s.get("abc_signal"), Some(&"placeholder".to_string()));
    assert_eq!(cs.s.get("dt"), Some(&"2023-01-01T09:31:00+00:00".to_string()));
    assert_eq!(cs.s.get("close"), Some(&"10".to_string()));
    assert_eq!(cs.s.len(), 5);
    cs.update_signals(&bar(2, ts(9, 32), -7));
    assert_eq!(cs.bid, Some(2));
    assert_eq!(cs.latest_price, Some(-7));
    assert_eq!(cs.s.get("id"), Some(&"2".to_string()));
    assert_eq!(cs.s.get("close"), Some(&"-7".to_string()));
    assert_eq!(cs.get_signals_by_conf().len(), 1);
}

#[test]
fn signals_without_a_generator_keep_their_map() {
    let mut cs = CzscSignals::new(None, StringHashMap::new());
    cs.update_signals(&bar(1, ts(9, 31), 10));
    assert_eq!(cs.symbol, Some("TEST".to_string()));
    assert_eq!(cs.s.len(), 0);
    assert_eq!(cs.end_dt, None);
}

#[test]
fn trader_counts_matching_events_on_signals() {
    let mut p = Position::new("pos", "TEST");
    p.opens.push(long_event());
    let mut trader = CzscTrader::new(None, Some(vec![p]), Some("vote".to_string()), StringHashMap::new());
    assert_eq!(trader.ensemble_method, "vote");
    assert!(!trader.pos_changed());
    let mut sig = StringHashMap::new();
    sig.insert("日线_D1_状态".to_string(), "多头_任意_任意/0".to_string());
    sig.insert("dt".to_string(), "2023-01-01T09:31:00+00:00".to_string());
    sig.insert("id".to_string(), "7".to_string());
    sig.insert("close".to_string(), "12x".to_string());
    trader.on_sig(sig);
    assert_eq!(trader.signals.end_dt, Some(ts(9, 31)));
    assert_eq!(trader.signals.bid, Some(7));
    assert_eq!(trader.signals.latest_price, None);
    assert!(trader.pos_changed());
    assert_eq!(trader.get_position("pos").unwrap().operatetimes, 1);
    assert!(trader.get_position("other").is_none());
    trader.on_sig(StringHashMap::new());
    assert_eq!(trader.get_position("pos").unwrap().operatetimes, 1);
}

#[test]
fn trader_on_bar_updates_signals() {
    let mut bg = BarGenerator::new("1分钟", &[], 10);
    bg.update(&bar(1, ts(9, 31), 10));
    let mut trader = CzscTrader::new(Some(bg), Some(vec![Position::new("pos", "TEST")]), None, StringHashMap::new());
    trader.on_bar(&bar(2, ts(9, 32), 11));
    assert_eq!(trader.signals.latest_price, Some(11));
    assert_eq!(trader.signals.s.get("id"), Some(&"2".to_string()));
    assert!(!trader.pos_changed());
}

#[test]
fn generated_signals_follow_each_bar_after_the_warm_up() {
    let bars: Vec<RawBar> = (0..5).map(|i| bar(i, ts(9, 31 + i as u32), 10 + i as i64)).collect();
    let configs: Vec<TextStore> = Vec::new();
    let sigs = generate_czsc_signals(&bars, &configs, Some(ts(12, 0)), Some(2), None, config_kwargs());
    assert_eq!(sigs.len(), 3);
    for (k, s) in sigs.iter().enumerate() {
        assert_eq!(s.get("id"), Some(&(k + 2).to_string()));
        assert_eq!(s.get("close"), Some(&(12 + k).to_string()));
        assert_eq!(s.get("abc_signal"), Some(&"placeholder".to_string()));
        assert_eq!(s.get("symbol"), Some(&"TEST".to_string()));
    }
    assert!(generate_czsc_signals(&bars, &configs, Some(ts(12, 0)), Some(5), None, StringHashMap::new()).is_empty());
}

#[test]
fn generated_signals_are_empty_when_no_bars_are_kept() {
    let bars: Vec<RawBar> = (0..4).map(|i| bar(i, ts(9, 31 + i as u32), 10)).collect();
    let mut kwargs = StringHashMap::new();
    kwargs.insert("bg_max_count".to_string(), "0".to_string());
    let sigs = generate_czsc_signals(&bars, &[], Some(ts(12, 0)), Some(1), None, kwargs);
    assert_eq!(sigs.len(), 3);
    assert!(sigs.iter().all(|s| s.len() == 0));
}
