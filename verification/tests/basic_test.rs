use chrono::{TimeZone, Utc};
use rs_czsc::bar_generator::{get_resample_factor, resample_bars};
use rs_czsc::{BarGenerator, Freq, RawBar, Signal};

fn ts(h: u32, m: u32) -> i64 {
    Utc.with_ymd_and_hms(2023, 1, 1, h, m, 0).unwrap().timestamp()
}

fn bar(id: i32, dt: i64, o: i64, c: i64, h: i64, l: i64, v: i64, a: i64) -> RawBar {
    RawBar { symbol: "TEST".to_string(), id, dt, freq: Freq::F1, open: o, close: c, high: h, low: l, vol: v, amount: a }
}

#[test]
fn test_rawbar_creation() {
    let bar = RawBar {
        symbol: "TEST".to_string(),
        id: 1,
        dt: Utc.with_ymd_and_hms(2023, 1, 1, 0, 0, 0).unwrap().timestamp(),
        freq: Freq::D,
        open: 100,
        close: 110,
        high: 115,
        low: 95,
        vol: 1000,
        amount: 100000,
    };
    assert_eq!(bar.symbol, "TEST");
    assert_eq!(bar.id, 1);
    assert_eq!(bar.open, 100);
    assert_eq!(bar.close, 110);
    assert_eq!(bar.high, 115);
    assert_eq!(bar.low, 95);
    assert_eq!(bar.vol, 1000);
    assert_eq!(bar.amount, 100000);
}

#[test]
fn test_rawbar_methods() {
    let bar = RawBar {
        symbol: "TEST".to_string(),
        id: 1,
        dt: Utc.with_ymd_and_hms(2023, 1, 1, 0, 0, 0).unwrap().timestamp(),
        freq: Freq::D,
        open: 100,
        close: 110,
        high: 115,
        low: 95,
        vol: 1000,
        amount: 100000,
    };
    assert_eq!(bar.upper(), 5);
    assert_eq!(bar.lower(), 5);
    assert_eq!(bar.solid(), 10);
}

#[test]
fn test_signal_creation() {
    let signal = Signal::new(
        "15分钟".to_string(),
        "倒0笔".to_string(),
        "方向".to_string(),
        "向上".to_string(),
        "其他".to_string(),
        "其他".to_string(),
        0,
    );
    assert_eq!(signal.k1, "15分钟");
    assert_eq!(signal.k2, "倒0笔");
    assert_eq!(signal.k3, "方向");
    assert_eq!(signal.v1, "向上");
    assert_eq!(signal.v2, "其他");
    assert_eq!(signal.v3, "其他");
    assert_eq!(signal.score, 0);
}

#[test]
fn test_bar_generator() {
    let bg = BarGenerator::new("F1", &[Freq::F5], 1000);
    let base_bars = bg.get_base_bars();
    assert!(base_bars.is_empty());
}

#[test]
fn test_bar_generator_creation() {
    let bg = BarGenerator::new("F5", &[Freq::F15, Freq::F30], 1000);
    assert_eq!(bg.base_freq, Freq::F5);
    assert_eq!(bg.freqs, vec![Freq::F15, Freq::F30]);
}

#[test]
fn test_update_bar() {
    let mut bg = BarGenerator::new("F1", &[], 1000);
    let bar = RawBar {
        symbol: "TEST".to_string(),
        id: 1,
        dt: Utc.with_ymd_and_hms(2023, 1, 1, 10, 0, 0).unwrap().timestamp(),
        freq: Freq::F1,
        open: 100,
        close: 105,
        high: 108,
        low: 99,
        vol: 1000,
        amount: 100000,
    };
    bg.update(&bar);
    let base_bars = bg.get_base_bars();
    assert_eq!(base_bars.len(), 1);
    assert_eq!(base_bars[0].symbol, "TEST");
}

#[test]
fn resampling_groups_base_bars() {
    let bars = vec![
        bar(1, ts(9, 31), 10, 11, 12, 9, 100, 1000),
        bar(2, ts(9, 32), 11, 13, 14, 10, 200, 2000),
        bar(3, ts(9, 33), 13, 12, 13, 8, 300, 3000),
        bar(4, ts(9, 34), 12, 15, 16, 12, 400, 4000),
        bar(5, ts(9, 35), 15, 14, 15, 13, 500, 5000),
        bar(6, ts(9, 36), 14, 16, 17, 14, 600, 6000),
        bar(7, ts(9, 37), 16, 18, 19, 15, 700, 7000),
    ];
    assert_eq!(get_resample_factor(Freq::F1, Freq::F5), 5);
    assert_eq!(get_resample_factor(Freq::F5, Freq::F1), 1);
    let out = resample_bars(&bars, Freq::F1, Freq::F5);
    assert_eq!(out.len(), 2);
    assert_eq!(out[0].id, 1);
    assert_eq!(out[0].freq, Freq::F5);
    assert_eq!(out[0].open, 10);
    assert_eq!(out[0].close, 14);
    assert_eq!(out[0].high, 16);
    assert_eq!(out[0].low, 8);
    assert_eq!(out[0].vol, 1500);
    assert_eq!(out[0].amount, 15000);
    assert_eq!(out[1].id, 6);
    assert_eq!(out[1].dt, ts(9, 36));
    assert_eq!(out[1].close, 18);
    assert_eq!(out[1].vol, 1300);
    let same = resample_bars(&bars, Freq::F5, Freq::F1);
    assert_eq!(same.len(), 7);
    assert_eq!(same[3].freq, Freq::F1);
}

#[test]
fn generator_keeps_at_most_max_count_base_bars() {
    let mut bg = BarGenerator::new("1分钟", &[Freq::F5, Freq::F1], 3);
    for i in 0..4 {
        let b = bar(i, ts(10, i as u32), 10 + i as i64, 11, 20, 5, 1, 2);
        assert!(bg.can_update(&b));
        bg.update(&b);
    }
    let base = bg.get_base_bars();
    assert_eq!(base.len(), 3);
    assert_eq!(base[0].id, 1);
    let five = bg.get_bars(Freq::F5);
    assert_eq!(five.len(), 1);
    assert_eq!(five[0].open, 11);
    assert_eq!(five[0].vol, 3);
    assert_eq!(bg.get_last_bar(Freq::F1).unwrap().id, 3);
    assert!(bg.get_last_bar(Freq::D).is_none());
    assert_eq!(bg.symbol.as_deref(), Some("TEST"));
}
