use chrono::{TimeZone, Utc};
use rs_czsc::signals::bar::{bar_end_v221211, bar_triple_v230506, bar_zdt_v230331, has_text};
use rs_czsc::signals::pos::{pos_bar_stop_v230524, pos_fx_stop_v230414, pos_holds_v230414, pos_ma_v230414};
use rs_czsc::objects::CZSC;
use rs_czsc::{Freq, Mark, Operate, RawBar, FX};

fn rb(id: i32, m: u32, open: i64, close: i64, high: i64, low: i64, vol: i64) -> RawBar {
    RawBar {
        symbol: "TEST".to_string(),
        id,
        dt: Utc.with_ymd_and_hms(2022, 1, 1, 0, m, 0).unwrap().timestamp(),
        freq: Freq::F1,
        open,
        close,
        high,
        low,
        vol,
        amount: vol * 100,
    }
}

fn fx(mark: Mark, high: i64, low: i64) -> FX {
    FX { symbol: "TEST".to_string(), dt: 0, mark, high, low, fx: if mark == Mark::D { low } else { high }, elements: vec![] }
}

fn czsc(bars: Vec<RawBar>) -> CZSC {
    CZSC {
        symbol: "TEST".to_string(),
        freq: Freq::F1,
        bars_raw: bars,
        bi_list: vec![],
        xd_list: vec![],
        zs_list: vec![],
        signals: vec![],
        events: vec![],
        last_event: None,
    }
}

#[test]
fn test_pos_ma_v230414() {
    let signal = pos_ma_v230414("日线三买多头N1", "60分钟", Some("SMA"), Some(5), 105, 100, Operate::LO);
    assert_eq!(signal.v1, "多头");
    assert_eq!(signal.v2, "升破均线");
}

#[test]
fn test_pos_fx_stop_v230414() {
    let fx_list = vec![fx(Mark::D, 110, 90), fx(Mark::G, 120, 100)];
    let signal = pos_fx_stop_v230414("日线三买多头N1", "60分钟", Some(3), 85, Operate::LO, &fx_list);
    assert_eq!(signal.v1, "多头止损");
}

#[test]
fn test_pos_bar_stop_v230524() {
    let bars = vec![
        rb(0, 0, 100, 102, 103, 99, 1000),
        rb(1, 1, 102, 101, 104, 98, 1000),
        rb(2, 2, 101, 103, 105, 100, 1000),
    ];
    let signal = pos_bar_stop_v230524("日线三买多头", "日线", Some(3), 97, Operate::LO, &bars);
    assert_eq!(signal.v1, "多头止损");
}

#[test]
fn test_bar_triple_v230506() {
    let bars = vec![
        rb(0, 0, 100, 105, 106, 99, 1000),
        rb(1, 1, 105, 110, 111, 104, 1200),
        rb(2, 2, 110, 115, 116, 109, 1400),
        rb(3, 3, 100, 102, 103, 99, 1000),
        rb(4, 4, 100, 102, 103, 99, 1000),
        rb(5, 5, 100, 102, 103, 99, 1000),
        rb(6, 6, 100, 102, 103, 99, 1000),
    ];
    let c = czsc(bars);
    let signal = bar_triple_v230506(&c, Some(1));
    println!("Triple signal: {}", signal.signal);
}

#[test]
fn triple_patterns_and_volume() {
    let mut bars = vec![rb(0, 0, 1, 1, 1, 1, 1); 4];
    bars.push(rb(4, 4, 100, 105, 106, 99, 1000));
    bars.push(rb(5, 5, 105, 110, 111, 104, 1200));
    bars.push(rb(6, 6, 110, 115, 116, 109, 1400));
    let s = bar_triple_v230506(&czsc(bars.clone()), None);
    assert_eq!(s.k1, "1分钟");
    assert_eq!(s.k2, "D1三K加速_裸K形态V230506");
    assert_eq!(s.k3, "新高涨");
    assert_eq!(s.v1, "依次放量");
    let flat = bar_triple_v230506(&czsc(vec![rb(0, 0, 1, 1, 1, 1, 1); 7]), Some(1));
    assert_eq!(flat.k3, "其他");
    assert_eq!(flat.v1, "任意");
    let short = bar_triple_v230506(&czsc(vec![rb(0, 0, 1, 2, 3, 0, 1); 6]), Some(1));
    assert_eq!(short.k3, "其他");
}

#[test]
fn pos_signal_names_and_stops() {
    let s = pos_bar_stop_v230524("a_b", "日线", Some(50), 200, Operate::SO, &[]);
    assert_eq!(s.k1, "a");
    assert_eq!(s.k2, "日线N20K_止损V230524");
    assert_eq!(s.v1, "空头止损");
    let f = pos_fx_stop_v230414("p", "60分钟", Some(0), 85, Operate::LO, &[fx(Mark::D, 110, 90)]);
    assert_eq!(f.v1, "其他");
    assert_eq!(f.k2, "pN0_止损V230414");
    let m = pos_ma_v230414("x", "5分钟", None, None, 90, 100, Operate::SO);
    assert_eq!(m.k2, "5分钟#SMA#5_持有状态V230414");
    assert_eq!(m.v1, "空头");
}

#[test]
fn holding_quality_in_basis_points() {
    let bars = vec![rb(0, 0, 0, 101, 0, 0, 0), rb(1, 1, 0, 101, 0, 0, 0)];
    let good = pos_holds_v230414("p_q", "日线", Some(2), Some(100), &bars, 100, Operate::LO);
    assert_eq!(good.v1, "多头良好");
    assert_eq!(good.k1, "p");
    assert_eq!(good.k2, "日线N2M100_趋势判断V230414");
    let doubt = pos_holds_v230414("p", "日线", Some(2), Some(101), &bars, 100, Operate::LO);
    assert_eq!(doubt.v1, "多头存疑");
    let early = pos_holds_v230414("p", "日线", None, None, &bars, 100, Operate::LO);
    assert_eq!(early.v1, "其他");
    let short = pos_holds_v230414("p", "日线", Some(1), Some(-100), &bars, 100, Operate::SO);
    assert_eq!(short.v1, "空头良好");
    assert_eq!(short.k2, "日线N1M-100_趋势判断V230414");
}

#[test]
fn limit_moves_and_period_end() {
    let c = czsc(vec![rb(0, 0, 10, 10, 10, 10, 1), rb(0, 0, 10, 10, 10, 10, 1), rb(1, 1, 10, 11, 11, 10, 1), rb(2, 2, 11, 9, 11, 9, 1)]);
    assert_eq!(bar_zdt_v230331(&c, Some(2)).k3, "涨停");
    assert_eq!(bar_zdt_v230331(&c, None).k3, "跌停");
    assert_eq!(bar_zdt_v230331(&c, Some(2)).k2, "D2_涨跌停V230331");
    assert_eq!(bar_zdt_v230331(&c, Some(3)).k3, "其他");
    let e = bar_end_v221211(&c, "15分钟");
    assert_eq!(e.k2, "15分钟结束_BS辅助221211");
    assert_eq!(e.k3, "闭合");
    assert!(has_text("15分钟", "分钟"));
    assert!(!has_text("日线", "分钟"));
}
