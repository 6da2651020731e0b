use chrono::{TimeZone, Utc};
use rs_czsc::{check_bi, check_fx, check_fxs, remove_include, Freq, Mark, NewBar, RawBar};

fn ts(h: u32, m: u32) -> i64 {
    Utc.with_ymd_and_hms(2023, 1, 1, h, m, 0).unwrap().timestamp()
}

fn nb(id: i32, dt: i64, open: i64, close: i64, high: i64, low: i64, vol: i64, amount: i64) -> NewBar {
    NewBar { symbol: "TEST".to_string(), id, freq: Freq::F5, dt, open, close, high, low, vol, amount, elements: vec![] }
}

#[test]
fn test_remove_include() {
    let k1 = nb(1, ts(9, 30), 100, 105, 108, 98, 1000, 100000);
    let k2 = nb(2, ts(9, 35), 105, 110, 112, 102, 1200, 120000);
    let k3 = RawBar {
        symbol: "TEST".to_string(),
        id: 3,
        dt: ts(9, 40),
        freq: Freq::F5,
        open: 108,
        close: 105,
        high: 109,
        low: 103,
        vol: 1500,
        amount: 150000,
    };
    let (has_include, result_bar) = remove_include(&k1, &k2, &k3);
    assert_eq!(has_include, true);
    assert_eq!(result_bar.symbol, "TEST");
}

#[test]
fn test_check_fx() {
    let k1 = nb(1, ts(9, 30), 100, 105, 108, 98, 1000, 100000);
    let k2 = nb(2, ts(9, 35), 105, 110, 115, 102, 1200, 120000);
    let k3 = nb(3, ts(9, 40), 110, 108, 112, 95, 1100, 110000);
    let fx = check_fx(&k1, &k2, &k3);
    assert!(fx.is_some());
    assert_eq!(fx.as_ref().unwrap().mark, Mark::G);
    assert_eq!(fx.as_ref().unwrap().fx, 115);
}

#[test]
fn test_check_fxs() {
    let bars = vec![
        nb(1, ts(9, 30), 100, 95, 105, 90, 1000, 100000),
        nb(2, ts(9, 35), 95, 110, 115, 92, 1200, 120000),
        nb(3, ts(9, 40), 110, 100, 112, 95, 1100, 110000),
        nb(4, ts(9, 45), 100, 120, 125, 98, 1300, 130000),
        nb(5, ts(9, 50), 120, 110, 122, 105, 1250, 125000),
    ];
    let fxs = check_fxs(&bars);
    assert!(fxs.len() >= 0);
}

#[test]
fn test_check_bi() {
    let bars = vec![
        nb(1, ts(9, 30), 100, 90, 105, 85, 1000, 100000),
        nb(2, ts(9, 35), 90, 110, 115, 88, 1200, 120000),
        nb(3, ts(9, 40), 110, 100, 112, 95, 1100, 110000),
        nb(4, ts(9, 45), 100, 120, 125, 98, 1300, 130000),
        nb(5, ts(9, 50), 120, 110, 122, 105, 1250, 125000),
        nb(6, ts(9, 55), 110, 130, 135, 108, 1350, 135000),
        nb(7, ts(10, 0), 130, 120, 132, 115, 1400, 140000),
    ];
    let (bi_opt, remaining_bars) = check_bi(&bars);
    assert!(bi_opt.is_some() || bi_opt.is_none());
    assert_eq!(remaining_bars.len(), if bi_opt.is_some() { bars.len() - 5 } else { bars.len() });
}

#[test]
fn fractal_marks_on_known_shapes() {
    let a = nb(1, ts(9, 30), 0, 0, 10, 5, 1, 1);
    let b = nb(2, ts(9, 35), 0, 0, 8, 3, 1, 1);
    let c = nb(3, ts(9, 40), 0, 0, 12, 6, 1, 1);
    let fx = check_fx(&a, &b, &c).unwrap();
    assert_eq!(fx.mark, Mark::D);
    assert_eq!(fx.fx, 3);
    let flat = check_fx(&a, &a, &a);
    assert!(flat.is_none());
    let fxs = check_fxs(&[a.clone(), b.clone(), c.clone()]);
    assert_eq!(fxs.len(), 1);
    assert_eq!(fxs[0].mark, Mark::D);
}

#[test]
fn no_inclusion_keeps_the_new_bar() {
    let k1 = nb(1, ts(9, 30), 0, 0, 10, 5, 1, 1);
    let k2 = nb(2, ts(9, 35), 0, 0, 12, 7, 1, 1);
    let k3 = RawBar { symbol: "TEST".to_string(), id: 3, dt: ts(9, 40), freq: Freq::F5, open: 13, close: 14, high: 15, low: 9, vol: 5, amount: 50 };
    let (merged, out) = remove_include(&k1, &k2, &k3);
    assert!(!merged);
    assert_eq!(out.high, 15);
    assert_eq!(out.low, 9);
    assert_eq!(out.elements.len(), 1);
}
