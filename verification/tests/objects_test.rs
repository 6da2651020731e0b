use rs_czsc::{Direction, Event, Freq, Mark, NewBar, Operate, Signal, StringHashMap, BI, FX, ZS};

fn nb(id: i32, close: i64, high: i64, low: i64, vol: i64) -> NewBar {
    NewBar { symbol: "T".to_string(), id, freq: Freq::D, dt: id as i64, open: close, close, high, low, vol, amount: 0, elements: vec![] }
}

fn fx(dt: i64, mark: Mark, high: i64, low: i64) -> FX {
    let v = if mark == Mark::G { high } else { low };
    FX { symbol: "T".to_string(), dt, mark, high, low, fx: v, elements: vec![] }
}

fn bi(a: FX, b: FX) -> BI {
    BI::new(a, b, vec![], vec![])
}

#[test]
fn fractal_strength_volume_and_overlap() {
    let mut f = fx(2, Mark::D, 12, 8);
    f.elements = vec![nb(1, 11, 12, 9, 5), nb(2, 9, 10, 8, 6), nb(3, 13, 14, 10, 7)];
    assert_eq!(f.power_str(), "强");
    assert_eq!(f.power_volume(), 18);
    assert!(f.has_zs());
    f.elements[2].close = 11;
    assert_eq!(f.power_str(), "中");
    f.elements[2].close = 9;
    assert_eq!(f.power_str(), "弱");
    f.elements[2] = nb(3, 20, 30, 25, 1);
    assert!(!f.has_zs());
    assert_eq!(f.new_bars().len(), 3);
}

#[test]
fn strokes_and_pivots() {
    let up = bi(fx(1, Mark::D, 12, 10), fx(5, Mark::G, 20, 17));
    assert_eq!(up.direction, Direction::Up);
    assert_eq!((up.sdt(), up.edt()), (1, 5));
    assert_eq!((up.high(), up.low()), (20, 10));
    assert!(up.fake_bis().is_empty());
    let down = bi(fx(5, Mark::G, 20, 17), fx(9, Mark::D, 14, 12));
    let up2 = bi(fx(9, Mark::D, 14, 12), fx(13, Mark::G, 22, 18));
    let zs = ZS::new(vec![up, down, up2]);
    assert_eq!(zs.gg(), 22);
    assert_eq!(zs.dd(), 10);
    assert_eq!(zs.zg(), 20);
    assert_eq!(zs.zd(), 12);
    assert!(zs.is_valid());
    assert_eq!(zs.sdir(), Direction::Up);
    assert_eq!(zs.edir(), Direction::Up);
    assert_eq!((zs.sdt(), zs.edt()), (1, 13));
    assert_eq!(zs.symbol(), "T");
    let apart = ZS::new(vec![bi(fx(1, Mark::D, 12, 10), fx(5, Mark::G, 20, 17)), bi(fx(5, Mark::G, 40, 35), fx(9, Mark::D, 32, 30))]);
    assert!(!apart.is_valid());
}

#[test]
fn unique_signals_are_sorted_and_distinct() {
    let s = |v: &str| Signal::new("日线".to_string(), "D1".to_string(), "状态".to_string(), v.to_string(), "任意".to_string(), "任意".to_string(), 0);
    let e = Event::new(Operate::LO, vec![s("b"), s("a")], vec![s("b")], vec![s("c")], "e".to_string());
    let u = e.unique_signals();
    assert_eq!(u, vec![s("a").signal, s("b").signal, s("c").signal]);
}

#[test]
fn event_matching_order_and_errors() {
    let s = |v: &str| Signal::new("日线".to_string(), "D1".to_string(), "状态".to_string(), v.to_string(), "任意".to_string(), "任意".to_string(), 0);
    let other = Signal::new("周线".to_string(), "D1".to_string(), "状态".to_string(), "多".to_string(), "任意".to_string(), "任意".to_string(), 0);
    let mut m = StringHashMap::new();
    m.insert("日线_D1_状态".to_string(), "多_任意_任意/0".to_string());
    // an excluded signal that holds decides before anything else is checked
    let e = Event::new(Operate::LO, vec![other.clone()], vec![], vec![s("多")], "e".to_string());
    assert_eq!(e.is_match(&m), Ok((false, String::new())));
    // a signal whose key is missing, checked first, gives the error
    let e = Event::new(Operate::LO, vec![s("多")], vec![], vec![other.clone()], "e".to_string());
    assert!(e.is_match(&m).is_err());
    // the first alternative that holds names the match
    let e = Event::new(Operate::LO, vec![s("多")], vec![s("空"), s("多")], vec![], "e".to_string());
    assert_eq!(e.is_match(&m), Ok((true, "日线_D1_状态".to_string())));
    let e = Event::new(Operate::LO, vec![], vec![s("空")], vec![], "e".to_string());
    assert_eq!(e.is_match(&m), Ok((false, String::new())));
    assert_eq!(Event::default().is_match(&m), Ok((true, String::new())));
}

#[test]
fn fractals_alternate_and_fit_between_the_ends() {
    let bars = vec![nb(1, 10, 11, 9, 1), nb(2, 12, 14, 10, 1), nb(3, 10, 12, 8, 1), nb(4, 8, 9, 6, 1), nb(5, 9, 11, 7, 1), nb(6, 12, 15, 10, 1), nb(7, 11, 13, 9, 1)];
    let fxs = rs_czsc::check_fxs(&bars);
    assert!(fxs.len() <= bars.len() - 2);
    for w in fxs.windows(2) {
        assert!(w[0].dt < w[1].dt);
        assert_ne!(w[0].mark, w[1].mark);
    }
    assert_eq!(fxs[0].mark, Mark::G);
    assert_eq!(fxs[0].dt, 2);
}
