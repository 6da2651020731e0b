use rs_czsc::traders::optimize::{
    beta_with_exit, event_digest, push_hex, result_paths, task_hash_from_digest, update_beta_exits, update_beta_opens, ExitsOptimize, OpensOptimize,
};
use rs_czsc::{Event, Operate, Position, Signal, StringHashMap};

fn sig(v: &str) -> Signal {
    Signal::new("日线".to_string(), "D1".to_string(), "状态".to_string(), v.to_string(), "任意".to_string(), "任意".to_string(), 0)
}

fn ev(op: Operate, name: &str) -> Event {
    Event::new(op, vec![sig("多头")], vec![], vec![], name.to_string())
}

#[test]
fn test_opens_optimize_creation() {
    let symbols = vec!["AAPL".to_string(), "GOOGL".to_string()];
    let candidate_signals = vec!["signal1".to_string(), "signal2".to_string()];
    let kwargs = StringHashMap::new();
    let optimizer = OpensOptimize::new(symbols, candidate_signals, "/tmp/results".to_string(), kwargs);
    assert_eq!(optimizer.version, "OpensOptimizeV230924");
    assert_eq!(optimizer.symbols.len(), 2);
}

#[test]
fn test_exits_optimize_creation() {
    let symbols = vec!["AAPL".to_string()];
    let candidate_events: Vec<Event> = vec![];
    let kwargs = StringHashMap::new();
    let optimizer = ExitsOptimize::new(symbols, candidate_events, "/tmp/results".to_string(), kwargs);
    assert_eq!(optimizer.version, "ExitsOptimizeV230924");
}

#[test]
fn optimize_paths_follow_the_task_hash() {
    let o = OpensOptimize::try_new(vec!["A".to_string()], vec!["s".to_string()], "/r".to_string(), StringHashMap::new()).unwrap();
    assert_eq!(o.task_hash.len(), 8);
    assert!(o.task_hash.chars().all(|c| c.is_ascii_digit() || ('A'..='F').contains(&c)));
    assert_eq!(o.results_path, format!("/r/入场优化_{}", o.task_hash));
    assert_eq!(o.poss_path, format!("/r/入场优化_{}/poss", o.task_hash));
    let again = OpensOptimize::try_new(vec!["A".to_string()], vec!["s".to_string()], "/r".to_string(), StringHashMap::new()).unwrap();
    assert_eq!(again.task_hash, o.task_hash);
    let e = ExitsOptimize::try_new(vec!["A".to_string()], vec![], "/r".to_string(), StringHashMap::new()).unwrap();
    assert_eq!(e.results_path, format!("/r/出场优化_{}", e.task_hash));
}

#[test]
fn task_hash_and_hex_text() {
    assert_eq!(task_hash_from_digest(0x1234_5678_9ABC_DEF0), Some("12345678".to_string()));
    assert_eq!(task_hash_from_digest(0xABCDEF1), None);
    assert_eq!(task_hash_from_digest(0xABCDEF12), Some("ABCDEF12".to_string()));
    let mut s = String::new();
    push_hex(&mut s, 255);
    assert_eq!(s, "FF");
    let (r, p) = result_paths("/x", "/y_", "Z");
    assert_eq!(r, "/x/y_Z");
    assert_eq!(p, "/x/y_Z/poss");
}

#[test]
fn beta_opens_gain_required_signals() {
    let mut beta = Position::new("beta", "000001.SZ");
    beta.opens.push(ev(Operate::LO, "open"));
    let pos = update_beta_opens(&beta, &["a_b_c_d_e_f".to_string(), "x".to_string()]);
    assert_eq!(pos.opens.len(), 1);
    assert_eq!(pos.opens[0].signals_all.len(), 3);
    assert_eq!(pos.opens[0].signals_all[1].k1, "a_b_c_d_e_f");
    assert_eq!(pos.opens[0].signals_all[2].v3, "x");
    assert_eq!(pos.opens[0].signals_all[2].signal, "x_x_x_x_x_x/0");
    assert_eq!(pos.name, "beta");
}

#[test]
fn beta_exits_follow_the_opens() {
    let mut beta = Position::new("beta", "000001.SZ");
    beta.opens.push(ev(Operate::LO, "open"));
    beta.exits.push(ev(Operate::LE, "exit0"));
    assert!(update_beta_exits(&beta, &ev(Operate::SE, "x"), "replace").is_none());
    let exit = ev(Operate::LE, "exit1");
    let replaced = update_beta_exits(&beta, &exit, "replace").unwrap();
    assert_eq!(replaced.exits.len(), 1);
    assert_eq!(replaced.exits[0].name, "exit1");
    assert!(replaced.name.starts_with("beta#替换"));
    let appended = update_beta_exits(&beta, &exit, "append").unwrap();
    assert_eq!(appended.exits.len(), 2);
    assert_eq!(appended.exits[0].name, "exit0");
    assert!(appended.name.starts_with("beta#追加"));
    assert_eq!(&appended.name["beta#追加".len()..], &replaced.name["beta#替换".len()..]);
    let empty = Position::new("e", "s");
    assert!(update_beta_exits(&empty, &exit, "append").is_none());
}

fn derived_digest<T: std::hash::Hash>(t: &T) -> u64 {
    let mut h = std::collections::hash_map::DefaultHasher::new();
    std::hash::Hash::hash(t, &mut h);
    std::hash::Hasher::finish(&h)
}

fn derived_task_hash(text: String) -> String {
    format!("{:X}", derived_digest(&text))[..8].to_uppercase()
}

#[test]
fn digests_and_task_texts_agree_with_the_derived_ones() {
    let mut e = Event::new(Operate::SE, vec![sig("多头"), sig("空\"x\"")], vec![sig("震荡")], vec![], "出\n场".to_string());
    e.signals_all[1].score = -7;
    assert_eq!(event_digest(&e), derived_digest(&e));
    assert_eq!(event_digest(&Event::default()), derived_digest(&Event::default()));
    let mut beta = Position::new("beta", "000001.SZ");
    beta.opens.push(ev(Operate::LO, "open"));
    let exit = ev(Operate::LE, "exit1");
    let replaced = update_beta_exits(&beta, &exit, "replace").unwrap();
    assert_eq!(replaced.name, format!("beta#替换{:X}", derived_digest(&exit)));
    assert_eq!(beta_with_exit(&beta, &exit, "append", 0xAB).unwrap().name, "beta#追加AB");
    assert!(beta_with_exit(&beta, &ev(Operate::SE, "x"), "neither", 1).is_none());
    let events = vec![e.clone(), exit.clone()];
    let symbols = vec!["A\t".to_string(), "B".to_string()];
    let o = ExitsOptimize::try_new(symbols.clone(), events.clone(), "/r".to_string(), StringHashMap::new()).unwrap();
    assert_eq!(o.task_hash, derived_task_hash(format!("{:?}_{:?}", events, symbols)));
    let signals = vec!["s\"1".to_string()];
    let o = OpensOptimize::try_new(symbols.clone(), signals.clone(), "/r".to_string(), StringHashMap::new()).unwrap();
    assert_eq!(o.task_hash, derived_task_hash(format!("{:?}_{:?}", signals, symbols)));
}
