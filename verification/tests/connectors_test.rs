use rs_czsc::connectors::tq_connector::{bar_end_secs, is_trading_end, trading_ended_at};
use rs_czsc::connectors::ccxt_connector::{get_latest_klines, get_raw_bars, get_symbols, period_to_freq, supports_period};
use rs_czsc::connectors::tq_connector;
use rs_czsc::connectors::ts_connector;
use rs_czsc::Freq;

#[test]
fn test_get_symbols() {
    let symbols = get_symbols("币安期货");
    assert!(symbols.contains_key("BTCUSDT"));
    assert!(symbols.contains_key("ETHUSDT"));
}

#[test]
fn test_get_raw_bars() {
    let bars = get_raw_bars("BTCUSDT", "1h", "2024-01-01", "2024-01-02", "币安期货");
    assert!(!bars.is_empty());
    assert!(bars[0].contains_key("symbol"));
    assert_eq!(bars[0].get("symbol").unwrap(), "BTCUSDT");
}

#[test]
fn test_period_to_freq() {
    assert_eq!(period_to_freq("1m"), Freq::F1);
    assert_eq!(period_to_freq("1d"), Freq::D);
    assert_eq!(period_to_freq("1w"), Freq::W);
}

#[test]
fn period_names_map_to_periods() {
    assert_eq!(period_to_freq("5m"), Freq::F5);
    assert_eq!(period_to_freq("15m"), Freq::F15);
    assert_eq!(period_to_freq("30m"), Freq::F30);
    assert_eq!(period_to_freq("1h"), Freq::F60);
    assert_eq!(period_to_freq("4h"), Freq::F60);
    assert_eq!(period_to_freq("1M"), Freq::M);
    assert_eq!(period_to_freq("7x"), Freq::F1);
    assert_eq!(period_to_freq(""), Freq::F1);
}

#[test]
fn spot_and_unknown_exchanges() {
    let spot = get_symbols("币安现货");
    assert_eq!(spot.len(), 3);
    assert_eq!(spot.get("BNBUSDT").unwrap(), "BNB/USDT");
    assert!(!spot.contains_key("ADAUSDT"));
    let futures = get_symbols("币安期货");
    assert_eq!(futures.get("ADAUSDT").unwrap(), "ADA/USDT");
    assert_eq!(futures.get("BTCUSDT").unwrap(), "BTC/USDT");
    let none = get_symbols("okx");
    assert!(none.is_empty());
}

#[test]
fn sample_bars_hold_integer_texts() {
    let bars = get_raw_bars("ETHUSDT", "5m", "", "", "");
    assert_eq!(bars.len(), 10);
    assert_eq!(bars[0].get("dt").unwrap(), "2024-01-01T10:00:00+08:00");
    assert_eq!(bars[0].get("open").unwrap(), "10000");
    assert_eq!(bars[3].get("dt").unwrap(), "2024-01-01T10:03:00+08:00");
    assert_eq!(bars[3].get("high").unwrap(), "10080");
    assert_eq!(bars[3].get("low").unwrap(), "9980");
    assert_eq!(bars[3].get("close").unwrap(), "10060");
    assert_eq!(bars[9].get("vol").unwrap(), "1900");
    assert_eq!(bars[9].get("amount").unwrap(), "10900000");
    assert_eq!(bars[9].get("symbol").unwrap(), "ETHUSDT");
    assert_eq!(bars[9].len(), 8);
}

#[test]
fn supported_periods() {
    assert!(supports_period("12h"));
    assert!(supports_period("1d"));
    assert!(!supports_period("1w"));
    assert!(!supports_period("3m"));
}

#[test]
fn tianqin_symbols_and_names() {
    let symbols = tq_connector::get_symbols();
    assert_eq!(symbols.len(), 71);
    assert_eq!(symbols[0], "KQ.m@SHFE.rb");
    assert_eq!(symbols[70], "KQ.m@CFFEX.IM");
    let names = tq_connector::future_name_map();
    assert_eq!(names.len(), 77);
    assert_eq!(names.get("AO").unwrap(), "氧化铝");
    assert_eq!(names.get("SCTAS").unwrap(), "原油TAS指令");
    assert_eq!(names.get("SI").unwrap(), "工业硅");
    assert!(names.get("XX").is_none());
}

#[test]
fn tushare_symbols_by_step() {
    let index = ts_connector::get_symbols("index");
    assert_eq!(index.len(), 11);
    assert_eq!(index[0], "000905.SH#I");
    let stock = ts_connector::get_symbols("stock");
    assert_eq!(stock, vec!["000001.SZ#E".to_string(), "000002.SZ#E".to_string()]);
    let etfs = ts_connector::get_symbols("etfs");
    assert_eq!(etfs[2], "515880.SH#FD");
    let all = ts_connector::get_symbols("ALL");
    assert_eq!(all.len(), 16);
    assert!(all.contains(&"518880.SH#FD".to_string()));
    assert!(all.contains(&"399303.SZ#I".to_string()));
    assert!(ts_connector::get_symbols("train").is_empty());
    assert!(ts_connector::get_symbols("Index").is_empty());
}

#[test]
fn trading_ends_after_each_session() {
    assert!(trading_ended_at("15:16"));
    assert!(trading_ended_at("16:35"));
    assert!(!trading_ended_at("16:36"));
    assert!(!trading_ended_at("15:15"));
    assert!(trading_ended_at("02:31"));
    assert!(trading_ended_at("04:00"));
    assert!(!trading_ended_at("02:30"));
    assert!(!trading_ended_at("12:00"));
    let _ = is_trading_end();
    assert_eq!(bar_end_secs("1672531200000000000"), 1672531260);
    assert_eq!(bar_end_secs("x"), 60);
    assert_eq!(bar_end_secs("-1500000000"), 59);
}

#[test]
fn latest_klines_are_the_sample_bars() {
    let bars = get_latest_klines("BTCUSDT", "1m", None, "币安期货");
    assert_eq!(bars.len(), 10);
    assert_eq!(bars[0].get("symbol"), get_raw_bars("BTCUSDT", "1m", "a", "b", "x")[0].get("symbol"));
}
