//! The CCXT source: sample instruments, sample bars and period names.
use vstd::prelude::*;
use vstd::hash_map::StringHashMap;
use crate::enums::Freq;
use crate::text::{chars_of, chars_eq_str, push_nat, push_str, put_text, put_string, text_values, nat_text, str_eq};

verus! {

/// The sample instruments of the CCXT source for an exchange, keyed by symbol.
pub open spec fn ccxt_symbol_table(exchange: Seq<char>) -> Map<Seq<char>, Seq<char>> {
    if exchange == "币安期货"@ {
        Map::empty().insert("BTCUSDT"@, "BTC/USDT"@).insert("ETHUSDT"@, "ETH/USDT"@).insert(
            "ADAUSDT"@,
            "ADA/USDT"@,
        )
    } else if exchange == "币安现货"@ {
        Map::empty().insert("BTCUSDT"@, "BTC/USDT"@).insert("ETHUSDT"@, "ETH/USDT"@).insert(
            "BNBUSDT"@,
            "BNB/USDT"@,
        )
    } else {
        Map::empty()
    }
}

/// The sample instruments of an exchange (`ccxt_connector::get_symbols`); none for an
/// exchange that is not supported.
pub fn get_symbols(exchange: &str) -> (r: StringHashMap<String>)
    ensures
        text_values(r@) == ccxt_symbol_table(exchange@),
{
    let mut m: StringHashMap<String> = StringHashMap::new();
    assert(text_values(m@) =~= Map::empty());
    if str_eq(exchange, "币安期货") {
        put_text(&mut m, "BTCUSDT", "BTC/USDT");
        put_text(&mut m, "ETHUSDT", "ETH/USDT");
        put_text(&mut m, "ADAUSDT", "ADA/USDT");
    } else if str_eq(exchange, "币安现货") {
        put_text(&mut m, "BTCUSDT", "BTC/USDT");
        put_text(&mut m, "ETHUSDT", "ETH/USDT");
        put_text(&mut m, "BNBUSDT", "BNB/USDT");
    }
    m
}

/// The bar periods that the CCXT source serves.
pub open spec fn is_supported_period(p: Seq<char>) -> bool {
    ||| p == "1m"@
    ||| p == "5m"@
    ||| p == "15m"@
    ||| p == "30m"@
    ||| p == "1h"@
    ||| p == "2h"@
    ||| p == "4h"@
    ||| p == "6h"@
    ||| p == "8h"@
    ||| p == "12h"@
    ||| p == "1d"@
}

/// Whether the CCXT source serves bars of `period`.
pub fn supports_period(period: &str) -> (r: bool)
    ensures
        r == is_supported_period(period@),
{
    let v = chars_of(period);
    chars_eq_str(&v, "1m") || chars_eq_str(&v, "5m") || chars_eq_str(&v, "15m")
        || chars_eq_str(&v, "30m") || chars_eq_str(&v, "1h") || chars_eq_str(&v, "2h")
        || chars_eq_str(&v, "4h") || chars_eq_str(&v, "6h") || chars_eq_str(&v, "8h")
        || chars_eq_str(&v, "12h") || chars_eq_str(&v, "1d")
}

/// The `i`-th sample bar of `symbol`: a row of texts keyed by field name.
pub open spec fn sample_bar_row(symbol: Seq<char>, i: nat) -> Map<Seq<char>, Seq<char>> {
    Map::empty()
        .insert("dt"@, "2024-01-01T10:0"@ + nat_text(i) + ":00+08:00"@)
        .insert("open"@, nat_text(10000 + 10 * i))
        .insert("high"@, nat_text(10050 + 10 * i))
        .insert("low"@, nat_text(9950 + 10 * i))
        .insert("close"@, nat_text(10030 + 10 * i))
        .insert("vol"@, nat_text(1000 + 100 * i))
        .insert("amount"@, nat_text(10000000 + 100000 * i))
        .insert("symbol"@, symbol)
}

fn number_text(n: u64) -> (s: String)
    ensures
        s@ == nat_text(n as nat),
{
    let mut s = String::new();
    push_nat(&mut s, n);
    assert(s@ =~= nat_text(n as nat));
    s
}

fn sample_bar(symbol: &str, i: u64) -> (r: StringHashMap<String>)
    requires
        i < 10,
    ensures
        text_values(r@) == sample_bar_row(symbol@, i as nat),
{
    let mut m: StringHashMap<String> = StringHashMap::new();
    assert(text_values(m@) =~= Map::empty());
    let mut dt = String::new();
    push_str(&mut dt, "2024-01-01T10:0");
    push_nat(&mut dt, i);
    push_str(&mut dt, ":00+08:00");
    put_string(&mut m, "dt", dt);
    put_string(&mut m, "open", number_text(10000 + 10 * i));
    put_string(&mut m, "high", number_text(10050 + 10 * i));
    put_string(&mut m, "low", number_text(9950 + 10 * i));
    put_string(&mut m, "close", number_text(10030 + 10 * i));
    put_string(&mut m, "vol", number_text(1000 + 100 * i));
    put_string(&mut m, "amount", number_text(10000000 + 100000 * i));
    put_text(&mut m, "symbol", symbol);
    m
}

/// Ten sample one-step bars of `symbol` (the CCXT source's `get_raw_bars`); the
/// period must be one that the source serves.
pub fn get_raw_bars(symbol: &str, period: &str, sdt: &str, edt: &str, exchange: &str) -> (r: Vec<
    StringHashMap<String>,
>)
    requires
        is_supported_period(period@),
    ensures
        r@.len() == 10,
        forall|i: int| 0 <= i < 10 ==> text_values(#[trigger] r@[i]@) == sample_bar_row(symbol@, i as nat),
{
    let mut out: Vec<StringHashMap<String>> = Vec::new();
    let mut i: u64 = 0;
    while i < 10
        invariant
            i <= 10,
            out@.len() == i,
            forall|j: int| 0 <= j < i ==> text_values(#[trigger] out@[j]@) == sample_bar_row(symbol@, j as nat),
        decreases 10 - i,
    {
        let row = sample_bar(symbol, i);
        out.push(row);
        i = i + 1;
    }
    out
}

/// The local wall-clock time written as `%Y-%m-%d %H:%M:%S` by chrono. Nothing is
/// claimed of it: it depends on the clock and on the machine's time zone.
#[verifier::external_body]
fn local_now_text() -> String {
    chrono::Local::now().format("%Y-%m-%d %H:%M:%S").to_string()
}

/// The bars of `symbol` from `sdt` (2017-01-01 by default) up to now, by the local
/// clock (see `get_raw_bars`, whose bars do not depend on the dates).
pub fn get_latest_klines(symbol: &str, period: &str, sdt: Option<&str>, exchange: &str) -> (r: Vec<StringHashMap<String>>)
    requires
        is_supported_period(period@),
    ensures
        r@.len() == 10,
        forall|i: int| 0 <= i < 10 ==> text_values(#[trigger] r@[i]@) == sample_bar_row(symbol@, i as nat),
{
    let start = match sdt {
        Some(t) => t,
        None => "2017-01-01",
    };
    let end = local_now_text();
    get_raw_bars(symbol, period, start, end.as_str(), exchange)
}

/// The period that a CCXT period name stands for; a name it does not know counts as
/// one minute.
pub open spec fn period_freq(p: Seq<char>) -> Freq {
    if p == "1m"@ { Freq::F1 }
    else if p == "5m"@ { Freq::F5 }
    else if p == "15m"@ { Freq::F15 }
    else if p == "30m"@ { Freq::F30 }
    else if p == "1h"@ { Freq::F60 }
    else if p == "4h"@ { Freq::F60 }
    else if p == "1d"@ { Freq::D }
    else if p == "1w"@ { Freq::W }
    else if p == "1M"@ { Freq::M }
    else { Freq::F1 }
}

/// Converts a CCXT period name to a bar period.
pub fn period_to_freq(period: &str) -> (r: Freq)
    ensures
        r == period_freq(period@),
{
    let v = chars_of(period);
    if chars_eq_str(&v, "1m") { Freq::F1 }
    else if chars_eq_str(&v, "5m") { Freq::F5 }
    else if chars_eq_str(&v, "15m") { Freq::F15 }
    else if chars_eq_str(&v, "30m") { Freq::F30 }
    else if chars_eq_str(&v, "1h") { Freq::F60 }
    else if chars_eq_str(&v, "4h") { Freq::F60 }
    else if chars_eq_str(&v, "1d") { Freq::D }
    else if chars_eq_str(&v, "1w") { Freq::W }
    else if chars_eq_str(&v, "1M") { Freq::M }
    else { Freq::F1 }
}

} // verus!
