//! Signals that describe the market context.
use vstd::prelude::*;
use crate::objects::{Signal, signal_text};
use crate::text::{int_text, owned, push_int, push_str};

verus! {

/// The mood that the shares of bullish and bearish signals among `total` signals
/// show (at least one signal is counted): a bullish share above 60% is extreme
/// optimism, above 40% optimism; otherwise a bearish share above 60% is extreme
/// pessimism, above 40% pessimism; anything else is neutral.
pub open spec fn sentiment_label(bullish: int, bearish: int, total: int) -> Seq<char> {
    let t = if total < 1 { 1 } else { total };
    if 10 * bullish > 6 * t {
        "极度乐观"@
    } else if 10 * bullish > 4 * t {
        "乐观"@
    } else if 10 * bearish > 6 * t {
        "极度悲观"@
    } else if 10 * bearish > 4 * t {
        "悲观"@
    } else {
        "中性"@
    }
}

/// The market-sentiment signal of period `freq`, from the counts of bullish and
/// bearish signals among `total_count`.
pub fn cxt_market_sentiment_v230414(freq: &str, bullish_count: i32, bearish_count: i32, total_count: i32) -> (r: Signal)
    ensures
        r.k1@ == freq@,
        r.k2@ == "情绪_状态V230414"@,
        r.k3@ == "情绪"@,
        r.v1@ == sentiment_label(bullish_count as int, bearish_count as int, total_count as int),
        r.v2@ == "任意"@,
        r.v3@ == "任意"@,
        r.score == 0,
        r.signal@ == signal_text(r.k1@, r.k2@, r.k3@, r.v1@, r.v2@, r.v3@, 0),
{
    let total: i64 = if total_count < 1 { 1 } else { total_count as i64 };
    let b = bullish_count as i64;
    let s = bearish_count as i64;
    let v1 = if 10 * b > 6 * total {
        owned("极度乐观")
    } else if 10 * b > 4 * total {
        owned("乐观")
    } else if 10 * s > 6 * total {
        owned("极度悲观")
    } else if 10 * s > 4 * total {
        owned("悲观")
    } else {
        owned("中性")
    };
    Signal::new(owned(freq), owned("情绪_状态V230414"), owned("情绪"), v1, owned("任意"), owned("任意"), 0)
}


/// The trend the close shows against its moving average: above it is a bull
/// trend, otherwise a bear trend.
pub open spec fn ma_trend_label(close: int, ma_value: int) -> Seq<char> {
    if close > ma_value {
        "多头趋势"@
    } else {
        "空头趋势"@
    }
}

/// The moving-average trend signal of period `freq`: the moving average type
/// (`SMA` by default) and period (20 by default) name it, and the close against
/// the average's value decides it (`ma_trend_label`).
pub fn cxt_ma_trend_v230414(freq: &str, ma_type: Option<&str>, timeperiod: Option<i32>, close: i64, ma_value: i64) -> (r: Signal)
    ensures
        r.k1@ == freq@,
        r.k2@ == (match ma_type {
            Some(t) => t@,
            None => "SMA"@,
        }) + "#"@ + int_text(match timeperiod {
            Some(p) => p as int,
            None => 20,
        }) + "#MA_趋势V230414"@,
        r.k3@ == "状态"@,
        r.v1@ == ma_trend_label(close as int, ma_value as int),
        r.v2@ == "任意"@,
        r.v3@ == "任意"@,
        r.score == 0,
        r.signal@ == signal_text(r.k1@, r.k2@, r.k3@, r.v1@, r.v2@, r.v3@, 0),
{
    let t = match ma_type {
        Some(t) => t,
        None => "SMA",
    };
    let p: i32 = match timeperiod {
        Some(p) => p,
        None => 20,
    };
    let mut k2 = owned(t);
    push_str(&mut k2, "#");
    push_int(&mut k2, p as i64);
    push_str(&mut k2, "#MA_趋势V230414");
    let v1 = if close > ma_value {
        owned("多头趋势")
    } else {
        owned("空头趋势")
    };
    Signal::new(owned(freq), k2, owned("状态"), v1, owned("任意"), owned("任意"), 0)
}

/// Whether the averages fall strictly from the shortest to the longest period.
pub open spec fn strictly_falling(s: Seq<i64>) -> bool {
    forall|i: int| 1 <= i < s.len() ==> s[i - 1] > #[trigger] s[i]
}

/// Whether the averages rise strictly from the shortest to the longest period.
pub open spec fn strictly_rising(s: Seq<i64>) -> bool {
    forall|i: int| 1 <= i < s.len() ==> s[i - 1] < #[trigger] s[i]
}

/// The arrangement of moving averages ordered from the shortest period to the
/// longest: falling is a bull arrangement, otherwise rising a bear one, anything
/// else ranging.
pub open spec fn ma_arrangement_label(s: Seq<i64>) -> Seq<char> {
    if strictly_falling(s) {
        "多头排列"@
    } else if strictly_rising(s) {
        "空头排列"@
    } else {
        "震荡"@
    }
}

/// The moving-average arrangement signal of period `freq` (see
/// `ma_arrangement_label`).
pub fn cxt_ma_arrangement_v230414(freq: &str, ma_values: &[i64]) -> (r: Signal)
    ensures
        r.k1@ == freq@,
        r.k2@ == "MA排列_趋势V230414"@,
        r.k3@ == "状态"@,
        r.v1@ == ma_arrangement_label(ma_values@),
        r.v2@ == "任意"@,
        r.v3@ == "任意"@,
        r.score == 0,
        r.signal@ == signal_text(r.k1@, r.k2@, r.k3@, r.v1@, r.v2@, r.v3@, 0),
{
    let mut bullish = true;
    let mut bearish = true;
    let mut i: usize = 1;
    while i < ma_values.len()
        invariant
            1 <= i,
            i <= ma_values@.len() || ma_values@.len() == 0,
            bullish == (forall|j: int| 1 <= j < i && j < ma_values@.len() ==> ma_values@[j - 1] > #[trigger] ma_values@[j]),
            bearish == (forall|j: int| 1 <= j < i && j < ma_values@.len() ==> ma_values@[j - 1] < #[trigger] ma_values@[j]),
        decreases ma_values.len() - i,
    {
        if ma_values[i - 1] <= ma_values[i] {
            bullish = false;
        }
        if ma_values[i - 1] >= ma_values[i] {
            bearish = false;
        }
        i = i + 1;
    }
    let v1 = if bullish {
        owned("多头排列")
    } else if bearish {
        owned("空头排列")
    } else {
        owned("震荡")
    };
    Signal::new(owned(freq), owned("MA排列_趋势V230414"), owned("状态"), v1, owned("任意"), owned("任意"), 0)
}

/// The absolute value of an integer.
pub open spec fn abs(x: int) -> int {
    if x < 0 {
        -x
    } else {
        x
    }
}

/// The strength of a price change against the average change: more than twice
/// it is strong, more than it medium, otherwise (or with no average change) weak.
pub open spec fn strength_label(price_change: int, avg_change: int) -> Seq<char> {
    if avg_change != 0 && abs(price_change) > 2 * abs(avg_change) {
        "强势"@
    } else if avg_change != 0 && abs(price_change) > abs(avg_change) {
        "中势"@
    } else {
        "弱势"@
    }
}

/// The trend-strength signal of period `freq`: its strength
/// (`strength_label`), and bull for a rising price, else bear.
pub fn cxt_trend_strength_v230414(freq: &str, price_change: i64, avg_change: i64) -> (r: Signal)
    ensures
        r.k1@ == freq@,
        r.k2@ == "趋势_强度V230414"@,
        r.k3@ == "强度"@,
        r.v1@ == strength_label(price_change as int, avg_change as int),
        r.v2@ == if price_change > 0 {
            "多头"@
        } else {
            "空头"@
        },
        r.v3@ == "任意"@,
        r.score == 0,
        r.signal@ == signal_text(r.k1@, r.k2@, r.k3@, r.v1@, r.v2@, r.v3@, 0),
{
    let p: i128 = if price_change < 0 {
        0 - (price_change as i128)
    } else {
        price_change as i128
    };
    let a: i128 = if avg_change < 0 {
        0 - (avg_change as i128)
    } else {
        avg_change as i128
    };
    let v1 = if avg_change != 0 && p > 2 * a {
        owned("强势")
    } else if avg_change != 0 && p > a {
        owned("中势")
    } else {
        owned("弱势")
    };
    let v2 = if price_change > 0 {
        owned("多头")
    } else {
        owned("空头")
    };
    Signal::new(owned(freq), owned("趋势_强度V230414"), owned("强度"), v1, v2, owned("任意"), 0)
}

/// Whether the ratio `current / baseline` is above `tenths / 10`; a zero
/// baseline makes the ratio infinite in the sign of `current` (and undefined, so
/// above nothing, when both are zero).
pub open spec fn ratio_above(current: int, baseline: int, tenths: int) -> bool {
    if baseline > 0 {
        10 * current > tenths * baseline
    } else if baseline < 0 {
        10 * current < tenths * baseline
    } else {
        current > 0
    }
}

/// The market phase the price ratio to the baseline shows: above 1.3 a bull run,
/// above 1.1 a bull pullback, above 0.9 ranging, above 0.7 a bear rally, else a
/// bear run.
pub open spec fn phase_label(current: int, baseline: int) -> Seq<char> {
    if ratio_above(current, baseline, 13) {
        "牛市主升"@
    } else if ratio_above(current, baseline, 11) {
        "牛市回调"@
    } else if ratio_above(current, baseline, 9) {
        "震荡"@
    } else if ratio_above(current, baseline, 7) {
        "熊市反弹"@
    } else {
        "熊市主跌"@
    }
}

fn above(current: i64, baseline: i64, tenths: i128) -> (r: bool)
    requires
        0 < tenths <= 13,
    ensures
        r == ratio_above(current as int, baseline as int, tenths as int),
{
    let c = current as i128;
    let b = baseline as i128;
    assert(-13 * 0x8000_0000_0000_0000 <= tenths * b <= 13 * 0x8000_0000_0000_0000) by (nonlinear_arith)
        requires
            0 < tenths <= 13,
            -0x8000_0000_0000_0000 <= b <= 0x8000_0000_0000_0000,
    ;
    if b > 0 {
        10 * c > tenths * b
    } else if b < 0 {
        10 * c < tenths * b
    } else {
        c > 0
    }
}

/// The market-phase signal of period `freq` over `period` (see `phase_label`).
pub fn cxt_market_phase_v230414(freq: &str, current_price: i64, baseline_price: i64, period: &str) -> (r: Signal)
    ensures
        r.k1@ == freq@,
        r.k2@ == period@ + "_阶段V230414"@,
        r.k3@ == "阶段"@,
        r.v1@ == phase_label(current_price as int, baseline_price as int),
        r.v2@ == "任意"@,
        r.v3@ == "任意"@,
        r.score == 0,
        r.signal@ == signal_text(r.k1@, r.k2@, r.k3@, r.v1@, r.v2@, r.v3@, 0),
{
    let v1 = if above(current_price, baseline_price, 13) {
        owned("牛市主升")
    } else if above(current_price, baseline_price, 11) {
        owned("牛市回调")
    } else if above(current_price, baseline_price, 9) {
        owned("震荡")
    } else if above(current_price, baseline_price, 7) {
        owned("熊市反弹")
    } else {
        owned("熊市主跌")
    };
    let mut k2 = owned(period);
    push_str(&mut k2, "_阶段V230414");
    Signal::new(owned(freq), k2, owned("阶段"), v1, owned("任意"), owned("任意"), 0)
}
} // verus!
