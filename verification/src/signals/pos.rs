//! Signals about a held position: holding state, stops and holding quality.
//! Prices are integers in the instrument's smallest unit.
use vstd::prelude::*;
use crate::bars::{FX, FXView, RawBar, fx_views, raw_views, RawBarView};
use crate::enums::{Mark, Operate};
use crate::objects::Signal;
use crate::text::{owned, push_int, push_nat, push_str, split_chars, split_on, string_of_chars, int_text, nat_text};

verus! {

/// The first `_`-separated piece of a text.
pub open spec fn first_piece(s: Seq<char>) -> Seq<char> {
    split_on(s, '_')[0]
}

fn first_piece_of(s: &String) -> (r: String)
    ensures
        r@ == first_piece(s@),
{
    let v = crate::text::chars_of(s.as_str());
    let parts = split_chars(&v, '_');
    proof {
        crate::text::lemma_split_on_nonempty(v@, '_');
        assert(crate::text::pieces_view(parts@)[0] == parts@[0]@);
    }
    string_of_chars(&parts[0])
}

/// `(v1, v2)` of the holding-state signal: long above the open price, short
/// below it, otherwise neither.
pub open spec fn ma_state(latest_price: i64, open_price: i64, operate: Operate) -> (Seq<char>, Seq<char>) {
    if operate == Operate::LO && latest_price > open_price {
        ("多头"@, "升破均线"@)
    } else if operate == Operate::SO && latest_price < open_price {
        ("空头"@, "跌破均线"@)
    } else {
        ("其他"@, "其他"@)
    }
}

/// The holding-state signal of position `pos_name` on period `freq1`: whether
/// the latest price has moved past the open price in the position's direction.
/// The average type defaults to `SMA` and the period to 5.
pub fn pos_ma_v230414(
    pos_name: &str,
    freq1: &str,
    ma_type: Option<&str>,
    timeperiod: Option<i32>,
    latest_price: i64,
    open_price: i64,
    operate: Operate,
) -> (r: Signal)
    ensures
        ({
            let ma = match ma_type {
                Some(t) => t@,
                None => "SMA"@,
            };
            let tp = match timeperiod {
                Some(t) => t as int,
                None => 5,
            };
            let k2 = freq1@ + "#"@ + ma + "#"@ + int_text(tp) + "_持有状态V230414"@;
            &&& r.k1@ == first_piece(pos_name@ + "_"@ + k2)
            &&& r.k2@ == k2
            &&& r.k3@ == "其他"@
            &&& (r.v1@, r.v2@) == ma_state(latest_price, open_price, operate)
            &&& r.v3@ == "任意"@
            &&& r.score == 0
        }),
{
    let ma = match ma_type {
        Some(t) => t,
        None => "SMA",
    };
    let tp: i32 = match timeperiod {
        Some(t) => t,
        None => 5,
    };
    let mut k2 = owned(freq1);
    push_str(&mut k2, "#");
    push_str(&mut k2, ma);
    push_str(&mut k2, "#");
    push_int(&mut k2, tp as i64);
    push_str(&mut k2, "_持有状态V230414");
    let mut full = owned(pos_name);
    push_str(&mut full, "_");
    push_str(&mut full, k2.as_str());
    let k1 = first_piece_of(&full);
    let (v1, v2) = if operate == Operate::LO && latest_price > open_price {
        (owned("多头"), owned("升破均线"))
    } else if operate == Operate::SO && latest_price < open_price {
        (owned("空头"), owned("跌破均线"))
    } else {
        (owned("其他"), owned("其他"))
    };
    Signal::new(k1, k2, owned("其他"), v1, v2, owned("任意"), 0)
}

/// The last `n` items of a sequence (all of them when there are fewer).
pub open spec fn last_n(s: Seq<i64>, n: nat) -> Seq<i64> {
    if s.len() > n { s.skip(s.len() - n) } else { s }
}

/// The smallest item of a non-empty sequence.
pub open spec fn seq_min(s: Seq<i64>) -> i64
    decreases s.len(),
{
    if s.len() <= 1 {
        s[0]
    } else if s.last() < seq_min(s.drop_last()) {
        s.last()
    } else {
        seq_min(s.drop_last())
    }
}

/// The largest item of a non-empty sequence.
pub open spec fn seq_max(s: Seq<i64>) -> i64
    decreases s.len(),
{
    if s.len() <= 1 {
        s[0]
    } else if s.last() > seq_max(s.drop_last()) {
        s.last()
    } else {
        seq_max(s.drop_last())
    }
}

/// The lows (or highs) of the fractals with mark `mark`, in order.
pub open spec fn marked_prices(fxs: Seq<FXView>, mark: Mark, lows: bool) -> Seq<i64>
    decreases fxs.len(),
{
    if fxs.len() == 0 {
        Seq::empty()
    } else {
        let before = marked_prices(fxs.drop_last(), mark, lows);
        if fxs.last().mark == mark {
            before.push(if lows { fxs.last().low } else { fxs.last().high })
        } else {
            before
        }
    }
}

/// Whether the latest price breaks the extreme of `prices`: below their lowest
/// (`below`), or above their highest; an empty list of prices is broken.
pub open spec fn breaks(latest: i64, prices: Seq<i64>, below: bool) -> bool {
    if prices.len() == 0 {
        true
    } else if below {
        latest < seq_min(prices)
    } else {
        latest > seq_max(prices)
    }
}

/// Whether the latest price breaks the extreme of the last `n` items of `prices`.
fn breaks_last(latest: i64, prices: &Vec<i64>, n: usize, below: bool) -> (r: bool)
    ensures
        r == breaks(latest, last_n(prices@, n as nat), below),
{
    let start = if prices.len() > n { prices.len() - n } else { 0 };
    let ghost t = last_n(prices@, n as nat);
    assert(t =~= prices@.subrange(start as int, prices@.len() as int));
    if start == prices.len() {
        return true;
    }
    let mut cur = prices[start];
    let mut j: usize = start + 1;
    assert(prices@.subrange(start as int, j as int) =~= seq![prices@[start as int]]);
    while j < prices.len()
        invariant
            start < j <= prices@.len(),
            below ==> cur == seq_min(prices@.subrange(start as int, j as int)),
            !below ==> cur == seq_max(prices@.subrange(start as int, j as int)),
        decreases prices.len() - j,
    {
        assert(prices@.subrange(start as int, j + 1).drop_last() =~= prices@.subrange(start as int, j as int));
        if below {
            if prices[j] < cur {
                cur = prices[j];
            }
        } else {
            if prices[j] > cur {
                cur = prices[j];
            }
        }
        j = j + 1;
    }
    if below { latest < cur } else { latest > cur }
}

/// The label of the fractal stop: a long position stops below the lowest of the
/// last `n` bottom fractals, a short one above the highest of the last `n` top
/// fractals; with no such fractal there is no stop.
pub open spec fn fx_stop_label(latest: i64, operate: Operate, fxs: Seq<FXView>, n: nat) -> Seq<char> {
    if operate == Operate::LO {
        let p = last_n(marked_prices(fxs, Mark::D, true), n);
        if p.len() > 0 && breaks(latest, p, true) { "多头止损"@ } else { "其他"@ }
    } else if operate == Operate::SO {
        let p = last_n(marked_prices(fxs, Mark::G, false), n);
        if p.len() > 0 && breaks(latest, p, false) { "空头止损"@ } else { "其他"@ }
    } else {
        "其他"@
    }
}

fn marked(fx_list: &[FX], mark: Mark, lows: bool) -> (r: Vec<i64>)
    ensures
        r@ == marked_prices(fx_views(fx_list@), mark, lows),
{
    let mut out: Vec<i64> = Vec::new();
    let mut i: usize = 0;
    while i < fx_list.len()
        invariant
            i <= fx_list@.len(),
            out@ == marked_prices(fx_views(fx_list@.take(i as int)), mark, lows),
        decreases fx_list.len() - i,
    {
        assert(fx_views(fx_list@.take(i + 1)).drop_last() =~= fx_views(fx_list@.take(i as int)));
        assert(fx_views(fx_list@.take(i + 1)).last() == fx_list@[i as int]@);
        if fx_list[i].mark == mark {
            out.push(if lows { fx_list[i].low } else { fx_list[i].high });
        }
        i = i + 1;
    }
    assert(fx_list@.take(fx_list@.len() as int) =~= fx_list@);
    out
}

/// The fractal-stop signal of position `pos_name` on period `freq1` (see
/// `fx_stop_label`); `n` defaults to 3.
pub fn pos_fx_stop_v230414(pos_name: &str, freq1: &str, n: Option<i32>, latest_price: i64, operate: Operate, fx_list: &[FX]) -> (r:
    Signal)
    ensures
        ({
            let nn = (match n {
                Some(x) => x,
                None => 3i32,
            }) as usize;
            &&& r.k1@ == freq1@
            &&& r.k2@ == pos_name@ + "N"@ + nat_text(nn as nat) + "_止损V230414"@
            &&& r.k3@ == "其他"@
            &&& r.v1@ == fx_stop_label(latest_price, operate, fx_views(fx_list@), nn as nat)
            &&& r.v2@ == "任意"@
            &&& r.v3@ == "任意"@
            &&& r.score == 0
        }),
{
    let nn = (match n {
        Some(x) => x,
        None => 3i32,
    }) as usize;
    let mut k2 = owned(pos_name);
    push_str(&mut k2, "N");
    push_nat(&mut k2, nn as u64);
    push_str(&mut k2, "_止损V230414");
    let v1 = if operate == Operate::LO {
        let lows = marked(fx_list, Mark::D, true);
        if lows.len() > 0 && nn > 0 && breaks_last(latest_price, &lows, nn, true) {
            owned("多头止损")
        } else {
            owned("其他")
        }
    } else if operate == Operate::SO {
        let highs = marked(fx_list, Mark::G, false);
        if highs.len() > 0 && nn > 0 && breaks_last(latest_price, &highs, nn, false) {
            owned("空头止损")
        } else {
            owned("其他")
        }
    } else {
        owned("其他")
    };
    proof {
        let p = last_n(marked_prices(fx_views(fx_list@), Mark::D, true), nn as nat);
        let q = last_n(marked_prices(fx_views(fx_list@), Mark::G, false), nn as nat);
        assert(marked_prices(fx_views(fx_list@), Mark::D, true).len() > 0 ==> (nn > 0 <==> p.len() > 0));
        assert(marked_prices(fx_views(fx_list@), Mark::G, false).len() > 0 ==> (nn > 0 <==> q.len() > 0));
    }
    Signal::new(owned(freq1), k2, owned("其他"), v1, owned("任意"), owned("任意"), 0)
}

/// The lows (or highs) of a run of bars.
pub open spec fn bar_prices(bars: Seq<RawBarView>, lows: bool) -> Seq<i64> {
    bars.map_values(|b: RawBarView| if lows { b.low } else { b.high })
}

fn prices_of(bars: &[RawBar], lows: bool) -> (r: Vec<i64>)
    ensures
        r@ == bar_prices(raw_views(bars@), lows),
{
    let mut out: Vec<i64> = Vec::new();
    let mut i: usize = 0;
    while i < bars.len()
        invariant
            i <= bars@.len(),
            out@ == bar_prices(raw_views(bars@.take(i as int)), lows),
        decreases bars.len() - i,
    {
        out.push(if lows { bars[i].low } else { bars[i].high });
        i = i + 1;
        assert(out@ =~= bar_prices(raw_views(bars@.take(i as int)), lows));
    }
    assert(bars@.take(bars@.len() as int) =~= bars@);
    out
}

/// The window of the bar stop: `n` (3 by default) kept within 1 to 20.
pub open spec fn bar_stop_window(n: Option<i32>) -> nat {
    let x = match n {
        Some(v) => v,
        None => 3i32,
    };
    if x < 1 { 1 } else if x > 20 { 20 } else { x as nat }
}

/// The label of the bar stop: a long position stops below the lowest low of the
/// last `n` bars, a short one above their highest high; with no bars it stops.
pub open spec fn bar_stop_label(latest: i64, operate: Operate, bars: Seq<RawBarView>, n: nat) -> Seq<char> {
    if operate == Operate::LO {
        if breaks(latest, last_n(bar_prices(bars, true), n), true) { "多头止损"@ } else { "其他"@ }
    } else if operate == Operate::SO {
        if breaks(latest, last_n(bar_prices(bars, false), n), false) { "空头止损"@ } else { "其他"@ }
    } else {
        "其他"@
    }
}

/// The bar-stop signal of position `pos_name` on period `freq1` (see
/// `bar_stop_label` and `bar_stop_window`).
pub fn pos_bar_stop_v230524(pos_name: &str, freq1: &str, n: Option<i32>, latest_price: i64, operate: Operate, bars: &[RawBar]) -> (r:
    Signal)
    ensures
        ({
            let k2 = freq1@ + "N"@ + nat_text(bar_stop_window(n)) + "K_止损V230524"@;
            &&& r.k1@ == first_piece(pos_name@ + "_"@ + k2)
            &&& r.k2@ == k2
            &&& r.k3@ == "其他"@
            &&& r.v1@ == bar_stop_label(latest_price, operate, raw_views(bars@), bar_stop_window(n))
            &&& r.v2@ == "任意"@
            &&& r.v3@ == "任意"@
            &&& r.score == 0
        }),
{
    let x: i32 = match n {
        Some(v) => v,
        None => 3,
    };
    let w: usize = if x < 1 { 1 } else if x > 20 { 20 } else { x as usize };
    let mut k2 = owned(freq1);
    push_str(&mut k2, "N");
    push_nat(&mut k2, w as u64);
    push_str(&mut k2, "K_止损V230524");
    let mut full = owned(pos_name);
    push_str(&mut full, "_");
    push_str(&mut full, k2.as_str());
    let k1 = first_piece_of(&full);
    let v1 = if operate == Operate::LO {
        let lows = prices_of(bars, true);
        if breaks_last(latest_price, &lows, w, true) { owned("多头止损") } else { owned("其他") }
    } else if operate == Operate::SO {
        let highs = prices_of(bars, false);
        if breaks_last(latest_price, &highs, w, false) { owned("空头止损") } else { owned("其他") }
    } else {
        owned("其他")
    };
    Signal::new(k1, k2, owned("其他"), v1, owned("任意"), owned("任意"), 0)
}

/// Whether a move of `diff` from `open`, in basis points of `open`, is below `m`;
/// from an open of zero a fall is infinitely far below and a rise or no move is not.
pub open spec fn below_bp(diff: int, open: int, m: int) -> bool {
    if open > 0 {
        10000 * diff < m * open
    } else if open < 0 {
        10000 * diff > m * open
    } else {
        diff < 0
    }
}

fn is_below_bp(diff: i128, open: i128, m: i128) -> (r: bool)
    requires
        -0x1_0000_0000_0000_0000 <= diff <= 0x1_0000_0000_0000_0000,
        -0x1_0000_0000_0000_0000 <= open <= 0x1_0000_0000_0000_0000,
        -0x1_0000_0000 <= m <= 0x1_0000_0000,
    ensures
        r == below_bp(diff as int, open as int, m as int),
{
    assert(-0x1_0000_0000_0000_0000_0000_0000 <= m * open <= 0x1_0000_0000_0000_0000_0000_0000) by (nonlinear_arith)
        requires
            -0x1_0000_0000_0000_0000 <= open <= 0x1_0000_0000_0000_0000,
            -0x1_0000_0000 <= m <= 0x1_0000_0000,
    ;
    if open > 0 {
        10000 * diff < m * open
    } else if open < 0 {
        10000 * diff > m * open
    } else {
        diff < 0
    }
}

/// The label of the holding check: with fewer than `n` bars since the open there
/// is nothing to say; otherwise a long position whose latest close gained less
/// than `m` basis points over the open price is in doubt, else going well, and a
/// short one likewise for a fall.
pub open spec fn holds_label(bars: Seq<RawBarView>, open_price: i64, operate: Operate, n: nat, m: int) -> Seq<char> {
    if bars.len() < n {
        "其他"@
    } else if operate == Operate::LO {
        if below_bp(bars.last().close - open_price, open_price as int, m) { "多头存疑"@ } else { "多头良好"@ }
    } else if operate == Operate::SO {
        if below_bp(open_price - bars.last().close, open_price as int, m) { "空头存疑"@ } else { "空头良好"@ }
    } else {
        "其他"@
    }
}

/// The holding-check signal of position `pos_name` on period `freq1` (see
/// `holds_label`): `n` defaults to 5 bars and `m` to 100 basis points; the
/// gain is computed exactly. With `n` zero there must be a bar to read.
pub fn pos_holds_v230414(
    pos_name: &str,
    freq1: &str,
    n: Option<i32>,
    m: Option<i32>,
    bars_after_open: &[RawBar],
    open_price: i64,
    operate: Operate,
) -> (r: Signal)
    requires
        bars_after_open@.len() > 0 || (match n {
            Some(x) => x,
            None => 5i32,
        }) as usize > 0,
    ensures
        ({
            let nn = (match n {
                Some(x) => x,
                None => 5i32,
            }) as usize;
            let mm = match m {
                Some(x) => x,
                None => 100i32,
            };
            let k2 = freq1@ + "N"@ + nat_text(nn as nat) + "M"@ + int_text(mm as int) + "_趋势判断V230414"@;
            &&& r.k1@ == first_piece(pos_name@ + "_"@ + k2)
            &&& r.k2@ == k2
            &&& r.k3@ == "其他"@
            &&& r.v1@ == holds_label(raw_views(bars_after_open@), open_price, operate, nn as nat, mm as int)
            &&& r.v2@ == "任意"@
            &&& r.v3@ == "任意"@
            &&& r.score == 0
        }),
{
    let nn = (match n {
        Some(x) => x,
        None => 5i32,
    }) as usize;
    let mm: i32 = match m {
        Some(x) => x,
        None => 100,
    };
    let mut k2 = owned(freq1);
    push_str(&mut k2, "N");
    push_nat(&mut k2, nn as u64);
    push_str(&mut k2, "M");
    push_int(&mut k2, mm as i64);
    push_str(&mut k2, "_趋势判断V230414");
    let mut full = owned(pos_name);
    push_str(&mut full, "_");
    push_str(&mut full, k2.as_str());
    let k1 = first_piece_of(&full);
    let ghost views = raw_views(bars_after_open@);
    let v1 = if bars_after_open.len() < nn {
        owned("其他")
    } else {
        let close = bars_after_open[bars_after_open.len() - 1].close;
        assert(views.last() == bars_after_open@[bars_after_open@.len() - 1]@);
        if operate == Operate::LO {
            if is_below_bp(close as i128 - open_price as i128, open_price as i128, mm as i128) {
                owned("多头存疑")
            } else {
                owned("多头良好")
            }
        } else if operate == Operate::SO {
            if is_below_bp(open_price as i128 - close as i128, open_price as i128, mm as i128) {
                owned("空头存疑")
            } else {
                owned("空头良好")
            }
        } else {
            owned("其他")
        }
    };
    Signal::new(k1, k2, owned("其他"), v1, owned("任意"), owned("任意"), 0)
}

} // verus!
