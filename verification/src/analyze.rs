//! The core analysis: removing inclusion between bars, finding fractals,
//! and finding the first stroke in a run of bars.
use vstd::prelude::*;
use crate::bars::{
    copy_fxs, copy_new_bars, fx_views, max_i64, min_i64, new_views, raw_views, BIView, FXView,
    NewBar, NewBarView, RawBar, RawBarView, BI, FX,
};
use crate::enums::{Direction, Mark};

verus! {

/// The merged bar made of a single raw bar.
pub open spec fn single_view(k3: RawBarView) -> NewBarView {
    NewBarView {
        symbol: k3.symbol,
        id: k3.id,
        dt: k3.dt,
        freq: k3.freq,
        open: k3.open,
        close: k3.close,
        high: k3.high,
        low: k3.low,
        vol: k3.vol,
        amount: k3.amount,
        elements: seq![k3],
    }
}

/// One of the two bars lies within the other's range.
pub open spec fn contains_range(k2: NewBarView, k3: RawBarView) -> bool {
    (k2.high <= k3.high && k2.low >= k3.low) || (k2.high >= k3.high && k2.low <= k3.low)
}

/// `k3` is merged into `k2`: the trend from `k1` to `k2` is defined and the
/// ranges of `k2` and `k3` include one another.
pub open spec fn merges(k1: NewBarView, k2: NewBarView, k3: RawBarView) -> bool {
    k1.high != k2.high && contains_range(k2, k3)
}

/// The raw bars of `s` whose time differs from `dt`, in order.
pub open spec fn without_dt(s: Seq<RawBarView>, dt: i64) -> Seq<RawBarView>
    decreases s.len(),
{
    if s.len() == 0 {
        s
    } else if s.last().dt != dt {
        without_dt(s.drop_last(), dt).push(s.last())
    } else {
        without_dt(s.drop_last(), dt)
    }
}

/// The bar that merging `k3` into `k2` gives, the trend being up when `k1`
/// has a lower high than `k2`: the extreme high and low in the direction of
/// the trend, the time of the bar holding the extreme, open and close from
/// `k3`'s direction, summed volume and amount, and the raw bars (at most the
/// first 100 of `k2`, without any at `k3`'s time, then `k3`).
pub open spec fn merged_view(k1: NewBarView, k2: NewBarView, k3: RawBarView) -> NewBarView {
    let up = k1.high < k2.high;
    let high = if up { max_i64(k2.high, k3.high) } else { min_i64(k2.high, k3.high) };
    let low = if up { max_i64(k2.low, k3.low) } else { min_i64(k2.low, k3.low) };
    let dt = if up {
        if k2.high > k3.high { k2.dt } else { k3.dt }
    } else {
        if k2.low < k3.low { k2.dt } else { k3.dt }
    };
    let kept = if k2.elements.len() <= 100 { k2.elements } else { k2.elements.take(100) };
    NewBarView {
        symbol: k3.symbol,
        id: k2.id,
        dt,
        freq: k2.freq,
        open: if k3.open > k3.close { high } else { low },
        close: if k3.open > k3.close { low } else { high },
        high,
        low,
        vol: (k2.vol + k3.vol) as i64,
        amount: (k2.amount + k3.amount) as i64,
        elements: without_dt(kept, k3.dt).push(k3),
    }
}

/// What removing inclusion gives: whether `k3` was merged, and the bar.
pub open spec fn include_view(k1: NewBarView, k2: NewBarView, k3: RawBarView) -> (bool, NewBarView) {
    if merges(k1, k2, k3) {
        (true, merged_view(k1, k2, k3))
    } else {
        (false, single_view(k3))
    }
}

fn single_bar(k3: &RawBar) -> (r: NewBar)
    ensures
        r@ == single_view(k3@),
{
    let mut elements: Vec<RawBar> = Vec::new();
    elements.push(k3.duplicate());
    let r = NewBar {
        symbol: k3.symbol.clone(),
        id: k3.id,
        dt: k3.dt,
        freq: k3.freq,
        open: k3.open,
        close: k3.close,
        high: k3.high,
        low: k3.low,
        vol: k3.vol,
        amount: k3.amount,
        elements,
    };
    assert(r@.elements =~= seq![k3@]);
    r
}

/// Removes inclusion: given two merged bars `k1`, `k2` without inclusion and
/// the next raw bar `k3`, merges `k3` into `k2` when their ranges include
/// one another (and `k1`, `k2` set a trend), else starts a new bar of `k3`.
pub fn remove_include(k1: &NewBar, k2: &NewBar, k3: &RawBar) -> (r: (bool, NewBar))
    requires
        merges(k1@, k2@, k3@) ==> i64::MIN <= k2.vol + k3.vol <= i64::MAX,
        merges(k1@, k2@, k3@) ==> i64::MIN <= k2.amount + k3.amount <= i64::MAX,
    ensures
        (r.0, r.1@) == include_view(k1@, k2@, k3@),
{
    if k1.high == k2.high {
        return (false, single_bar(k3));
    }
    let up = k1.high < k2.high;
    if (k2.high <= k3.high && k2.low >= k3.low) || (k2.high >= k3.high && k2.low <= k3.low) {
        let (high, low, dt) = if up {
            let high = if k2.high >= k3.high { k2.high } else { k3.high };
            let low = if k2.low >= k3.low { k2.low } else { k3.low };
            let dt = if k2.high > k3.high { k2.dt } else { k3.dt };
            (high, low, dt)
        } else {
            let high = if k2.high <= k3.high { k2.high } else { k3.high };
            let low = if k2.low <= k3.low { k2.low } else { k3.low };
            let dt = if k2.low < k3.low { k2.dt } else { k3.dt };
            (high, low, dt)
        };
        let (open, close) = if k3.open > k3.close { (high, low) } else { (low, high) };
        let n = if k2.elements.len() <= 100 { k2.elements.len() } else { 100 };
        let ghost kept = k2@.elements.take(n as int);
        let mut elements: Vec<RawBar> = Vec::new();
        let mut i: usize = 0;
        assert(kept.take(0) =~= Seq::<RawBarView>::empty());
        while i < n
            invariant
                n <= k2.elements@.len(),
                i <= n,
                kept == raw_views(k2.elements@).take(n as int),
                raw_views(elements@) == without_dt(kept.take(i as int), k3.dt),
            decreases n - i,
        {
            assert(kept.take(i + 1).drop_last() =~= kept.take(i as int));
            assert(kept.take(i + 1).last() == k2.elements@[i as int]@);
            if k2.elements[i].dt != k3.dt {
                let ghost before = elements@;
                elements.push(k2.elements[i].duplicate());
                assert(raw_views(elements@) =~= raw_views(before).push(k2.elements@[i as int]@));
            }
            i = i + 1;
        }
        assert(kept.take(n as int) =~= kept);
        let ghost before = elements@;
        elements.push(k3.duplicate());
        assert(raw_views(elements@) =~= raw_views(before).push(k3@));
        let r = NewBar {
            symbol: k3.symbol.clone(),
            id: k2.id,
            dt,
            freq: k2.freq,
            open,
            close,
            high,
            low,
            vol: k2.vol + k3.vol,
            amount: k2.amount + k3.amount,
            elements,
        };
        assert(k2@.elements.len() > 100 ==> kept == k2@.elements.take(100));
        assert(k2@.elements.len() <= 100 ==> kept =~= k2@.elements);
        assert(r@ == merged_view(k1@, k2@, k3@));
        (true, r)
    } else {
        (false, single_bar(k3))
    }
}

} // verus!

verus! {

/// `k2` is a top fractal's middle bar: both its high and low exceed its neighbours'.
pub open spec fn is_top(k1: NewBarView, k2: NewBarView, k3: NewBarView) -> bool {
    k1.high < k2.high && k2.high > k3.high && k1.low < k2.low && k2.low > k3.low
}

/// `k2` is a bottom fractal's middle bar: both its low and high are below its neighbours'.
pub open spec fn is_bottom(k1: NewBarView, k2: NewBarView, k3: NewBarView) -> bool {
    k1.low > k2.low && k2.low < k3.low && k1.high > k2.high && k2.high < k3.high
}

/// The fractal that three merged bars form, if any; a top is checked first.
pub open spec fn fx_of(k1: NewBarView, k2: NewBarView, k3: NewBarView) -> Option<FXView> {
    if is_top(k1, k2, k3) {
        Some(FXView { symbol: k1.symbol, dt: k2.dt, mark: Mark::G, high: k2.high, low: k2.low, fx: k2.high, elements: seq![k1, k2, k3] })
    } else if is_bottom(k1, k2, k3) {
        Some(FXView { symbol: k1.symbol, dt: k2.dt, mark: Mark::D, high: k2.high, low: k2.low, fx: k2.low, elements: seq![k1, k2, k3] })
    } else {
        None
    }
}

fn make_fx(k1: &NewBar, k2: &NewBar, k3: &NewBar, mark: Mark, fx: i64) -> (r: FX)
    ensures
        r@ == (FXView { symbol: k1@.symbol, dt: k2.dt, mark, high: k2.high, low: k2.low, fx, elements: seq![k1@, k2@, k3@] }),
{
    let mut elements: Vec<NewBar> = Vec::new();
    elements.push(k1.duplicate());
    elements.push(k2.duplicate());
    elements.push(k3.duplicate());
    let r = FX { symbol: k1.symbol.clone(), dt: k2.dt, mark, high: k2.high, low: k2.low, fx, elements };
    assert(r@.elements =~= seq![k1@, k2@, k3@]);
    r
}

/// Finds the fractal formed by three consecutive merged bars.
pub fn check_fx(k1: &NewBar, k2: &NewBar, k3: &NewBar) -> (r: Option<FX>)
    ensures
        match r {
            Some(f) => fx_of(k1@, k2@, k3@) == Some(f@),
            None => fx_of(k1@, k2@, k3@) is None,
        },
{
    if k1.high < k2.high && k2.high > k3.high && k1.low < k2.low && k2.low > k3.low {
        return Some(make_fx(k1, k2, k3, Mark::G, k2.high));
    }
    if k1.low > k2.low && k2.low < k3.low && k1.high > k2.high && k2.high < k3.high {
        return Some(make_fx(k1, k2, k3, Mark::D, k2.low));
    }
    None
}

/// The fractals found at middle positions `1..n` of `bars`, skipping one
/// whose mark repeats the last kept one once two are kept.
pub open spec fn fxs_upto(bars: Seq<NewBarView>, n: int) -> Seq<FXView>
    decreases n,
{
    if n <= 1 {
        Seq::<FXView>::empty()
    } else {
        let prev = fxs_upto(bars, n - 1);
        let i = n - 1;
        match fx_of(bars[i - 1], bars[i], bars[i + 1]) {
            None => prev,
            Some(f) => if prev.len() >= 2 && f.mark == prev.last().mark { prev } else { prev.push(f) },
        }
    }
}

/// All fractals of a run of merged bars.
pub open spec fn fxs_of(bars: Seq<NewBarView>) -> Seq<FXView> {
    fxs_upto(bars, bars.len() - 1)
}

/// Every fractal that `fxs_upto` yields holds three bars.
pub proof fn lemma_fxs_three_bars(bars: Seq<NewBarView>, n: int)
    ensures
        forall|j: int| 0 <= j < fxs_upto(bars, n).len() ==> (#[trigger] fxs_upto(bars, n)[j]).elements.len() == 3,
    decreases n,
{
    if n > 1 {
        lemma_fxs_three_bars(bars, n - 1);
    }
}

/// Finds all fractals of a run of merged bars (at least one bar).
pub fn check_fxs(bars: &[NewBar]) -> (r: Vec<FX>)
    requires
        bars@.len() >= 1,
    ensures
        fx_views(r@) == fxs_of(new_views(bars@)),
{
    let ghost bv = new_views(bars@);
    let mut fxs: Vec<FX> = Vec::new();
    let end = bars.len() - 1;
    let mut i: usize = 1;
    while i < end
        invariant
            end == bars@.len() - 1,
            bv == new_views(bars@),
            1 <= i,
            i <= end || end == 0,
            end == 0 ==> i == 1,
            fx_views(fxs@) == fxs_upto(bv, i as int),
        decreases end - i,
    {
        let found = check_fx(&bars[i - 1], &bars[i], &bars[i + 1]);
        assert(bv[i - 1] == bars@[i - 1]@);
        assert(bv[i as int] == bars@[i as int]@);
        assert(bv[i + 1] == bars@[i + 1]@);
        match found {
            Some(fx) => {
                let n = fxs.len();
                if n >= 2 && fx.mark == fxs[n - 1].mark {
                    assert(fx_views(fxs@).last() == fxs@[n - 1]@);
                } else {
                    let ghost before = fxs@;
                    proof {
                        if n >= 2 {
                            assert(fx_views(fxs@).last() == fxs@[n - 1]@);
                        }
                    }
                    fxs.push(fx);
                    assert(fx_views(fxs@) =~= fx_views(before).push(fx@));
                }
            },
            None => {},
        }
        i = i + 1;
    }
    fxs
}

} // verus!

verus! {

/// The least number of merged bars that a stroke spans.
pub const MIN_BI_LEN: usize = 5;

/// The index of the top fractal that an up stroke from `a` ends at, among
/// the first `n` fractals: a top after `a` above it, the highest one, the
/// last of equal highs.
pub open spec fn pick_up(fxs: Seq<FXView>, a: FXView, n: int) -> Option<int>
    decreases n,
{
    if n <= 0 {
        None
    } else {
        let prev = pick_up(fxs, a, n - 1);
        let x = fxs[n - 1];
        if x.mark == Mark::G && x.dt > a.dt && x.fx > a.fx {
            match prev {
                None => Some(n - 1),
                Some(j) => if x.high >= fxs[j].high { Some(n - 1) } else { Some(j) },
            }
        } else {
            prev
        }
    }
}

/// The index of the bottom fractal that a down stroke from `a` ends at,
/// among the first `n` fractals: a bottom after `a` below it, the lowest
/// one, the first of equal lows.
pub open spec fn pick_down(fxs: Seq<FXView>, a: FXView, n: int) -> Option<int>
    decreases n,
{
    if n <= 0 {
        None
    } else {
        let prev = pick_down(fxs, a, n - 1);
        let x = fxs[n - 1];
        if x.mark == Mark::D && x.dt > a.dt && x.fx < a.fx {
            match prev {
                None => Some(n - 1),
                Some(j) => if x.low < fxs[j].low { Some(n - 1) } else { Some(j) },
            }
        } else {
            prev
        }
    }
}

/// The bars whose time lies in `lo..=hi`, in order.
pub open spec fn bars_between(bars: Seq<NewBarView>, lo: i64, hi: i64) -> Seq<NewBarView>
    decreases bars.len(),
{
    if bars.len() == 0 {
        bars
    } else if lo <= bars.last().dt && bars.last().dt <= hi {
        bars_between(bars.drop_last(), lo, hi).push(bars.last())
    } else {
        bars_between(bars.drop_last(), lo, hi)
    }
}

/// The fractals whose time lies in `lo..=hi`, in order.
pub open spec fn fxs_between(fxs: Seq<FXView>, lo: i64, hi: i64) -> Seq<FXView>
    decreases fxs.len(),
{
    if fxs.len() == 0 {
        fxs
    } else if lo <= fxs.last().dt && fxs.last().dt <= hi {
        fxs_between(fxs.drop_last(), lo, hi).push(fxs.last())
    } else {
        fxs_between(fxs.drop_last(), lo, hi)
    }
}

/// The price ranges of two fractals include one another.
pub open spec fn ranges_include(a: FXView, b: FXView) -> bool {
    (a.high > b.high && a.low < b.low) || (a.high < b.high && a.low > b.low)
}

/// What finding the first stroke in `bars` gives: the stroke, if one forms,
/// and the bars left to analyse after it (all bars when none forms).
///
/// The stroke starts at the first fractal and ends at the extreme opposite
/// fractal beyond it; it forms when the two fractals' ranges do not include
/// one another and it spans at least `MIN_BI_LEN` bars.
pub open spec fn bi_of(bars: Seq<NewBarView>) -> (Option<BIView>, Seq<NewBarView>) {
    let fxs = fxs_of(bars);
    if fxs.len() < 2 {
        (None, bars)
    } else {
        let a = fxs[0];
        let pick = if a.mark == Mark::D { pick_up(fxs, a, fxs.len() as int) } else { pick_down(fxs, a, fxs.len() as int) };
        match pick {
            None => (None, bars),
            Some(j) => {
                let b = fxs[j];
                let lo = a.elements[0].dt;
                let hi = b.elements[2].dt;
                let bars_a = bars_between(bars, lo, hi);
                let bars_b = bars_between(bars, b.elements[0].dt, i64::MAX);
                if !ranges_include(a, b) && bars_a.len() >= MIN_BI_LEN {
                    (Some(BIView {
                        symbol: a.symbol,
                        fx_a: a,
                        fx_b: b,
                        fxs: fxs_between(fxs, lo, hi),
                        direction: crate::bars::direction_from(a.mark),
                        bars: bars_a,
                    }), bars_b)
                } else {
                    (None, bars)
                }
            },
        }
    }
}

fn select_bars(bars: &[NewBar], lo: i64, hi: i64) -> (r: Vec<NewBar>)
    ensures
        new_views(r@) == bars_between(new_views(bars@), lo, hi),
{
    let mut out: Vec<NewBar> = Vec::new();
    let mut i: usize = 0;
    assert(new_views(bars@.take(0)) =~= Seq::<NewBarView>::empty());
    while i < bars.len()
        invariant
            i <= bars@.len(),
            new_views(out@) == bars_between(new_views(bars@.take(i as int)), lo, hi),
        decreases bars.len() - i,
    {
        assert(new_views(bars@.take(i + 1)).drop_last() =~= new_views(bars@.take(i as int)));
        assert(new_views(bars@.take(i + 1)).last() == bars@[i as int]@);
        if lo <= bars[i].dt && bars[i].dt <= hi {
            let ghost before = out@;
            out.push(bars[i].duplicate());
            assert(new_views(out@) =~= new_views(before).push(bars@[i as int]@));
        }
        i = i + 1;
    }
    assert(bars@.take(bars@.len() as int) =~= bars@);
    out
}

fn select_fxs(fxs: &[FX], lo: i64, hi: i64) -> (r: Vec<FX>)
    ensures
        fx_views(r@) == fxs_between(fx_views(fxs@), lo, hi),
{
    let mut out: Vec<FX> = Vec::new();
    let mut i: usize = 0;
    assert(fx_views(fxs@.take(0)) =~= Seq::<FXView>::empty());
    while i < fxs.len()
        invariant
            i <= fxs@.len(),
            fx_views(out@) == fxs_between(fx_views(fxs@.take(i as int)), lo, hi),
        decreases fxs.len() - i,
    {
        assert(fx_views(fxs@.take(i + 1)).drop_last() =~= fx_views(fxs@.take(i as int)));
        assert(fx_views(fxs@.take(i + 1)).last() == fxs@[i as int]@);
        if lo <= fxs[i].dt && fxs[i].dt <= hi {
            let ghost before = out@;
            out.push(fxs[i].duplicate());
            assert(fx_views(out@) =~= fx_views(before).push(fxs@[i as int]@));
        }
        i = i + 1;
    }
    assert(fxs@.take(fxs@.len() as int) =~= fxs@);
    out
}

fn pick_end(fxs: &Vec<FX>, up: bool) -> (r: Option<usize>)
    requires
        fxs@.len() >= 1,
    ensures
        ({
            let v = fx_views(fxs@);
            let p = if up { pick_up(v, v[0], v.len() as int) } else { pick_down(v, v[0], v.len() as int) };
            match r {
                Some(j) => p == Some(j as int) && j < fxs@.len(),
                None => p is None,
            }
        }),
{
    let ghost v = fx_views(fxs@);
    let a_dt = fxs[0].dt;
    let a_fx = fxs[0].fx;
    let mut best: Option<usize> = None;
    let mut i: usize = 0;
    while i < fxs.len()
        invariant
            v == fx_views(fxs@),
            v.len() >= 1,
            a_dt == v[0].dt,
            a_fx == v[0].fx,
            i <= fxs@.len(),
            match best {
                Some(j) => (if up { pick_up(v, v[0], i as int) } else { pick_down(v, v[0], i as int) }) == Some(j as int) && j < i,
                None => (if up { pick_up(v, v[0], i as int) } else { pick_down(v, v[0], i as int) }) is None,
            },
        decreases fxs.len() - i,
    {
        let x = &fxs[i];
        assert(v[i as int] == x@);
        if up {
            if x.mark == Mark::G && x.dt > a_dt && x.fx > a_fx {
                best = match best {
                    None => Some(i),
                    Some(j) => {
                        assert(v[j as int] == fxs@[j as int]@);
                        if x.high >= fxs[j].high { Some(i) } else { Some(j) }
                    },
                };
            }
        } else {
            if x.mark == Mark::D && x.dt > a_dt && x.fx < a_fx {
                best = match best {
                    None => Some(i),
                    Some(j) => {
                        assert(v[j as int] == fxs@[j as int]@);
                        if x.low < fxs[j].low { Some(i) } else { Some(j) }
                    },
                };
            }
        }
        i = i + 1;
    }
    best
}

/// Finds the first stroke in a run of merged bars (at least one bar), and
/// the bars left after it.
pub fn check_bi(bars: &[NewBar]) -> (r: (Option<BI>, Vec<NewBar>))
    requires
        bars@.len() >= 1,
    ensures
        ({
            let (b, rest) = bi_of(new_views(bars@));
            &&& match r.0 {
                Some(x) => b == Some(x@),
                None => b is None,
            }
            &&& new_views(r.1@) == rest
        }),
{
    let fxs = check_fxs(bars);
    let ghost bv = new_views(bars@);
    let ghost fv = fx_views(fxs@);
    proof { lemma_fxs_three_bars(bv, bv.len() - 1); }
    if fxs.len() < 2 {
        return (None, copy_new_bars(bars));
    }
    let up = fxs[0].mark == Mark::D;
    assert(fv[0] == fxs@[0]@);
    let pick = pick_end(&fxs, up);
    match pick {
        None => (None, copy_new_bars(bars)),
        Some(j) => {
            let fx_a = &fxs[0];
            let fx_b = &fxs[j];
            assert(fv[j as int] == fx_b@);
            assert(fv[0].elements.len() == 3);
            assert(fv[j as int].elements.len() == 3);
            let lo = fx_a.elements[0].dt;
            let hi = fx_b.elements[2].dt;
            assert(fv[0].elements[0] == fx_a.elements@[0]@);
            assert(fv[j as int].elements[2] == fx_b.elements@[2]@);
            assert(fv[j as int].elements[0] == fx_b.elements@[0]@);
            let bars_a = select_bars(bars, lo, hi);
            let bars_b = select_bars(bars, fx_b.elements[0].dt, i64::MAX);
            let ab_include = (fx_a.high > fx_b.high && fx_a.low < fx_b.low)
                || (fx_a.high < fx_b.high && fx_a.low > fx_b.low);
            if !ab_include && bars_a.len() >= MIN_BI_LEN {
                let inner = select_fxs(fxs.as_slice(), lo, hi);
                let a = fx_a.duplicate();
                let b = fx_b.duplicate();
                let direction = if up { Direction::Up } else { Direction::Down };
                let bi = BI { symbol: fx_a.symbol.clone(), fx_a: a, fx_b: b, fxs: inner, direction, bars: bars_a };
                (Some(bi), bars_b)
            } else {
                (None, copy_new_bars(bars))
            }
        },
    }
}

} // verus!

verus! {

/// The middle bar of a fractal is the extreme of the three: a top's value is the
/// highest high, a bottom's the lowest low.
pub proof fn law_fractal_is_extreme(k1: NewBarView, k2: NewBarView, k3: NewBarView)
    ensures
        fx_of(k1, k2, k3) matches Some(f) ==> (f.mark == Mark::G ==> f.fx == k2.high && f.fx > k1.high && f.fx > k3.high),
        fx_of(k1, k2, k3) matches Some(f) ==> (f.mark == Mark::D ==> f.fx == k2.low && f.fx < k1.low && f.fx < k3.low),
{
}

/// From the third fractal on, each fractal has the other mark than the one
/// before it: tops and bottoms alternate.
pub proof fn law_fractals_alternate(bars: Seq<NewBarView>, n: int)
    ensures
        forall|j: int| 2 <= j < fxs_upto(bars, n).len() ==> (#[trigger] fxs_upto(bars, n)[j]).mark != fxs_upto(bars, n)[j - 1].mark,
    decreases n,
{
    if n > 1 {
        law_fractals_alternate(bars, n - 1);
        let prev = fxs_upto(bars, n - 1);
        assert forall|j: int| 2 <= j < fxs_upto(bars, n).len() implies (#[trigger] fxs_upto(bars, n)[j]).mark != fxs_upto(
            bars,
            n,
        )[j - 1].mark by {
            if j < prev.len() {
                assert(fxs_upto(bars, n)[j] == prev[j]);
                assert(fxs_upto(bars, n)[j - 1] == prev[j - 1]);
            }
        }
    }
}

/// The middle positions of the fractals that `fxs_upto` keeps, in order.
pub open spec fn fx_positions(bars: Seq<NewBarView>, n: int) -> Seq<int>
    decreases n,
{
    if n <= 1 {
        Seq::<int>::empty()
    } else {
        let prev = fxs_upto(bars, n - 1);
        let i = n - 1;
        match fx_of(bars[i - 1], bars[i], bars[i + 1]) {
            None => fx_positions(bars, n - 1),
            Some(f) => if prev.len() >= 2 && f.mark == prev.last().mark {
                fx_positions(bars, n - 1)
            } else {
                fx_positions(bars, n - 1).push(i)
            },
        }
    }
}

/// The fractals found up to middle position `n` are the fractals of the bars at
/// rising middle positions in `1..n`, in order: each kept fractal is the one
/// `fx_of` finds at its position, so there are at most `n - 1` of them; and one
/// found is left out only when two are kept and it repeats the last one's mark.
pub proof fn law_fractals_are_an_ordered_selection(bars: Seq<NewBarView>, n: int)
    ensures
        fx_positions(bars, n).len() == fxs_upto(bars, n).len(),
        fxs_upto(bars, n).len() <= if n <= 1 { 0 } else { n - 1 },
        forall|j: int| 0 <= j < fx_positions(bars, n).len() ==> 1 <= #[trigger] fx_positions(bars, n)[j] < n,
        forall|j: int, k: int| 0 <= j < k < fx_positions(bars, n).len() ==> #[trigger] fx_positions(bars, n)[j] < #[trigger] fx_positions(
            bars,
            n,
        )[k],
        forall|j: int| 0 <= j < fx_positions(bars, n).len() ==> fx_of(
            bars[fx_positions(bars, n)[j] - 1],
            bars[#[trigger] fx_positions(bars, n)[j]],
            bars[fx_positions(bars, n)[j] + 1],
        ) == Some(fxs_upto(bars, n)[j]),
        n > 1 ==> (fx_of(bars[n - 2], bars[n - 1], bars[n]) matches Some(f) ==> (fxs_upto(bars, n) == fxs_upto(bars, n - 1).push(f)
            || (fxs_upto(bars, n - 1).len() >= 2 && f.mark == fxs_upto(bars, n - 1).last().mark && fxs_upto(bars, n) == fxs_upto(
            bars,
            n - 1,
        )))),
    decreases n,
{
    if n > 1 {
        law_fractals_are_an_ordered_selection(bars, n - 1);
        let p = fx_positions(bars, n - 1);
        let q = fx_positions(bars, n);
        let prev = fxs_upto(bars, n - 1);
        let cur = fxs_upto(bars, n);
        if q.len() > p.len() {
            assert(q == p.push(n - 1));
            assert(cur == prev.push(cur.last()));
            assert forall|j: int| 0 <= j < q.len() implies 1 <= #[trigger] q[j] < n by {
                if j < p.len() {
                    assert(q[j] == p[j]);
                }
            }
            assert forall|j: int, k: int| 0 <= j < k < q.len() implies #[trigger] q[j] < #[trigger] q[k] by {
                assert(q[j] == p[j]);
                if k < p.len() {
                    assert(q[k] == p[k]);
                }
            }
            assert forall|j: int| 0 <= j < q.len() implies fx_of(bars[q[j] - 1], bars[#[trigger] q[j]], bars[q[j] + 1]) == Some(cur[j]) by {
                if j < p.len() {
                    assert(q[j] == p[j]);
                    assert(cur[j] == prev[j]);
                }
            }
        }
    }
}

proof fn lemma_pick_up(fxs: Seq<FXView>, a: FXView, n: int)
    requires
        n <= fxs.len(),
    ensures
        pick_up(fxs, a, n) matches Some(j) ==> {
            &&& 0 <= j < n
            &&& fxs[j].mark == Mark::G && fxs[j].dt > a.dt && fxs[j].fx > a.fx
            &&& forall|i: int| 0 <= i < n && (#[trigger] fxs[i]).mark == Mark::G && fxs[i].dt > a.dt && fxs[i].fx > a.fx ==> fxs[i].high
                <= fxs[j].high
        },
        pick_up(fxs, a, n) is None ==> forall|i: int| 0 <= i < n ==> !((#[trigger] fxs[i]).mark == Mark::G && fxs[i].dt > a.dt && fxs[i].fx > a.fx),
    decreases n,
{
    if n > 0 {
        lemma_pick_up(fxs, a, n - 1);
        let x = fxs[n - 1];
        if let Some(j) = pick_up(fxs, a, n) {
            assert forall|i: int| 0 <= i < n && (#[trigger] fxs[i]).mark == Mark::G && fxs[i].dt > a.dt && fxs[i].fx > a.fx implies fxs[i].high
                <= fxs[j].high by {
                if i < n - 1 {
                    let p = pick_up(fxs, a, n - 1);
                    assert(p is Some);
                }
            }
        }
    }
}

proof fn lemma_pick_down(fxs: Seq<FXView>, a: FXView, n: int)
    requires
        n <= fxs.len(),
    ensures
        pick_down(fxs, a, n) matches Some(j) ==> {
            &&& 0 <= j < n
            &&& fxs[j].mark == Mark::D && fxs[j].dt > a.dt && fxs[j].fx < a.fx
            &&& forall|i: int| 0 <= i < n && (#[trigger] fxs[i]).mark == Mark::D && fxs[i].dt > a.dt && fxs[i].fx < a.fx ==> fxs[i].low
                >= fxs[j].low
        },
        pick_down(fxs, a, n) is None ==> forall|i: int| 0 <= i < n ==> !((#[trigger] fxs[i]).mark == Mark::D && fxs[i].dt > a.dt && fxs[i].fx < a.fx),
    decreases n,
{
    if n > 0 {
        lemma_pick_down(fxs, a, n - 1);
        let x = fxs[n - 1];
        if let Some(j) = pick_down(fxs, a, n) {
            assert forall|i: int| 0 <= i < n && (#[trigger] fxs[i]).mark == Mark::D && fxs[i].dt > a.dt && fxs[i].fx < a.fx implies fxs[i].low
                >= fxs[j].low by {
                if i < n - 1 {
                    let p = pick_down(fxs, a, n - 1);
                    assert(p is Some);
                }
            }
        }
    }
}

/// A stroke starts at the first fractal and ends at an opposite fractal after
/// it, in its direction: an up stroke from a bottom ends at a top above it, the
/// highest of the tops after the start and above it; a down stroke from a top
/// ends at a bottom below it, the lowest of such bottoms.
pub proof fn law_stroke_ends_at_the_extreme_fractal(bars: Seq<NewBarView>)
    ensures
        bi_of(bars).0 matches Some(bi) ==> {
            let f = fxs_of(bars);
            let a = bi.fx_a;
            let b = bi.fx_b;
            &&& f.len() >= 2 && a == f[0]
            &&& b.mark != a.mark && b.dt > a.dt
            &&& bi.direction == crate::bars::direction_from(a.mark)
            &&& a.mark == Mark::D ==> b.fx > a.fx && forall|i: int| 0 <= i < f.len() && (#[trigger] f[i]).mark == Mark::G && f[i].dt > a.dt
                && f[i].fx > a.fx ==> f[i].high <= b.high
            &&& a.mark == Mark::G ==> b.fx < a.fx && forall|i: int| 0 <= i < f.len() && (#[trigger] f[i]).mark == Mark::D && f[i].dt > a.dt
                && f[i].fx < a.fx ==> f[i].low >= b.low
        },
{
    let f = fxs_of(bars);
    if f.len() >= 2 {
        lemma_pick_up(f, f[0], f.len() as int);
        lemma_pick_down(f, f[0], f.len() as int);
    }
}

proof fn lemma_bars_between_filter(bars: Seq<NewBarView>, lo: i64, hi: i64)
    ensures
        bars_between(bars, lo, hi) == bars.filter(|x: NewBarView| lo <= x.dt && x.dt <= hi),
    decreases bars.len(),
{
    reveal(Seq::filter);
    if bars.len() > 0 {
        lemma_bars_between_filter(bars.drop_last(), lo, hi);
        bars.drop_last().lemma_filter_push(bars.last(), |x: NewBarView| lo <= x.dt && x.dt <= hi);
        assert(bars.drop_last().push(bars.last()) =~= bars);
    }
}

/// When a stroke forms, the bars left for further analysis are exactly the
/// input bars, in order, whose time is at or after the first bar of the
/// stroke's end fractal; so the next stroke can start at that fractal.
pub proof fn law_bars_after_a_stroke_start_at_its_end_fractal(bars: Seq<NewBarView>)
    ensures
        bi_of(bars).0 matches Some(bi) ==> bi.fx_b.elements.len() == 3 && bi_of(bars).1 == bars.filter(
            |x: NewBarView| x.dt >= bi.fx_b.elements[0].dt,
        ),
        bi_of(bars).0 matches Some(bi) ==> bi.fx_a.elements.len() == 3 && bi.bars == bars.filter(
            |x: NewBarView| bi.fx_a.elements[0].dt <= x.dt && x.dt <= bi.fx_b.elements[2].dt,
        ) && bi.bars.len() >= 5,
        bi_of(bars).0 is None ==> bi_of(bars).1 == bars,
{
    let f = fxs_of(bars);
    if let Some(bi) = bi_of(bars).0 {
        lemma_fxs_three_bars(bars, bars.len() - 1);
        if f[0].mark == Mark::D {
            lemma_pick_up(f, f[0], f.len() as int);
        } else {
            lemma_pick_down(f, f[0], f.len() as int);
        }
        let lo = bi.fx_b.elements[0].dt;
        lemma_bars_between_filter(bars, lo, i64::MAX);
        lemma_bars_between_filter(bars, bi.fx_a.elements[0].dt, bi.fx_b.elements[2].dt);
        assert(bars.filter(|x: NewBarView| lo <= x.dt && x.dt <= i64::MAX) =~= bars.filter(|x: NewBarView| x.dt >= lo)) by {
            assert((|x: NewBarView| lo <= x.dt && x.dt <= i64::MAX) =~= (|x: NewBarView| x.dt >= lo));
        }
    }
}

/// Merging a bar takes the extremes in the direction of the trend: in an up
/// trend (`k1` below `k2`) the higher high and the higher low of `k2` and `k3`,
/// in a down trend the lower high and the lower low; the merged bar opens and
/// closes at those extremes and sums the volumes. A bar that is not merged
/// starts a new merged bar of its own.
pub proof fn law_merge_takes_the_trend_extremes(k1: NewBarView, k2: NewBarView, k3: RawBarView)
    ensures
        merges(k1, k2, k3) ==> include_view(k1, k2, k3).0,
        merges(k1, k2, k3) && k1.high < k2.high ==> {
            let m = include_view(k1, k2, k3).1;
            &&& m.high >= k2.high && m.high >= k3.high && (m.high == k2.high || m.high == k3.high)
            &&& m.low >= k2.low && m.low >= k3.low && (m.low == k2.low || m.low == k3.low)
        },
        merges(k1, k2, k3) && k1.high > k2.high ==> {
            let m = include_view(k1, k2, k3).1;
            &&& m.high <= k2.high && m.high <= k3.high && (m.high == k2.high || m.high == k3.high)
            &&& m.low <= k2.low && m.low <= k3.low && (m.low == k2.low || m.low == k3.low)
        },
        merges(k1, k2, k3) ==> {
            let m = include_view(k1, k2, k3).1;
            &&& (m.open == m.high && m.close == m.low) || (m.open == m.low && m.close == m.high)
            &&& m.vol == k2.vol + k3.vol || !(i64::MIN <= k2.vol + k3.vol <= i64::MAX)
        },
        merges(k1, k2, k3) ==> {
            let m = include_view(k1, k2, k3).1;
            &&& m.elements.len() >= 1 && m.elements.last() == k3
            &&& m.dt == k2.dt || m.dt == k3.dt
            &&& m.id == k2.id && m.symbol == k3.symbol && m.freq == k2.freq
        },
        !merges(k1, k2, k3) ==> !include_view(k1, k2, k3).0 && include_view(k1, k2, k3).1.high == k3.high
            && include_view(k1, k2, k3).1.low == k3.low && include_view(k1, k2, k3).1.elements == seq![k3],
{
}

} // verus!
