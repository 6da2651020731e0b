//! Bars, fractals, strokes and pivots.
//!
//! Prices, volumes and amounts are integers in the instrument's smallest
//! unit (ticks), and times are integer timestamps; only their order and
//! their sums matter to the analysis, so both are exact.
use vstd::prelude::*;
use crate::enums::{Direction, Freq, Mark};

verus! {

/// What a raw bar holds.
pub struct RawBarView {
    pub symbol: Seq<char>,
    pub id: i32,
    pub dt: i64,
    pub freq: Freq,
    pub open: i64,
    pub close: i64,
    pub high: i64,
    pub low: i64,
    pub vol: i64,
    pub amount: i64,
}

/// A bar as the data source delivers it; `id` ascends along a series.
#[derive(Debug, Clone)]
pub struct RawBar {
    pub symbol: String,
    pub id: i32,
    pub dt: i64,
    pub freq: Freq,
    pub open: i64,
    pub close: i64,
    pub high: i64,
    pub low: i64,
    pub vol: i64,
    pub amount: i64,
}

impl View for RawBar {
    type V = RawBarView;

    open spec fn view(&self) -> RawBarView {
        RawBarView {
            symbol: self.symbol@,
            id: self.id,
            dt: self.dt,
            freq: self.freq,
            open: self.open,
            close: self.close,
            high: self.high,
            low: self.low,
            vol: self.vol,
            amount: self.amount,
        }
    }
}

/// The views of a run of raw bars.
pub open spec fn raw_views(s: Seq<RawBar>) -> Seq<RawBarView> {
    s.map_values(|b: RawBar| b@)
}

/// The larger of two integers.
pub open spec fn max_i64(a: i64, b: i64) -> i64 {
    if a >= b { a } else { b }
}

/// The smaller of two integers.
pub open spec fn min_i64(a: i64, b: i64) -> i64 {
    if a <= b { a } else { b }
}

/// The absolute difference of two integers.
pub open spec fn abs_diff(a: i64, b: i64) -> int {
    if a >= b { a - b } else { b - a }
}

impl RawBar {
    /// A copy of this bar.
    pub fn duplicate(&self) -> (r: RawBar)
        ensures
            r@ == self@,
    {
        RawBar {
            symbol: self.symbol.clone(),
            id: self.id,
            dt: self.dt,
            freq: self.freq,
            open: self.open,
            close: self.close,
            high: self.high,
            low: self.low,
            vol: self.vol,
            amount: self.amount,
        }
    }

    /// The upper shadow: the high above the body.
    pub fn upper(&self) -> (r: i64)
        requires
            self.high - max_i64(self.open, self.close) >= i64::MIN,
            self.high - max_i64(self.open, self.close) <= i64::MAX,
        ensures
            r == self.high - max_i64(self.open, self.close),
    {
        let top = if self.open >= self.close { self.open } else { self.close };
        self.high - top
    }

    /// The lower shadow: the low below the body.
    pub fn lower(&self) -> (r: i64)
        requires
            min_i64(self.open, self.close) - self.low >= i64::MIN,
            min_i64(self.open, self.close) - self.low <= i64::MAX,
        ensures
            r == min_i64(self.open, self.close) - self.low,
    {
        let bottom = if self.open <= self.close { self.open } else { self.close };
        bottom - self.low
    }

    /// The body: the distance between open and close.
    pub fn solid(&self) -> (r: i64)
        requires
            abs_diff(self.open, self.close) <= i64::MAX,
        ensures
            r == abs_diff(self.open, self.close),
    {
        if self.open >= self.close { self.open - self.close } else { self.close - self.open }
    }
}

/// Copies a run of raw bars.
pub fn copy_raw_bars(s: &[RawBar]) -> (r: Vec<RawBar>)
    ensures
        raw_views(r@) == raw_views(s@),
{
    let mut out: Vec<RawBar> = Vec::new();
    let mut i: usize = 0;
    while i < s.len()
        invariant
            i <= s@.len(),
            raw_views(out@) == raw_views(s@.take(i as int)),
        decreases s.len() - i,
    {
        let ghost before = out@;
        let b = s[i].duplicate();
        out.push(b);
        assert(s@.take(i + 1) =~= s@.take(i as int).push(s@[i as int]));
        assert(raw_views(out@) =~= raw_views(before).push(s@[i as int]@));
        assert(raw_views(s@.take(i + 1)) =~= raw_views(s@.take(i as int)).push(s@[i as int]@));
        i = i + 1;
    }
    assert(s@.take(s@.len() as int) =~= s@);
    out
}

/// What a bar without inclusion holds.
pub struct NewBarView {
    pub symbol: Seq<char>,
    pub id: i32,
    pub dt: i64,
    pub freq: Freq,
    pub open: i64,
    pub close: i64,
    pub high: i64,
    pub low: i64,
    pub vol: i64,
    pub amount: i64,
    pub elements: Seq<RawBarView>,
}

/// A bar after inclusion has been removed: it merges the raw bars of
/// `elements`, which stand in an inclusion relation.
#[derive(Debug, Clone)]
pub struct NewBar {
    pub symbol: String,
    pub id: i32,
    pub dt: i64,
    pub freq: Freq,
    pub open: i64,
    pub close: i64,
    pub high: i64,
    pub low: i64,
    pub vol: i64,
    pub amount: i64,
    pub elements: Vec<RawBar>,
}

impl View for NewBar {
    type V = NewBarView;

    open spec fn view(&self) -> NewBarView {
        NewBarView {
            symbol: self.symbol@,
            id: self.id,
            dt: self.dt,
            freq: self.freq,
            open: self.open,
            close: self.close,
            high: self.high,
            low: self.low,
            vol: self.vol,
            amount: self.amount,
            elements: raw_views(self.elements@),
        }
    }
}

/// The views of a run of merged bars.
pub open spec fn new_views(s: Seq<NewBar>) -> Seq<NewBarView> {
    s.map_values(|b: NewBar| b@)
}

impl NewBar {
    /// A copy of this bar.
    pub fn duplicate(&self) -> (r: NewBar)
        ensures
            r@ == self@,
    {
        let elements = copy_raw_bars(self.elements.as_slice());
        let r = NewBar {
            symbol: self.symbol.clone(),
            id: self.id,
            dt: self.dt,
            freq: self.freq,
            open: self.open,
            close: self.close,
            high: self.high,
            low: self.low,
            vol: self.vol,
            amount: self.amount,
            elements,
        };
        assert(r@.elements =~= self@.elements);
        r
    }

    /// The raw bars merged into this bar.
    pub fn raw_bars(&self) -> (r: &Vec<RawBar>)
        ensures
            r == &self.elements,
    {
        &self.elements
    }
}

/// Copies a run of merged bars.
pub fn copy_new_bars(s: &[NewBar]) -> (r: Vec<NewBar>)
    ensures
        new_views(r@) == new_views(s@),
{
    let mut out: Vec<NewBar> = Vec::new();
    let mut i: usize = 0;
    while i < s.len()
        invariant
            i <= s@.len(),
            new_views(out@) == new_views(s@.take(i as int)),
        decreases s.len() - i,
    {
        let ghost before = out@;
        let b = s[i].duplicate();
        out.push(b);
        assert(s@.take(i + 1) =~= s@.take(i as int).push(s@[i as int]));
        assert(new_views(out@) =~= new_views(before).push(s@[i as int]@));
        assert(new_views(s@.take(i + 1)) =~= new_views(s@.take(i as int)).push(s@[i as int]@));
        i = i + 1;
    }
    assert(s@.take(s@.len() as int) =~= s@);
    out
}

} // verus!

verus! {

/// The raw bars of a run of merged bars, concatenated in order.
pub open spec fn flatten_raw(s: Seq<NewBarView>) -> Seq<RawBarView>
    decreases s.len(),
{
    if s.len() == 0 {
        Seq::<RawBarView>::empty()
    } else {
        flatten_raw(s.drop_last()) + s.last().elements
    }
}

/// Concatenates the raw bars of the given merged bars.
pub fn concat_raw(s: &[NewBar]) -> (r: Vec<RawBar>)
    ensures
        raw_views(r@) == flatten_raw(new_views(s@)),
{
    let mut out: Vec<RawBar> = Vec::new();
    let mut i: usize = 0;
    while i < s.len()
        invariant
            i <= s@.len(),
            raw_views(out@) == flatten_raw(new_views(s@.take(i as int))),
        decreases s.len() - i,
    {
        let mut part = copy_raw_bars(s[i].elements.as_slice());
        let ghost before = out@;
        let ghost p = part@;
        out.append(&mut part);
        assert(out@ =~= before + p);
        assert(raw_views(out@) =~= raw_views(before) + raw_views(p));
        assert(new_views(s@.take(i + 1)).drop_last() =~= new_views(s@.take(i as int)));
        assert(new_views(s@.take(i + 1)).last() == s@[i as int]@);
        i = i + 1;
    }
    assert(s@.take(s@.len() as int) =~= s@);
    out
}

/// The sum of the volumes of a run of merged bars.
pub open spec fn sum_vol(s: Seq<NewBarView>) -> int
    decreases s.len(),
{
    if s.len() == 0 {
        0
    } else {
        sum_vol(s.drop_last()) + s.last().vol
    }
}

/// Adds up the volumes of the given merged bars.
pub fn total_vol(s: &[NewBar]) -> (r: i64)
    requires
        forall|j: int| 0 <= j <= s@.len() ==> i64::MIN <= #[trigger] sum_vol(new_views(s@.take(j))) <= i64::MAX,
    ensures
        r == sum_vol(new_views(s@)),
{
    let mut acc: i64 = 0;
    let mut i: usize = 0;
    assert(new_views(s@.take(0)) =~= Seq::<NewBarView>::empty());
    while i < s.len()
        invariant
            i <= s@.len(),
            acc == sum_vol(new_views(s@.take(i as int))),
            forall|j: int| 0 <= j <= s@.len() ==> i64::MIN <= #[trigger] sum_vol(new_views(s@.take(j))) <= i64::MAX,
        decreases s.len() - i,
    {
        assert(new_views(s@.take(i + 1)).drop_last() =~= new_views(s@.take(i as int)));
        assert(new_views(s@.take(i + 1)).last() == s@[i as int]@);
        assert(sum_vol(new_views(s@.take(i + 1))) == acc + s@[i as int].vol);
        acc = acc + s[i].vol;
        i = i + 1;
    }
    assert(s@.take(s@.len() as int) =~= s@);
    acc
}

/// What a fractal holds.
pub struct FXView {
    pub symbol: Seq<char>,
    pub dt: i64,
    pub mark: Mark,
    pub high: i64,
    pub low: i64,
    pub fx: i64,
    pub elements: Seq<NewBarView>,
}

/// A fractal: three merged bars whose middle one is the highest (top, `G`)
/// or the lowest (bottom, `D`); `fx` is its extreme price.
#[derive(Debug, Clone)]
pub struct FX {
    pub symbol: String,
    pub dt: i64,
    pub mark: Mark,
    pub high: i64,
    pub low: i64,
    pub fx: i64,
    pub elements: Vec<NewBar>,
}

impl View for FX {
    type V = FXView;

    open spec fn view(&self) -> FXView {
        FXView {
            symbol: self.symbol@,
            dt: self.dt,
            mark: self.mark,
            high: self.high,
            low: self.low,
            fx: self.fx,
            elements: new_views(self.elements@),
        }
    }
}

/// The views of a run of fractals.
pub open spec fn fx_views(s: Seq<FX>) -> Seq<FXView> {
    s.map_values(|f: FX| f@)
}

/// The strength label of a fractal of three bars.
pub open spec fn power_label(mark: Mark, k1: NewBarView, k2: NewBarView, k3: NewBarView) -> Seq<char> {
    match mark {
        Mark::D => if k3.close > k1.high { "强"@ } else if k3.close > k2.high { "中"@ } else { "弱"@ },
        Mark::G => if k3.close < k1.low { "强"@ } else if k3.close < k2.low { "中"@ } else { "弱"@ },
    }
}

impl FX {
    /// A copy of this fractal.
    pub fn duplicate(&self) -> (r: FX)
        ensures
            r@ == self@,
    {
        let elements = copy_new_bars(self.elements.as_slice());
        let r = FX {
            symbol: self.symbol.clone(),
            dt: self.dt,
            mark: self.mark,
            high: self.high,
            low: self.low,
            fx: self.fx,
            elements,
        };
        assert(r@.elements =~= self@.elements);
        r
    }

    /// The merged bars of the fractal.
    pub fn new_bars(&self) -> (r: &Vec<NewBar>)
        ensures
            r == &self.elements,
    {
        &self.elements
    }

    /// The raw bars of the fractal, in order.
    pub fn raw_bars(&self) -> (r: Vec<RawBar>)
        ensures
            raw_views(r@) == flatten_raw(self@.elements),
    {
        concat_raw(self.elements.as_slice())
    }

    /// How strongly the third bar closes beyond the first two.
    pub fn power_str(&self) -> (r: String)
        requires
            self.elements@.len() == 3,
        ensures
            r@ == power_label(self.mark, self@.elements[0], self@.elements[1], self@.elements[2]),
    {
        let k1 = &self.elements[0];
        let k2 = &self.elements[1];
        let k3 = &self.elements[2];
        match self.mark {
            Mark::D => {
                if k3.close > k1.high {
                    crate::text::owned("强")
                } else if k3.close > k2.high {
                    crate::text::owned("中")
                } else {
                    crate::text::owned("弱")
                }
            },
            Mark::G => {
                if k3.close < k1.low {
                    crate::text::owned("强")
                } else if k3.close < k2.low {
                    crate::text::owned("中")
                } else {
                    crate::text::owned("弱")
                }
            },
        }
    }

    /// The total volume of the three bars.
    pub fn power_volume(&self) -> (r: i64)
        requires
            self.elements@.len() == 3,
            i64::MIN <= self.elements@[0].vol + self.elements@[1].vol <= i64::MAX,
            i64::MIN <= self.elements@[0].vol + self.elements@[1].vol + self.elements@[2].vol <= i64::MAX,
        ensures
            r == self.elements@[0].vol + self.elements@[1].vol + self.elements@[2].vol,
    {
        self.elements[0].vol + self.elements[1].vol + self.elements[2].vol
    }

    /// Whether the three bars overlap: the lowest high is at least the
    /// highest low.
    pub fn has_zs(&self) -> (r: bool)
        requires
            self.elements@.len() == 3,
        ensures
            r == (min_i64(min_i64(self.elements@[0].high, self.elements@[1].high), self.elements@[2].high)
                >= max_i64(max_i64(self.elements@[0].low, self.elements@[1].low), self.elements@[2].low)),
    {
        let e = &self.elements;
        let zd1 = if e[0].low >= e[1].low { e[0].low } else { e[1].low };
        let zd = if zd1 >= e[2].low { zd1 } else { e[2].low };
        let zg1 = if e[0].high <= e[1].high { e[0].high } else { e[1].high };
        let zg = if zg1 <= e[2].high { zg1 } else { e[2].high };
        zg >= zd
    }
}

/// Copies a run of fractals.
pub fn copy_fxs(s: &[FX]) -> (r: Vec<FX>)
    ensures
        fx_views(r@) == fx_views(s@),
{
    let mut out: Vec<FX> = Vec::new();
    let mut i: usize = 0;
    while i < s.len()
        invariant
            i <= s@.len(),
            fx_views(out@) == fx_views(s@.take(i as int)),
        decreases s.len() - i,
    {
        let ghost before = out@;
        let b = s[i].duplicate();
        out.push(b);
        assert(s@.take(i + 1) =~= s@.take(i as int).push(s@[i as int]));
        assert(fx_views(out@) =~= fx_views(before).push(s@[i as int]@));
        assert(fx_views(s@.take(i + 1)) =~= fx_views(s@.take(i as int)).push(s@[i as int]@));
        i = i + 1;
    }
    assert(s@.take(s@.len() as int) =~= s@);
    out
}

} // verus!

verus! {

/// What a provisional stroke holds.
pub struct FakeBIView {
    pub symbol: Seq<char>,
    pub sdt: i64,
    pub edt: i64,
    pub direction: Direction,
    pub high: i64,
    pub low: i64,
    pub power: i64,
}

/// A provisional stroke between two neighbouring fractals, used to look
/// inside a stroke.
#[derive(Debug, Clone)]
pub struct FakeBI {
    pub symbol: String,
    pub sdt: i64,
    pub edt: i64,
    pub direction: Direction,
    pub high: i64,
    pub low: i64,
    pub power: i64,
}

impl View for FakeBI {
    type V = FakeBIView;

    open spec fn view(&self) -> FakeBIView {
        FakeBIView {
            symbol: self.symbol@,
            sdt: self.sdt,
            edt: self.edt,
            direction: self.direction,
            high: self.high,
            low: self.low,
            power: self.power,
        }
    }
}

/// The provisional stroke from `fx1` to `fx2`: up from a bottom, down from a top.
pub open spec fn fake_bi_of(fx1: FXView, fx2: FXView) -> FakeBIView {
    match fx1.mark {
        Mark::D => FakeBIView {
            symbol: fx1.symbol,
            sdt: fx1.dt,
            edt: fx2.dt,
            direction: Direction::Up,
            high: fx2.high,
            low: fx1.low,
            power: (fx2.high - fx1.low) as i64,
        },
        Mark::G => FakeBIView {
            symbol: fx1.symbol,
            sdt: fx1.dt,
            edt: fx2.dt,
            direction: Direction::Down,
            high: fx1.high,
            low: fx2.low,
            power: (fx1.high - fx2.low) as i64,
        },
    }
}

/// How many fractals pair up into provisional strokes: an odd last one is left out.
pub open spec fn paired_len(n: int) -> int {
    if n % 2 != 0 { n - 1 } else { n }
}

/// The fractals can be joined into provisional strokes: neighbours alternate
/// marks and each stroke's range fits.
pub open spec fn fake_bis_joinable(fxs: Seq<FXView>) -> bool {
    forall|i: int| 1 <= i < paired_len(fxs.len() as int) ==> {
        &&& (#[trigger] fxs[i]).mark != fxs[i - 1].mark
        &&& i64::MIN <= fxs[i].high - fxs[i - 1].low <= i64::MAX
        &&& i64::MIN <= fxs[i - 1].high - fxs[i].low <= i64::MAX
    }
}

/// Joins neighbouring fractals into provisional strokes, leaving out an odd
/// last fractal.
pub fn create_fake_bis(fxs: &[FX]) -> (r: Vec<FakeBI>)
    requires
        fake_bis_joinable(fx_views(fxs@)),
    ensures
        r@.len() == if paired_len(fxs@.len() as int) > 0 { paired_len(fxs@.len() as int) - 1 } else { 0 },
        forall|i: int| 0 <= i < r@.len() ==> (#[trigger] r@[i])@ == fake_bi_of(fxs@[i]@, fxs@[i + 1]@),
{
    let n = fxs.len();
    let fxs_len = if n % 2 != 0 { n - 1 } else { n };
    let mut out: Vec<FakeBI> = Vec::new();
    let mut i: usize = 1;
    while i < fxs_len
        invariant
            fxs_len == paired_len(fxs@.len() as int),
            fake_bis_joinable(fx_views(fxs@)),
            1 <= i,
            fxs_len > 0 ==> i <= fxs_len,
            fxs_len == 0 ==> i == 1,
            out@.len() == i - 1,
            forall|j: int| 0 <= j < out@.len() ==> (#[trigger] out@[j])@ == fake_bi_of(fxs@[j]@, fxs@[j + 1]@),
        decreases fxs_len - i,
    {
        let fx1 = &fxs[i - 1];
        let fx2 = &fxs[i];
        assert(fx_views(fxs@)[i as int] == fx2@);
        assert(fx_views(fxs@)[i - 1] == fx1@);
        let fb = match fx1.mark {
            Mark::D => FakeBI {
                symbol: fx1.symbol.clone(),
                sdt: fx1.dt,
                edt: fx2.dt,
                direction: Direction::Up,
                high: fx2.high,
                low: fx1.low,
                power: fx2.high - fx1.low,
            },
            Mark::G => FakeBI {
                symbol: fx1.symbol.clone(),
                sdt: fx1.dt,
                edt: fx2.dt,
                direction: Direction::Down,
                high: fx1.high,
                low: fx2.low,
                power: fx1.high - fx2.low,
            },
        };
        out.push(fb);
        i = i + 1;
    }
    out
}

/// What a stroke holds.
pub struct BIView {
    pub symbol: Seq<char>,
    pub fx_a: FXView,
    pub fx_b: FXView,
    pub fxs: Seq<FXView>,
    pub direction: Direction,
    pub bars: Seq<NewBarView>,
}

/// A stroke from the fractal `fx_a` to the opposite fractal `fx_b`, with the
/// fractals and merged bars between them.
#[derive(Debug, Clone)]
pub struct BI {
    pub symbol: String,
    pub fx_a: FX,
    pub fx_b: FX,
    pub fxs: Vec<FX>,
    pub direction: Direction,
    pub bars: Vec<NewBar>,
}

impl View for BI {
    type V = BIView;

    open spec fn view(&self) -> BIView {
        BIView {
            symbol: self.symbol@,
            fx_a: self.fx_a@,
            fx_b: self.fx_b@,
            fxs: fx_views(self.fxs@),
            direction: self.direction,
            bars: new_views(self.bars@),
        }
    }
}

/// The direction of a stroke starting at a fractal of mark `m`.
pub open spec fn direction_from(m: Mark) -> Direction {
    if m == Mark::D { Direction::Up } else { Direction::Down }
}

/// The highest price of a stroke.
pub open spec fn bi_high(b: BI) -> i64 {
    max_i64(b.fx_a.high, b.fx_b.high)
}

/// The lowest price of a stroke.
pub open spec fn bi_low(b: BI) -> i64 {
    min_i64(b.fx_a.low, b.fx_b.low)
}

/// The inner bars of a stroke: all but the first and the last.
pub open spec fn inner_bars(bars: Seq<NewBarView>) -> Seq<NewBarView> {
    if bars.len() >= 2 { bars.subrange(1, bars.len() - 1) } else { Seq::<NewBarView>::empty() }
}

impl BI {
    /// A stroke from `fx_a` to `fx_b`: up from a bottom, down from a top.
    pub fn new(fx_a: FX, fx_b: FX, fxs: Vec<FX>, bars: Vec<NewBar>) -> (r: BI)
        ensures
            r.symbol@ == fx_a.symbol@,
            r.fx_a == fx_a,
            r.fx_b == fx_b,
            r.fxs == fxs,
            r.bars == bars,
            r.direction == direction_from(fx_a.mark),
    {
        let direction = if fx_a.mark == Mark::D { Direction::Up } else { Direction::Down };
        BI { symbol: fx_a.symbol.clone(), fx_a, fx_b, fxs, direction, bars }
    }

    /// The start time: that of the first fractal.
    pub fn sdt(&self) -> (r: i64)
        ensures
            r == self.fx_a.dt,
    {
        self.fx_a.dt
    }

    /// The end time: that of the last fractal.
    pub fn edt(&self) -> (r: i64)
        ensures
            r == self.fx_b.dt,
    {
        self.fx_b.dt
    }

    /// The provisional strokes joining the inner fractals.
    pub fn fake_bis(&self) -> (r: Vec<FakeBI>)
        requires
            fake_bis_joinable(fx_views(self.fxs@)),
        ensures
            r@.len() == if paired_len(self.fxs@.len() as int) > 0 { paired_len(self.fxs@.len() as int) - 1 } else { 0 },
            forall|i: int| 0 <= i < r@.len() ==> (#[trigger] r@[i])@ == fake_bi_of(self.fxs@[i]@, self.fxs@[i + 1]@),
    {
        create_fake_bis(self.fxs.as_slice())
    }

    /// The highest price of the stroke.
    pub fn high(&self) -> (r: i64)
        ensures
            r == bi_high(*self),
    {
        if self.fx_a.high >= self.fx_b.high { self.fx_a.high } else { self.fx_b.high }
    }

    /// The lowest price of the stroke.
    pub fn low(&self) -> (r: i64)
        ensures
            r == bi_low(*self),
    {
        if self.fx_a.low <= self.fx_b.low { self.fx_a.low } else { self.fx_b.low }
    }

    /// The price span of the stroke.
    pub fn power(&self) -> (r: i64)
        requires
            abs_diff(self.fx_b.fx, self.fx_a.fx) <= i64::MAX,
        ensures
            r == abs_diff(self.fx_b.fx, self.fx_a.fx),
    {
        self.power_price()
    }

    /// The price span of the stroke: the distance between its fractal prices.
    pub fn power_price(&self) -> (r: i64)
        requires
            abs_diff(self.fx_b.fx, self.fx_a.fx) <= i64::MAX,
        ensures
            r == abs_diff(self.fx_b.fx, self.fx_a.fx),
    {
        if self.fx_b.fx >= self.fx_a.fx { self.fx_b.fx - self.fx_a.fx } else { self.fx_a.fx - self.fx_b.fx }
    }

    /// The volume of the inner bars of the stroke.
    pub fn power_volume(&self) -> (r: i64)
        requires
            forall|j: int| 0 <= j <= inner_bars(new_views(self.bars@)).len()
                ==> i64::MIN <= #[trigger] sum_vol(inner_bars(new_views(self.bars@)).take(j)) <= i64::MAX,
        ensures
            r == sum_vol(inner_bars(new_views(self.bars@))),
    {
        let n = self.bars.len();
        if n < 2 {
            assert(inner_bars(new_views(self.bars@)) =~= Seq::<NewBarView>::empty());
            return 0;
        }
        let inner = &self.bars.as_slice()[1..n - 1];
        assert(new_views(inner@) =~= inner_bars(new_views(self.bars@)));
        assert forall|j: int| 0 <= j <= inner@.len() implies i64::MIN <= #[trigger] sum_vol(new_views(inner@.take(j))) <= i64::MAX by {
            assert(new_views(inner@.take(j)) =~= inner_bars(new_views(self.bars@)).take(j));
        }
        total_vol(inner)
    }

    /// The number of merged bars of the stroke.
    pub fn length(&self) -> (r: usize)
        ensures
            r == self.bars@.len(),
    {
        self.bars.len()
    }

    /// The raw bars of the inner merged bars of the stroke, in order.
    pub fn raw_bars(&self) -> (r: Vec<RawBar>)
        ensures
            raw_views(r@) == flatten_raw(inner_bars(new_views(self.bars@))),
    {
        let n = self.bars.len();
        if n < 2 {
            assert(inner_bars(new_views(self.bars@)) =~= Seq::<NewBarView>::empty());
            return Vec::new();
        }
        let inner = &self.bars.as_slice()[1..n - 1];
        assert(new_views(inner@) =~= inner_bars(new_views(self.bars@)));
        concat_raw(inner)
    }
}

} // verus!

verus! {

/// The highest high of a run of strokes; `i64::MIN` (standing for minus
/// infinity) for none.
pub open spec fn highest_high(bis: Seq<BI>) -> i64
    decreases bis.len(),
{
    if bis.len() == 0 { i64::MIN } else { max_i64(highest_high(bis.drop_last()), bi_high(bis.last())) }
}

/// The lowest high of a run of strokes; `i64::MAX` (standing for infinity) for none.
pub open spec fn lowest_high(bis: Seq<BI>) -> i64
    decreases bis.len(),
{
    if bis.len() == 0 { i64::MAX } else { min_i64(lowest_high(bis.drop_last()), bi_high(bis.last())) }
}

/// The lowest low of a run of strokes; `i64::MAX` for none.
pub open spec fn lowest_low(bis: Seq<BI>) -> i64
    decreases bis.len(),
{
    if bis.len() == 0 { i64::MAX } else { min_i64(lowest_low(bis.drop_last()), bi_low(bis.last())) }
}

/// The highest low of a run of strokes; `i64::MIN` for none.
pub open spec fn highest_low(bis: Seq<BI>) -> i64
    decreases bis.len(),
{
    if bis.len() == 0 { i64::MIN } else { max_i64(highest_low(bis.drop_last()), bi_low(bis.last())) }
}

/// The first three strokes (fewer if there are fewer).
pub open spec fn first3(bis: Seq<BI>) -> Seq<BI> {
    if bis.len() <= 3 { bis } else { bis.take(3) }
}

/// A stroke touches the band between `zd` and `zg`.
pub open spec fn touches_band(b: BI, zg: i64, zd: i64) -> bool {
    (zg >= bi_high(b) && bi_high(b) >= zd)
    || (zg >= bi_low(b) && bi_low(b) >= zd)
    || (bi_high(b) >= zg && zg >= zd && zd >= bi_low(b))
}

/// A pivot is valid: its band is not inverted and every stroke touches it.
pub open spec fn zs_valid(bis: Seq<BI>) -> bool {
    let zg = lowest_high(first3(bis));
    let zd = highest_low(first3(bis));
    zg >= zd && forall|i: int| 0 <= i < bis.len() ==> touches_band(#[trigger] bis[i], zg, zd)
}

/// A pivot whose band is not inverted is valid exactly when the price range
/// `[low, high]` of every stroke meets the band `[zd, zg]`; one that is
/// inverted is never valid. (Each stroke's low is taken to be at most its high.)
pub proof fn law_pivot_valid_when_every_stroke_meets_the_band(bis: Seq<BI>)
    requires
        forall|i: int| 0 <= i < bis.len() ==> bi_low(#[trigger] bis[i]) <= bi_high(bis[i]),
    ensures
        zs_valid(bis) <==> {
            let zg = lowest_high(first3(bis));
            let zd = highest_low(first3(bis));
            &&& zg >= zd
            &&& forall|i: int| 0 <= i < bis.len() ==> bi_low(#[trigger] bis[i]) <= zg && bi_high(bis[i]) >= zd
        },
{
    let zg = lowest_high(first3(bis));
    let zd = highest_low(first3(bis));
    if zg >= zd {
        assert forall|i: int| 0 <= i < bis.len() implies (touches_band(#[trigger] bis[i], zg, zd) <==> (bi_low(bis[i]) <= zg
            && bi_high(bis[i]) >= zd)) by {
            assert(bi_low(bis[i]) <= bi_high(bis[i]));
        }
    }
}

/// A pivot: the band where consecutive strokes overlap.
#[derive(Debug, Clone)]
pub struct ZS {
    pub bis: Vec<BI>,
}

enum Extreme {
    HighestHigh,
    LowestHigh,
    LowestLow,
    HighestLow,
}

spec fn extreme_of(e: Extreme, bis: Seq<BI>) -> i64 {
    match e {
        Extreme::HighestHigh => highest_high(bis),
        Extreme::LowestHigh => lowest_high(bis),
        Extreme::LowestLow => lowest_low(bis),
        Extreme::HighestLow => highest_low(bis),
    }
}

fn extreme(bis: &[BI], e: Extreme) -> (r: i64)
    ensures
        r == extreme_of(e, bis@),
{
    let mut acc: i64 = match e {
        Extreme::HighestHigh => i64::MIN,
        Extreme::LowestHigh => i64::MAX,
        Extreme::LowestLow => i64::MAX,
        Extreme::HighestLow => i64::MIN,
    };
    let mut i: usize = 0;
    assert(bis@.take(0) =~= Seq::<BI>::empty());
    while i < bis.len()
        invariant
            i <= bis@.len(),
            acc == extreme_of(e, bis@.take(i as int)),
        decreases bis.len() - i,
    {
        assert(bis@.take(i + 1).drop_last() =~= bis@.take(i as int));
        assert(bis@.take(i + 1).last() == bis@[i as int]);
        let h = bis[i].high();
        let l = bis[i].low();
        acc = match e {
            Extreme::HighestHigh => if acc >= h { acc } else { h },
            Extreme::LowestHigh => if acc <= h { acc } else { h },
            Extreme::LowestLow => if acc <= l { acc } else { l },
            Extreme::HighestLow => if acc >= l { acc } else { l },
        };
        i = i + 1;
    }
    assert(bis@.take(bis@.len() as int) =~= bis@);
    acc
}

impl ZS {
    /// A pivot over the given strokes.
    pub fn new(bis: Vec<BI>) -> (r: ZS)
        ensures
            r.bis == bis,
    {
        ZS { bis }
    }

    /// The instrument: that of the first stroke.
    pub fn symbol(&self) -> (r: &str)
        requires
            self.bis@.len() > 0,
        ensures
            r@ == self.bis@[0].symbol@,
    {
        self.bis[0].symbol.as_str()
    }

    /// The start time: that of the first stroke.
    pub fn sdt(&self) -> (r: i64)
        requires
            self.bis@.len() > 0,
        ensures
            r == self.bis@[0].fx_a.dt,
    {
        self.bis[0].sdt()
    }

    /// The end time: that of the last stroke.
    pub fn edt(&self) -> (r: i64)
        requires
            self.bis@.len() > 0,
        ensures
            r == self.bis@.last().fx_b.dt,
    {
        self.bis[self.bis.len() - 1].edt()
    }

    /// The direction of the first stroke.
    pub fn sdir(&self) -> (r: Direction)
        requires
            self.bis@.len() > 0,
        ensures
            r == self.bis@[0].direction,
    {
        self.bis[0].direction
    }

    /// The direction of the last stroke.
    pub fn edir(&self) -> (r: Direction)
        requires
            self.bis@.len() > 0,
        ensures
            r == self.bis@.last().direction,
    {
        self.bis[self.bis.len() - 1].direction
    }

    /// The highest price of all strokes.
    pub fn gg(&self) -> (r: i64)
        ensures
            r == highest_high(self.bis@),
    {
        extreme(self.bis.as_slice(), Extreme::HighestHigh)
    }

    /// The upper edge: the lowest high of the first three strokes.
    pub fn zg(&self) -> (r: i64)
        ensures
            r == lowest_high(first3(self.bis@)),
    {
        let n = if self.bis.len() <= 3 { self.bis.len() } else { 3 };
        let head = &self.bis.as_slice()[0..n];
        assert(head@ =~= first3(self.bis@));
        extreme(head, Extreme::LowestHigh)
    }

    /// The lowest price of all strokes.
    pub fn dd(&self) -> (r: i64)
        ensures
            r == lowest_low(self.bis@),
    {
        extreme(self.bis.as_slice(), Extreme::LowestLow)
    }

    /// The lower edge: the highest low of the first three strokes.
    pub fn zd(&self) -> (r: i64)
        ensures
            r == highest_low(first3(self.bis@)),
    {
        let n = if self.bis.len() <= 3 { self.bis.len() } else { 3 };
        let head = &self.bis.as_slice()[0..n];
        assert(head@ =~= first3(self.bis@));
        extreme(head, Extreme::HighestLow)
    }

    /// Whether the pivot is valid: its band is not inverted and every stroke
    /// touches it.
    pub fn is_valid(&self) -> (r: bool)
        ensures
            r == zs_valid(self.bis@),
    {
        let zg = self.zg();
        let zd = self.zd();
        if zg < zd {
            return false;
        }
        let mut i: usize = 0;
        while i < self.bis.len()
            invariant
                i <= self.bis@.len(),
                zg == lowest_high(first3(self.bis@)),
                zd == highest_low(first3(self.bis@)),
                forall|j: int| 0 <= j < i ==> touches_band(#[trigger] self.bis@[j], zg, zd),
            decreases self.bis.len() - i,
        {
            let h = self.bis[i].high();
            let l = self.bis[i].low();
            if (zg >= h && h >= zd) || (zg >= l && l >= zd) || (h >= zg && zg >= zd && zd >= l) {
            } else {
                return false;
            }
            i = i + 1;
        }
        true
    }
}

} // verus!
