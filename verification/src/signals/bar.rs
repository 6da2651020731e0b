//! Signals read from the raw bars of an analysis.
use vstd::prelude::*;
use crate::bars::{RawBarView, raw_views};
use crate::enums::freq_label;
use crate::objects::{CZSC, Signal};
use crate::text::{chars_of, nat_text, owned, push_nat, push_str};

verus! {

/// Whether `p` occurs in `s`.
pub open spec fn contains_text(s: Seq<char>, p: Seq<char>) -> bool {
    exists|i: int| 0 <= i && i + p.len() <= s.len() && #[trigger] s.subrange(i, i + p.len()) == p
}

/// Whether `p` occurs in `s`.
pub fn has_text(s: &str, p: &str) -> (r: bool)
    ensures
        r == contains_text(s@, p@),
{
    let a = chars_of(s);
    let b = chars_of(p);
    if b.len() > a.len() {
        proof {
            assert forall|i: int| 0 <= i && i + p@.len() <= s@.len() implies #[trigger] s@.subrange(i, i + p@.len()) != p@ by {}
        }
        return false;
    }
    let n = a.len();
    let m = b.len();
    let mut i: usize = 0;
    while i <= n - m
        invariant
            n == a@.len(),
            m == b@.len(),
            a@ == s@,
            b@ == p@,
            b@.len() <= a@.len(),
            i <= a@.len() - b@.len() + 1,
            forall|j: int| 0 <= j < i ==> #[trigger] s@.subrange(j, j + p@.len()) != p@,
        decreases n - i,
    {
        let mut k: usize = 0;
        let mut same = true;
        while k < m
            invariant
                n == a@.len(),
                m == b@.len(),
                a@ == s@,
                b@ == p@,
                i + b@.len() <= a@.len(),
                k <= b@.len(),
                same == forall|t: int| 0 <= t < k ==> a@[i + t] == b@[t],
            decreases m - k,
        {
            if a[i + k] != b[k] {
                same = false;
            }
            k = k + 1;
        }
        if same {
            assert(s@.subrange(i as int, i + p@.len()) =~= p@);
            return true;
        }
        proof {
            assert(s@.subrange(i as int, i + p@.len()) != p@) by {
                let t = choose|t: int| 0 <= t < b@.len() && a@[i + t] != b@[t];
                assert(s@.subrange(i as int, i + p@.len())[t] == a@[i + t]);
            }
        }
        i = i + 1;
    }
    false
}

/// The signal that the period bar of `freq1` (a minute period) has closed; the
/// base bars are always taken as closing it.
pub fn bar_end_v221211(c: &CZSC, freq1: &str) -> (r: Signal)
    requires
        contains_text(freq1@, "分钟"@),
    ensures
        r.k1@ == freq_label(c.freq),
        r.k2@ == freq1@ + "结束_BS辅助221211"@,
        r.k3@ == "闭合"@,
        r.v1@ == "任意"@,
        r.v2@ == "任意"@,
        r.v3@ == "任意"@,
        r.score == 0,
{
    let mut k2 = owned(freq1);
    push_str(&mut k2, "结束_BS辅助221211");
    Signal::new(c.freq.label(), k2, owned("闭合"), owned("任意"), owned("任意"), owned("任意"), 0)
}

/// The limit-move label of bar `b1` after `b2`: closing at a high no lower than
/// the previous close is taken as limit up, closing at a low no higher than it as
/// limit down.
pub open spec fn zdt_label(b1: RawBarView, b2: RawBarView) -> Seq<char> {
    if b1.close == b1.high && b1.high >= b2.close {
        "涨停"@
    } else if b1.close == b1.low && b1.low <= b2.close {
        "跌停"@
    } else {
        "其他"@
    }
}

/// The limit-move signal of the `di`-th last bar (1 by default); with fewer than
/// `di + 2` bars there is nothing to say.
pub fn bar_zdt_v230331(c: &CZSC, di: Option<i32>) -> (r: Signal)
    requires
        (match di {
            Some(d) => d,
            None => 1i32,
        }) >= 1,
    ensures
        ({
            let d = match di {
                Some(d) => d,
                None => 1i32,
            };
            let bars = raw_views(c.bars_raw@);
            &&& r.k1@ == freq_label(c.freq)
            &&& r.k2@ == "D"@ + nat_text(d as nat) + "_涨跌停V230331"@
            &&& r.k3@ == if bars.len() < d + 2 {
                "其他"@
            } else {
                zdt_label(bars[bars.len() - d], bars[bars.len() - d - 1])
            }
            &&& r.v1@ == "任意"@
            &&& r.v2@ == "任意"@
            &&& r.v3@ == "任意"@
            &&& r.score == 0
        }),
{
    let d: i32 = match di {
        Some(d) => d,
        None => 1,
    };
    let mut k2 = owned("D");
    push_nat(&mut k2, d as u64);
    push_str(&mut k2, "_涨跌停V230331");
    let n = c.bars_raw.len();
    let du = d as usize;
    let v1 = if n < du + 2 {
        owned("其他")
    } else {
        let b1 = &c.bars_raw[n - du];
        let b2 = &c.bars_raw[n - du - 1];
        if b1.close == b1.high && b1.high >= b2.close {
            owned("涨停")
        } else if b1.close == b1.low && b1.low <= b2.close {
            owned("跌停")
        } else {
            owned("其他")
        }
    };
    Signal::new(c.freq.label(), k2, v1, owned("任意"), owned("任意"), owned("任意"), 0)
}

/// The pattern of three bars `b1` (latest), `b2`, `b3`: three rising bars, or
/// with rising highs and lows a new-high rise; three falling bars, or with
/// falling highs and lows a new-low fall; otherwise none.
pub open spec fn triple_label(b1: RawBarView, b2: RawBarView, b3: RawBarView) -> Seq<char> {
    if b1.close > b1.open && b2.close > b2.open && b3.close > b3.open {
        if b1.high > b2.high && b2.high > b3.high && b1.low > b2.low && b2.low > b3.low { "新高涨"@ } else { "三连涨"@ }
    } else if b1.close < b1.open && b2.close < b2.open && b3.close < b3.open {
        if b1.high < b2.high && b2.high < b3.high && b1.low < b2.low && b2.low < b3.low { "新低跌"@ } else { "三连跌"@ }
    } else {
        "其他"@
    }
}

/// How the volume of three bars moves: rising, falling, or neither.
pub open spec fn volume_label(b1: RawBarView, b2: RawBarView, b3: RawBarView) -> Seq<char> {
    if b1.vol > b2.vol && b2.vol > b3.vol {
        "依次放量"@
    } else if b1.vol < b2.vol && b2.vol < b3.vol {
        "依次缩量"@
    } else {
        "量柱无序"@
    }
}

/// The three-bar acceleration signal ending at the `di`-th last bar (1 by
/// default): the pattern of the three bars and, when there is one, how their
/// volume moves; with fewer than `6 + di` bars there is nothing to say.
pub fn bar_triple_v230506(c: &CZSC, di: Option<i32>) -> (r: Signal)
    requires
        (match di {
            Some(d) => d,
            None => 1i32,
        }) >= 1,
    ensures
        ({
            let d = match di {
                Some(d) => d,
                None => 1i32,
            };
            let bars = raw_views(c.bars_raw@);
            let i = bars.len() - d;
            &&& r.k1@ == freq_label(c.freq)
            &&& r.k2@ == "D"@ + nat_text(d as nat) + "三K加速_裸K形态V230506"@
            &&& if bars.len() < 6 + d {
                r.k3@ == "其他"@ && r.v1@ == "任意"@
            } else {
                r.k3@ == triple_label(bars[i], bars[i - 1], bars[i - 2]) && r.v1@ == if triple_label(bars[i], bars[i - 1], bars[i - 2]) == "其他"@ {
                    "任意"@
                } else {
                    volume_label(bars[i], bars[i - 1], bars[i - 2])
                }
            }
            &&& r.v2@ == "任意"@
            &&& r.v3@ == "任意"@
            &&& r.score == 0
        }),
{
    let d: i32 = match di {
        Some(d) => d,
        None => 1,
    };
    let mut k2 = owned("D");
    push_nat(&mut k2, d as u64);
    push_str(&mut k2, "三K加速_裸K形态V230506");
    let n = c.bars_raw.len();
    let du = d as usize;
    if n < 6 + du {
        return Signal::new(c.freq.label(), k2, owned("其他"), owned("任意"), owned("任意"), owned("任意"), 0);
    }
    let b1 = &c.bars_raw[n - du];
    let b2 = &c.bars_raw[n - du - 1];
    let b3 = &c.bars_raw[n - du - 2];
    let mut kind: u8 = 0;
    if b1.close > b1.open && b2.close > b2.open && b3.close > b3.open {
        kind = 1;
        if b1.high > b2.high && b2.high > b3.high && b1.low > b2.low && b2.low > b3.low {
            kind = 2;
        }
    }
    if b1.close < b1.open && b2.close < b2.open && b3.close < b3.open {
        kind = 3;
        if b1.high < b2.high && b2.high < b3.high && b1.low < b2.low && b2.low < b3.low {
            kind = 4;
        }
    }
    let v1 = if kind == 1 {
        owned("三连涨")
    } else if kind == 2 {
        owned("新高涨")
    } else if kind == 3 {
        owned("三连跌")
    } else if kind == 4 {
        owned("新低跌")
    } else {
        owned("其他")
    };
    if kind == 0 {
        proof {
            reveal_strlit("其他");
            reveal_strlit("三连涨");
        }
        return Signal::new(c.freq.label(), k2, v1, owned("任意"), owned("任意"), owned("任意"), 0);
    }
    let v2 = if b1.vol > b2.vol && b2.vol > b3.vol {
        owned("依次放量")
    } else if b1.vol < b2.vol && b2.vol < b3.vol {
        owned("依次缩量")
    } else {
        owned("量柱无序")
    };
    proof {
        reveal_strlit("其他");
        reveal_strlit("三连涨");
        reveal_strlit("新高涨");
        reveal_strlit("三连跌");
        reveal_strlit("新低跌");
        assert("其他"@[0] == '其');
        assert("三连涨"@[0] == '三');
        assert("新高涨"@[0] == '新');
        assert("三连跌"@[0] == '三');
        assert("新低跌"@[0] == '新');
    }
    Signal::new(c.freq.label(), k2, v1, v2, owned("任意"), owned("任意"), 0)
}

} // verus!
