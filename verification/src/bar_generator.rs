//! Resampling a stream of base-period bars into longer periods.
use vstd::prelude::*;
use vstd::hash_map::HashMapWithView;
use crate::bars::{RawBar, RawBarView, raw_views, max_i64, min_i64, copy_raw_bars};
use crate::enums::{Freq, freq_label, freq_of_text};
use crate::text::nat_text;

verus! {

/// Minutes in one bar of a period; a tick has none. A day counts 1440 minutes,
/// a month 30 days, a season 90 days and a year 365 days.
pub open spec fn freq_minutes(f: Freq) -> u32 {
    match f {
        Freq::Tick => 0,
        Freq::F1 => 1,
        Freq::F2 => 2,
        Freq::F3 => 3,
        Freq::F4 => 4,
        Freq::F5 => 5,
        Freq::F6 => 6,
        Freq::F10 => 10,
        Freq::F12 => 12,
        Freq::F15 => 15,
        Freq::F20 => 20,
        Freq::F30 => 30,
        Freq::F60 => 60,
        Freq::F120 => 120,
        Freq::D => 1440,
        Freq::W => 10080,
        Freq::M => 43200,
        Freq::S => 129600,
        Freq::Y => 525600,
    }
}

/// How many base bars make one bar of the target period: the whole number of
/// base periods in the target period, or one when the target is shorter.
pub open spec fn resample_factor(from: Freq, to: Freq) -> nat {
    if freq_minutes(to) >= freq_minutes(from) {
        (freq_minutes(to) / freq_minutes(from)) as nat
    } else {
        1
    }
}

/// The first bar of a group, relabelled with the target period.
pub open spec fn start_bar(b: RawBarView, to: Freq) -> RawBarView {
    RawBarView {
        symbol: b.symbol,
        id: b.id,
        dt: b.dt,
        freq: to,
        open: b.open,
        close: b.close,
        high: b.high,
        low: b.low,
        vol: b.vol,
        amount: b.amount,
    }
}

/// A group bar after taking in the next base bar: the close moves on, the range
/// widens, and volume and amount add up.
pub open spec fn absorb(acc: RawBarView, b: RawBarView) -> RawBarView {
    RawBarView {
        symbol: acc.symbol,
        id: acc.id,
        dt: acc.dt,
        freq: acc.freq,
        open: acc.open,
        close: b.close,
        high: max_i64(acc.high, b.high),
        low: min_i64(acc.low, b.low),
        vol: (acc.vol + b.vol) as i64,
        amount: (acc.amount + b.amount) as i64,
    }
}

/// One bar made of a non-empty run of base bars.
pub open spec fn merged_run(s: Seq<RawBarView>, to: Freq) -> RawBarView
    decreases s.len(),
{
    if s.len() <= 1 {
        start_bar(s[0], to)
    } else {
        absorb(merged_run(s.drop_last(), to), s.last())
    }
}

/// The bars made of consecutive groups of `k` base bars; the last group may be short.
pub open spec fn groups(s: Seq<RawBarView>, k: nat, to: Freq) -> Seq<RawBarView>
    decreases s.len(),
{
    if s.len() == 0 || k == 0 {
        Seq::empty()
    } else if s.len() <= k {
        seq![merged_run(s, to)]
    } else {
        seq![merged_run(s.take(k as int), to)] + groups(s.skip(k as int), k, to)
    }
}

/// Base bars resampled to the target period; when one base bar already spans
/// the target period the bars come back unchanged.
pub open spec fn resampled(s: Seq<RawBarView>, from: Freq, to: Freq) -> Seq<RawBarView> {
    if s.len() == 0 {
        Seq::empty()
    } else if resample_factor(from, to) <= 1 {
        s
    } else {
        groups(s, resample_factor(from, to), to)
    }
}

/// The absolute value of an integer.
pub open spec fn abs_int(x: int) -> int {
    if x < 0 { -x } else { x }
}

/// The sum of the absolute volumes of a run of bars.
pub open spec fn vol_mass(s: Seq<RawBarView>) -> int
    decreases s.len(),
{
    if s.len() == 0 { 0 } else { vol_mass(s.drop_last()) + abs_int(s.last().vol as int) }
}

/// The sum of the absolute amounts of a run of bars.
pub open spec fn amount_mass(s: Seq<RawBarView>) -> int
    decreases s.len(),
{
    if s.len() == 0 { 0 } else { amount_mass(s.drop_last()) + abs_int(s.last().amount as int) }
}

/// The total volume of a run of bars.
pub open spec fn run_vol(s: Seq<RawBarView>) -> int
    decreases s.len(),
{
    if s.len() == 0 { 0 } else { run_vol(s.drop_last()) + s.last().vol }
}

/// The total amount of a run of bars.
pub open spec fn run_amount(s: Seq<RawBarView>) -> int
    decreases s.len(),
{
    if s.len() == 0 { 0 } else { run_amount(s.drop_last()) + s.last().amount }
}

/// Whether adding up the volumes and amounts of any run of these bars stays
/// within `i64`: their absolute totals do.
pub open spec fn sums_fit(s: Seq<RawBarView>) -> bool {
    vol_mass(s) <= i64::MAX && amount_mass(s) <= i64::MAX
}

pub(crate) proof fn lemma_mass_nonneg(s: Seq<RawBarView>)
    ensures
        vol_mass(s) >= 0,
        amount_mass(s) >= 0,
        abs_int(run_vol(s)) <= vol_mass(s),
        abs_int(run_amount(s)) <= amount_mass(s),
    decreases s.len(),
{
    if s.len() > 0 {
        lemma_mass_nonneg(s.drop_last());
    }
}

pub(crate) proof fn lemma_mass_concat(a: Seq<RawBarView>, b: Seq<RawBarView>)
    ensures
        vol_mass(a + b) == vol_mass(a) + vol_mass(b),
        amount_mass(a + b) == amount_mass(a) + amount_mass(b),
    decreases b.len(),
{
    if b.len() == 0 {
        assert(a + b =~= a);
    } else {
        lemma_mass_concat(a, b.drop_last());
        assert((a + b).drop_last() =~= a + b.drop_last());
        assert((a + b).last() == b.last());
    }
}

/// Any run inside `s` weighs no more than `s`.
pub(crate) proof fn lemma_mass_subrange(s: Seq<RawBarView>, x: int, y: int)
    requires
        0 <= x <= y <= s.len(),
    ensures
        vol_mass(s.subrange(x, y)) <= vol_mass(s),
        amount_mass(s.subrange(x, y)) <= amount_mass(s),
{
    let a = s.take(x);
    let m = s.subrange(x, y);
    let c = s.skip(y);
    assert(s =~= a + m + c);
    lemma_mass_concat(a + m, c);
    lemma_mass_concat(a, m);
    lemma_mass_nonneg(a);
    lemma_mass_nonneg(c);
}

/// Extending the bars by a group-aligned run of up to `k` bars adds one group bar.
proof fn lemma_groups_step(s: Seq<RawBarView>, k: nat, to: Freq, m: nat, r: nat)
    requires
        k >= 1,
        0 < r <= k,
        m * k + r <= s.len(),
    ensures
        groups(s.take((m * k + r) as int), k, to) == groups(s.take((m * k) as int), k, to).push(
            merged_run(s.subrange((m * k) as int, (m * k + r) as int), to),
        ),
    decreases m,
{
    if m == 0 {
        assert(m * k == 0) by (nonlinear_arith)
            requires
                m == 0,
        ;
        assert(s.subrange(0, r as int) =~= s.take(r as int));
        assert(s.take(0) =~= Seq::<RawBarView>::empty());
        assert(groups(s.take(0), k, to) =~= Seq::<RawBarView>::empty());
        assert(groups(s.take(r as int), k, to) =~= seq![merged_run(s.take(r as int), to)]);
    } else {
        let mm = (m - 1) as nat;
        assert(m * k == mm * k + k) by (nonlinear_arith)
            requires
                mm == m - 1,
        ;
        let s2 = s.skip(k as int);
        lemma_groups_step(s2, k, to, mm, r);
        let t = s.take((m * k + r) as int);
        assert(t.take(k as int) =~= s.take(k as int));
        assert(t.skip(k as int) =~= s2.take((mm * k + r) as int));
        assert(s2.subrange((mm * k) as int, (mm * k + r) as int) =~= s.subrange((m * k) as int, (m * k + r) as int));
        let u = s.take((m * k) as int);
        if mm == 0 {
            assert(u =~= s.take(k as int));
            assert(s2.take(0) =~= Seq::<RawBarView>::empty());
            assert(groups(s2.take(0), k, to) =~= Seq::<RawBarView>::empty());
            assert(groups(u, k, to) =~= seq![merged_run(s.take(k as int), to)]);
        } else {
            assert(mm * k >= k) by (nonlinear_arith)
                requires
                    mm >= 1,
            ;
            assert(u.take(k as int) =~= s.take(k as int));
            assert(u.skip(k as int) =~= s2.take((mm * k) as int));
        }
        assert(groups(t, k, to) =~= groups(u, k, to).push(
            merged_run(s.subrange((m * k) as int, (m * k + r) as int), to),
        ));
    }
}

/// Resampling bars to their own period gives them back unchanged.
pub proof fn law_resample_to_own_period(s: Seq<RawBarView>, f: Freq)
    requires
        freq_minutes(f) > 0,
    ensures
        resampled(s, f, f) == s,
{
    let x = freq_minutes(f) as int;
    assert(x / x == 1) by (nonlinear_arith)
        requires
            x > 0,
    ;
}

proof fn lemma_run_concat(a: Seq<RawBarView>, b: Seq<RawBarView>)
    ensures
        run_vol(a + b) == run_vol(a) + run_vol(b),
        run_amount(a + b) == run_amount(a) + run_amount(b),
    decreases b.len(),
{
    if b.len() == 0 {
        assert(a + b =~= a);
    } else {
        lemma_run_concat(a, b.drop_last());
        assert((a + b).drop_last() =~= a + b.drop_last());
    }
}

proof fn lemma_merged_totals(c: Seq<RawBarView>, to: Freq)
    requires
        c.len() >= 1,
        sums_fit(c),
    ensures
        merged_run(c, to).vol == run_vol(c),
        merged_run(c, to).amount == run_amount(c),
    decreases c.len(),
{
    lemma_mass_nonneg(c);
    if c.len() == 1 {
        assert(c.drop_last() =~= Seq::<RawBarView>::empty());
        assert(merged_run(c, to) == start_bar(c[0], to));
        assert(run_vol(c) == run_vol(c.drop_last()) + c.last().vol);
        assert(run_amount(c) == run_amount(c.drop_last()) + c.last().amount);
        assert(c.last() == c[0]);
    } else {
        let p = c.drop_last();
        lemma_mass_subrange(c, 0, c.len() - 1);
        assert(c.subrange(0, c.len() - 1) =~= p);
        lemma_merged_totals(p, to);
        assert(merged_run(c, to) == absorb(merged_run(p, to), c.last()));
        assert(run_vol(c) == run_vol(p) + c.last().vol);
        assert(run_amount(c) == run_amount(p) + c.last().amount);
        assert(i64::MIN <= run_vol(c) <= i64::MAX);
        assert(i64::MIN <= run_amount(c) <= i64::MAX);
    }
}

proof fn lemma_groups_totals(s: Seq<RawBarView>, k: nat, to: Freq)
    requires
        k >= 1,
        sums_fit(s),
    ensures
        run_vol(groups(s, k, to)) == run_vol(s),
        run_amount(groups(s, k, to)) == run_amount(s),
    decreases s.len(),
{
    if s.len() == 0 {
    } else if s.len() <= k {
        lemma_merged_totals(s, to);
        let one = seq![merged_run(s, to)];
        assert(one.drop_last() =~= Seq::<RawBarView>::empty());
        assert(groups(s, k, to) == one);
        assert(run_vol(one) == run_vol(one.drop_last()) + one.last().vol);
        assert(run_amount(one) == run_amount(one.drop_last()) + one.last().amount);
    } else {
        let head = s.take(k as int);
        let tail = s.skip(k as int);
        lemma_mass_subrange(s, 0, k as int);
        assert(s.subrange(0, k as int) =~= head);
        lemma_mass_subrange(s, k as int, s.len() as int);
        assert(s.subrange(k as int, s.len() as int) =~= tail);
        lemma_merged_totals(head, to);
        lemma_groups_totals(tail, k, to);
        let one = seq![merged_run(head, to)];
        assert(one.drop_last() =~= Seq::<RawBarView>::empty());
        assert(groups(s, k, to) == one + groups(tail, k, to));
        assert(run_vol(one) == run_vol(one.drop_last()) + one.last().vol);
        assert(run_amount(one) == run_amount(one.drop_last()) + one.last().amount);
        lemma_run_concat(one, groups(tail, k, to));
        assert(s =~= head + tail);
        lemma_run_concat(head, tail);
    }
}

/// Resampling keeps the total volume and the total amount of the bars, when
/// those totals fit in `i64`.
pub proof fn law_resample_preserves_totals(s: Seq<RawBarView>, from: Freq, to: Freq)
    requires
        s.len() == 0 || freq_minutes(from) > 0,
        sums_fit(s),
    ensures
        run_vol(resampled(s, from, to)) == run_vol(s),
        run_amount(resampled(s, from, to)) == run_amount(s),
{
    if s.len() > 0 && resample_factor(from, to) > 1 {
        lemma_groups_totals(s, resample_factor(from, to), to);
    }
}

/// However many bars arrive, a generator that starts with at most `max_count`
/// base bars keeps at most `max_count` of them, and the newest bar is the last
/// one kept whenever any is kept.
pub proof fn law_kept_within_max(s: Seq<RawBarView>, bar: RawBarView, max_count: usize)
    requires
        s.len() <= max_count,
    ensures
        kept(s, bar, max_count).len() <= max_count,
        kept(s, bar, max_count).len() > 0 ==> kept(s, bar, max_count).last() == bar,
{
}

/// With at most `max_count` (at least one) base bars held, the bars kept after
/// one more arrives are the last `min(len + 1, max_count)` of the old bars
/// followed by the new one.
pub proof fn law_kept_is_the_latest_window(s: Seq<RawBarView>, bar: RawBarView, max_count: usize)
    requires
        max_count >= 1,
        s.len() <= max_count,
    ensures
        kept(s, bar, max_count) == s.push(bar).skip(
            s.len() + 1 - if s.len() + 1 < max_count {
                s.len() + 1 as int
            } else {
                max_count as int
            },
        ),
        kept(s, bar, max_count).len() == if s.len() + 1 < max_count {
            s.len() + 1 as int
        } else {
            max_count as int
        },
{
    if s.len() + 1 > max_count {
        assert(s.push(bar).drop_first() =~= s.push(bar).skip(1));
    } else {
        assert(s.push(bar) =~= s.push(bar).skip(0));
    }
}

/// Whether a period is counted in minutes (one minute to two hours).
pub open spec fn is_minute_period(f: Freq) -> bool {
    !(f is Tick || f is D || f is W || f is M || f is S || f is Y)
}

/// Each period's length in minutes is its real length: a minute period lasts as
/// many minutes as its label says (`15分钟` is 15), a day is 24 hours, a week 7
/// days, a month 30 days, a quarter 3 months and a year 365 days; a tick has no
/// length.
pub proof fn law_period_lengths(f: Freq)
    ensures
        is_minute_period(f) ==> freq_label(f) == nat_text(freq_minutes(f) as nat) + "分钟"@,
        freq_minutes(Freq::Tick) == 0,
        freq_minutes(Freq::D) == 24 * freq_minutes(Freq::F60),
        freq_minutes(Freq::W) == 7 * freq_minutes(Freq::D),
        freq_minutes(Freq::M) == 30 * freq_minutes(Freq::D),
        freq_minutes(Freq::S) == 3 * freq_minutes(Freq::M),
        freq_minutes(Freq::Y) == 365 * freq_minutes(Freq::D),
{
    reveal_with_fuel(nat_text, 4);
    reveal_strlit("分钟");
    match f {
        Freq::F1 => {
            reveal_strlit("1分钟");
            assert(freq_label(f) =~= nat_text(1) + "分钟"@);
        },
        Freq::F2 => {
            reveal_strlit("2分钟");
            assert(freq_label(f) =~= nat_text(2) + "分钟"@);
        },
        Freq::F3 => {
            reveal_strlit("3分钟");
            assert(freq_label(f) =~= nat_text(3) + "分钟"@);
        },
        Freq::F4 => {
            reveal_strlit("4分钟");
            assert(freq_label(f) =~= nat_text(4) + "分钟"@);
        },
        Freq::F5 => {
            reveal_strlit("5分钟");
            assert(freq_label(f) =~= nat_text(5) + "分钟"@);
        },
        Freq::F6 => {
            reveal_strlit("6分钟");
            assert(freq_label(f) =~= nat_text(6) + "分钟"@);
        },
        Freq::F10 => {
            reveal_strlit("10分钟");
            assert(nat_text(10) =~= seq!['1', '0']);
            assert(freq_label(f) =~= nat_text(10) + "分钟"@);
        },
        Freq::F12 => {
            reveal_strlit("12分钟");
            assert(nat_text(12) =~= seq!['1', '2']);
            assert(freq_label(f) =~= nat_text(12) + "分钟"@);
        },
        Freq::F15 => {
            reveal_strlit("15分钟");
            assert(nat_text(15) =~= seq!['1', '5']);
            assert(freq_label(f) =~= nat_text(15) + "分钟"@);
        },
        Freq::F20 => {
            reveal_strlit("20分钟");
            assert(nat_text(20) =~= seq!['2', '0']);
            assert(freq_label(f) =~= nat_text(20) + "分钟"@);
        },
        Freq::F30 => {
            reveal_strlit("30分钟");
            assert(nat_text(30) =~= seq!['3', '0']);
            assert(freq_label(f) =~= nat_text(30) + "分钟"@);
        },
        Freq::F60 => {
            reveal_strlit("60分钟");
            assert(nat_text(60) =~= seq!['6', '0']);
            assert(freq_label(f) =~= nat_text(60) + "分钟"@);
        },
        Freq::F120 => {
            reveal_strlit("120分钟");
            assert(nat_text(12) =~= seq!['1', '2']);
            assert(nat_text(120) =~= seq!['1', '2', '0']);
            assert(freq_label(f) =~= nat_text(120) + "分钟"@);
        },
        _ => {},
    }
}

proof fn lemma_groups_len(s: Seq<RawBarView>, k: nat, to: Freq)
    requires
        k >= 1,
        s.len() > 0,
    ensures
        groups(s, k, to).len() == (s.len() + k - 1) / (k as int),
    decreases s.len(),
{
    let n = s.len() as int;
    let ki = k as int;
    if s.len() <= k {
        assert((n + ki - 1) / ki == 1) by (nonlinear_arith)
            requires
                1 <= n <= ki,
        ;
    } else {
        lemma_groups_len(s.skip(k as int), k, to);
        assert(s.skip(k as int).len() == n - ki);
        assert((n + ki - 1) / ki == (n - ki + ki - 1) / ki + 1) by (nonlinear_arith)
            requires
                ki >= 1,
                n > ki,
        {
            assert(n + ki - 1 == (n - 1) + ki);
            assert(((n - 1) + ki) / ki == (n - 1) / ki + 1) by (nonlinear_arith)
                requires
                    ki >= 1,
                    n - 1 >= 0,
            ;
        }
    }
}

/// Resampling one-minute bars to a period of `m` minutes makes one bar of each
/// run of `m` bars (the last run may be shorter): as many bars as `m` goes into
/// the number of bars, rounded up; in particular `m` one-minute bars make
/// exactly one bar, their merged run.
pub proof fn law_one_minute_bars_group_by_period_length(s: Seq<RawBarView>, to: Freq)
    requires
        freq_minutes(to) >= 1,
        s.len() > 0,
    ensures
        resample_factor(Freq::F1, to) == freq_minutes(to),
        resampled(s, Freq::F1, to).len() == (s.len() + freq_minutes(to) - 1) / (freq_minutes(to) as int),
        s.len() == freq_minutes(to) && freq_minutes(to) > 1 ==> resampled(s, Freq::F1, to) == seq![merged_run(s, to)],
{
    let m = freq_minutes(to) as int;
    assert(m / 1 == m);
    if m > 1 {
        lemma_groups_len(s, m as nat, to);
    } else {
        assert((s.len() + 1 - 1) / 1 == s.len() as int);
    }
}

/// The minutes in one bar of `freq`.
pub fn freq_to_minutes(freq: Freq) -> (r: u32)
    ensures
        r == freq_minutes(freq),
{
    match freq {
        Freq::Tick => 0,
        Freq::F1 => 1,
        Freq::F2 => 2,
        Freq::F3 => 3,
        Freq::F4 => 4,
        Freq::F5 => 5,
        Freq::F6 => 6,
        Freq::F10 => 10,
        Freq::F12 => 12,
        Freq::F15 => 15,
        Freq::F20 => 20,
        Freq::F30 => 30,
        Freq::F60 => 60,
        Freq::F120 => 120,
        Freq::D => 24 * 60,
        Freq::W => 7 * 24 * 60,
        Freq::M => 30 * 24 * 60,
        Freq::S => 90 * 24 * 60,
        Freq::Y => 365 * 24 * 60,
    }
}

/// How many bars of `from_freq` make one bar of `to_freq`; the base period must
/// not be `Tick`, which has no length.
pub fn get_resample_factor(from_freq: Freq, to_freq: Freq) -> (r: usize)
    requires
        freq_minutes(from_freq) > 0,
    ensures
        r == resample_factor(from_freq, to_freq),
{
    let from_minutes = freq_to_minutes(from_freq);
    let to_minutes = freq_to_minutes(to_freq);
    if to_minutes >= from_minutes {
        (to_minutes / from_minutes) as usize
    } else {
        1
    }
}

/// Resamples base bars of `from_freq` into bars of `to_freq`: each group of
/// `get_resample_factor` consecutive bars becomes one bar with the first bar's
/// symbol, id, time and open, the last bar's close, the highest high, the lowest
/// low, and the summed volume and amount.
pub fn resample_bars(bars: &[RawBar], from_freq: Freq, to_freq: Freq) -> (r: Vec<RawBar>)
    requires
        bars@.len() == 0 || freq_minutes(from_freq) > 0,
        sums_fit(raw_views(bars@)),
    ensures
        raw_views(r@) == resampled(raw_views(bars@), from_freq, to_freq),
{
    if bars.len() == 0 {
        let out: Vec<RawBar> = Vec::new();
        assert(raw_views(out@) =~= Seq::<RawBarView>::empty());
        return out;
    }
    let factor = get_resample_factor(from_freq, to_freq);
    if factor <= 1 {
        return copy_raw_bars(bars);
    }
    let ghost s = raw_views(bars@);
    let ghost k = factor as nat;
    let mut out: Vec<RawBar> = Vec::new();
    let mut cur = bars[0].duplicate();
    let mut count: usize = 0;
    let mut i: usize = 0;
    let ghost mut m: nat = 0;
    assert(s.take(0) =~= Seq::<RawBarView>::empty());
    assert(raw_views(out@) =~= groups(s.take(0), k, to_freq));
    while i < bars.len()
        invariant
            s == raw_views(bars@),
            k == factor,
            k >= 2,
            count < factor,
            m * k + count == i,
            i <= bars@.len(),
            sums_fit(s),
            raw_views(out@) == groups(s.take((m * k) as int), k, to_freq),
            count > 0 ==> cur@ == merged_run(s.subrange((m * k) as int, i as int), to_freq),
            count > 0 ==> cur.vol == run_vol(s.subrange((m * k) as int, i as int)),
            count > 0 ==> cur.amount == run_amount(s.subrange((m * k) as int, i as int)),
        decreases bars.len() - i,
    {
        let ghost start = (m * k) as int;
        let ghost run = s.subrange(start, i + 1);
        assert(run.drop_last() =~= s.subrange(start, i as int));
        assert(run.last() == bars@[i as int]@);
        let b = &bars[i];
        if count == 0 {
            cur = RawBar {
                symbol: b.symbol.clone(),
                id: b.id,
                dt: b.dt,
                freq: to_freq,
                open: b.open,
                close: b.close,
                high: b.high,
                low: b.low,
                vol: b.vol,
                amount: b.amount,
            };
            assert(s.subrange(start, i as int) =~= Seq::<RawBarView>::empty());
            assert(run_vol(run) == run_vol(run.drop_last()) + b.vol);
            assert(run_amount(run) == run_amount(run.drop_last()) + b.amount);
            assert(merged_run(run, to_freq) == start_bar(bars@[i as int]@, to_freq));
        } else {
            proof {
                lemma_mass_subrange(s, start, i + 1);
                lemma_mass_nonneg(run);
            }
            if b.high > cur.high {
                cur.high = b.high;
            }
            if b.low < cur.low {
                cur.low = b.low;
            }
            cur.close = b.close;
            cur.vol = cur.vol + b.vol;
            cur.amount = cur.amount + b.amount;
        }
        count = count + 1;
        if count >= factor {
            proof {
                lemma_groups_step(s, k, to_freq, m, k);
                assert(m * k + k == (m + 1) * k) by (nonlinear_arith);
            }
            out.push(cur.duplicate());
            proof {
                m = m + 1;
            }
            count = 0;
        }
        i = i + 1;
    }
    if count > 0 {
        proof {
            lemma_groups_step(s, k, to_freq, m, count as nat);
        }
        out.push(cur.duplicate());
    }
    assert(s.take(s.len() as int) =~= s);
    out
}

/// The key under which the bars of a period are stored.
pub open spec fn freq_key(f: Freq) -> u64 {
    match f {
        Freq::Tick => 0,
        Freq::F1 => 1,
        Freq::F2 => 2,
        Freq::F3 => 3,
        Freq::F4 => 4,
        Freq::F5 => 5,
        Freq::F6 => 6,
        Freq::F10 => 7,
        Freq::F12 => 8,
        Freq::F15 => 9,
        Freq::F20 => 10,
        Freq::F30 => 11,
        Freq::F60 => 12,
        Freq::F120 => 13,
        Freq::D => 14,
        Freq::W => 15,
        Freq::M => 16,
        Freq::S => 17,
        Freq::Y => 18,
    }
}

/// The key under which the bars of `f` are stored.
pub fn key_of(f: Freq) -> (r: u64)
    ensures
        r == freq_key(f),
{
    match f {
        Freq::Tick => 0,
        Freq::F1 => 1,
        Freq::F2 => 2,
        Freq::F3 => 3,
        Freq::F4 => 4,
        Freq::F5 => 5,
        Freq::F6 => 6,
        Freq::F10 => 7,
        Freq::F12 => 8,
        Freq::F15 => 9,
        Freq::F20 => 10,
        Freq::F30 => 11,
        Freq::F60 => 12,
        Freq::F120 => 13,
        Freq::D => 14,
        Freq::W => 15,
        Freq::M => 16,
        Freq::S => 17,
        Freq::Y => 18,
    }
}

/// Builds bars of longer periods from a stream of base-period bars.
///
/// `bars` holds, under the key of each period (`key_of`), the bars of that period.
pub struct BarGenerator {
    pub base_freq: Freq,
    pub freqs: Vec<Freq>,
    pub bi_zs: bool,
    pub max_count: usize,
    pub symbol: Option<String>,
    pub bars: HashMapWithView<u64, Vec<RawBar>>,
    pub completed_k_data: HashMapWithView<u64, Vec<RawBar>>,
}

/// The base bars after `bar` arrives: appended, and the oldest one dropped when
/// there are more than `max_count`.
pub open spec fn kept(s: Seq<RawBarView>, bar: RawBarView, max_count: usize) -> Seq<RawBarView> {
    if s.len() + 1 > max_count {
        s.push(bar).drop_first()
    } else {
        s.push(bar)
    }
}

impl BarGenerator {
    /// The bars held for period `f`, if it has any entry.
    pub open spec fn series(&self, f: Freq) -> Option<Seq<RawBarView>> {
        if self.bars@.contains_key(freq_key(f)) {
            Some(raw_views(self.bars@[freq_key(f)]@))
        } else {
            None
        }
    }

    /// A generator holds an entry for its base period.
    pub open spec fn well_formed(&self) -> bool {
        self.series(self.base_freq) is Some
    }

    /// A generator for the base period named by `base_freq` (see `Freq::parse_text`)
    /// and the longer periods `sec_freqs`, keeping at most `max_count` base bars;
    /// every period starts with no bars.
    pub fn new(base_freq: &str, sec_freqs: &[Freq], max_count: usize) -> (r: BarGenerator)
        requires
            freq_of_text(base_freq@) is Some,
        ensures
            r.base_freq == freq_of_text(base_freq@)->0,
            r.freqs@ == sec_freqs@,
            !r.bi_zs,
            r.max_count == max_count,
            r.symbol is None,
            forall|f: Freq| #[trigger] r.series(f) == if f == r.base_freq || sec_freqs@.contains(f) {
                Some(Seq::<RawBarView>::empty())
            } else {
                None::<Seq<RawBarView>>
            },
            r.completed_k_data@ == Map::<u64, Vec<RawBar>>::empty(),
            r.well_formed(),
    {
        broadcast use vstd::std_specs::hash::group_hash_axioms;
        let base = match Freq::parse_text(base_freq) {
            Some(f) => f,
            None => Freq::F1,
        };
        let mut bars: HashMapWithView<u64, Vec<RawBar>> = HashMapWithView::new();
        bars.insert(key_of(base), Vec::new());
        let mut freqs: Vec<Freq> = Vec::new();
        let mut i: usize = 0;
        while i < sec_freqs.len()
            invariant
                i <= sec_freqs@.len(),
                freqs@ == sec_freqs@.take(i as int),
                forall|k: u64| #[trigger] bars@.contains_key(k) <==> (k == freq_key(base) || exists|j: int| 0 <= j < i && freq_key(sec_freqs@[j]) == k),
                forall|k: u64| #[trigger] bars@.contains_key(k) ==> bars@[k]@.len() == 0,
            decreases sec_freqs.len() - i,
        {
            let f = sec_freqs[i];
            bars.insert(key_of(f), Vec::new());
            freqs.push(f);
            i = i + 1;
            assert(freqs@ =~= sec_freqs@.take(i as int));
        }
        assert(sec_freqs@.take(sec_freqs@.len() as int) =~= sec_freqs@);
        let r = BarGenerator {
            base_freq: base,
            freqs,
            bi_zs: false,
            max_count,
            symbol: None,
            bars,
            completed_k_data: HashMapWithView::new(),
        };
        assert forall|f: Freq| #[trigger] r.series(f) == if f == r.base_freq || sec_freqs@.contains(f) {
            Some(Seq::<RawBarView>::empty())
        } else {
            None::<Seq<RawBarView>>
        } by {
            if sec_freqs@.contains(f) {
                let j = choose|j: int| 0 <= j < sec_freqs@.len() && sec_freqs@[j] == f;
                assert(freq_key(sec_freqs@[j]) == freq_key(f));
            }
            if r.bars@.contains_key(freq_key(f)) {
                assert(raw_views(r.bars@[freq_key(f)]@) =~= Seq::<RawBarView>::empty());
                if f != r.base_freq {
                    let j = choose|j: int| 0 <= j < sec_freqs@.len() && freq_key(sec_freqs@[j]) == freq_key(f);
                    assert(sec_freqs@[j] == f);
                }
            }
        }
        r
    }

    /// Rebuilds the bars of every period in `freqs` from the base bars.
    fn update_high_freq_bars(&mut self, bar: &RawBar)
        requires
            old(self).well_formed(),
            old(self).freqs@.len() > 0 ==> freq_minutes(old(self).base_freq) > 0,
            old(self).freqs@.len() > 0 ==> sums_fit(old(self).series(old(self).base_freq)->0),
        ensures
            final(self).base_freq == old(self).base_freq,
            final(self).freqs@ == old(self).freqs@,
            final(self).bi_zs == old(self).bi_zs,
            final(self).max_count == old(self).max_count,
            final(self).symbol == old(self).symbol,
            final(self).completed_k_data@ == old(self).completed_k_data@,
            final(self).series(old(self).base_freq) == old(self).series(old(self).base_freq),
            forall|f: Freq| f != old(self).base_freq ==> #[trigger] final(self).series(f) == if old(
                self,
            ).freqs@.contains(f) {
                Some(resampled(old(self).series(old(self).base_freq)->0, old(self).base_freq, f))
            } else {
                old(self).series(f)
            },
    {
        let ghost nb = old(self).series(old(self).base_freq)->0;
        let ghost base = old(self).base_freq;
        let bk = key_of(self.base_freq);
        let mut j: usize = 0;
        while j < self.freqs.len()
            invariant
                self.base_freq == base,
                bk == freq_key(base),
                self.freqs@ == old(self).freqs@,
                self.bi_zs == old(self).bi_zs,
                self.max_count == old(self).max_count,
                self.symbol == old(self).symbol,
                self.completed_k_data@ == old(self).completed_k_data@,
                j <= self.freqs@.len(),
                self.freqs@.len() > 0 ==> freq_minutes(base) > 0,
                self.freqs@.len() > 0 ==> sums_fit(nb),
                self.series(base) == Some(nb),
                forall|f: Freq| f != base ==> #[trigger] self.series(f) == if self.freqs@.take(j as int).contains(f) {
                    Some(resampled(nb, base, f))
                } else {
                    old(self).series(f)
                },
            decreases self.freqs@.len() - j,
        {
            let f = self.freqs[j];
            let high = match self.bars.get(&bk) {
                Some(b) => resample_bars(b.as_slice(), self.base_freq, f),
                None => Vec::new(),
            };
            proof {
                if f == base {
                    law_resample_to_own_period(nb, base);
                }
            }
            let ghost pre = *self;
            self.bars.insert(key_of(f), high);
            proof {
                assert forall|g: Freq| g != base implies #[trigger] self.series(g) == if self.freqs@.take(j + 1).contains(g) {
                    Some(resampled(nb, base, g))
                } else {
                    old(self).series(g)
                } by {
                    assert(self.freqs@.take(j + 1) =~= self.freqs@.take(j as int).push(f));
                    if g == f {
                        assert(self.freqs@.take(j + 1)[j as int] == f);
                        assert(self.freqs@.take(j + 1).contains(g));
                    } else {
                        assert(freq_key(g) != freq_key(f));
                        assert(self.series(g) == pre.series(g));
                        if self.freqs@.take(j + 1).contains(g) {
                            let t = choose|t: int| 0 <= t < j + 1 && #[trigger] self.freqs@.take(j + 1)[t] == g;
                            assert(self.freqs@.take(j as int)[t] == g);
                        }
                    }
                }
            }
            j = j + 1;
        }
        proof {
            assert(self.freqs@.take(self.freqs@.len() as int) =~= self.freqs@);
        }
    }

    /// Takes in a new base bar: records its symbol, appends it to the base bars
    /// (dropping the oldest when there are more than `max_count`), and rebuilds the
    /// bars of every period in `freqs` from the base bars. Resampling needs a base
    /// period with a length, and volumes and amounts whose totals fit in `i64`.
    pub fn update(&mut self, bar: &RawBar)
        requires
            old(self).well_formed(),
            old(self).freqs@.len() > 0 ==> freq_minutes(old(self).base_freq) > 0,
            old(self).freqs@.len() > 0 ==> sums_fit(old(self).series(old(self).base_freq)->0.push(bar@)),
        ensures
            final(self).base_freq == old(self).base_freq,
            final(self).freqs@ == old(self).freqs@,
            final(self).bi_zs == old(self).bi_zs,
            final(self).max_count == old(self).max_count,
            final(self).completed_k_data@ == old(self).completed_k_data@,
            final(self).symbol is Some,
            final(self).symbol->0@ == bar.symbol@,
            final(self).series(old(self).base_freq) == Some(
                kept(old(self).series(old(self).base_freq)->0, bar@, old(self).max_count),
            ),
            forall|f: Freq| f != old(self).base_freq ==> #[trigger] final(self).series(f) == if old(
                self,
            ).freqs@.contains(f) {
                Some(
                    resampled(
                        kept(old(self).series(old(self).base_freq)->0, bar@, old(self).max_count),
                        old(self).base_freq,
                        f,
                    ),
                )
            } else {
                old(self).series(f)
            },
            final(self).well_formed(),
    {
        let ghost s0 = old(self).series(old(self).base_freq)->0;
        let ghost nb = kept(s0, bar@, old(self).max_count);
        self.symbol = Some(bar.symbol.clone());
        let bk = key_of(self.base_freq);
        let mut base_bars = match self.bars.remove(&bk) {
            Some(v) => v,
            None => Vec::new(),
        };
        let ghost before = base_bars@;
        base_bars.push(bar.duplicate());
        assert(raw_views(base_bars@) =~= s0.push(bar@));
        if base_bars.len() > self.max_count {
            let ghost pushed = base_bars@;
            base_bars.remove(0);
            assert(raw_views(base_bars@) =~= s0.push(bar@).drop_first());
            proof {
                lemma_mass_subrange(s0.push(bar@), 1, (s0.len() + 1) as int);
                assert(s0.push(bar@).subrange(1, (s0.len() + 1) as int) =~= s0.push(bar@).drop_first());
            }
        }
        assert(raw_views(base_bars@) == nb);
        self.bars.insert(bk, base_bars);
        proof {
            assert forall|f: Freq| f != self.base_freq implies #[trigger] self.series(f) == old(self).series(f) by {
                assert(freq_key(f) != freq_key(self.base_freq));
            }
        }
        self.update_high_freq_bars(bar);
    }

    /// The bars of period `freq`; none when the period has no entry.
    pub fn get_bars(&self, freq: Freq) -> (r: Vec<RawBar>)
        ensures
            raw_views(r@) == match self.series(freq) {
                Some(s) => s,
                None => Seq::<RawBarView>::empty(),
            },
    {
        match self.bars.get(&key_of(freq)) {
            Some(b) => copy_raw_bars(b.as_slice()),
            None => {
                let out: Vec<RawBar> = Vec::new();
                assert(raw_views(out@) =~= Seq::<RawBarView>::empty());
                out
            },
        }
    }

    /// The bars of the base period.
    pub fn get_base_bars(&self) -> (r: Vec<RawBar>)
        ensures
            raw_views(r@) == match self.series(self.base_freq) {
                Some(s) => s,
                None => Seq::<RawBarView>::empty(),
            },
    {
        self.get_bars(self.base_freq)
    }

    /// The latest bar of period `freq`, if it has any.
    pub fn get_last_bar(&self, freq: Freq) -> (r: Option<RawBar>)
        ensures
            match self.series(freq) {
                Some(s) => if s.len() > 0 { r is Some && r->0@ == s.last() } else { r is None },
                None => r is None,
            },
    {
        let bars = self.get_bars(freq);
        if bars.len() == 0 {
            None
        } else {
            let ghost v = raw_views(bars@);
            assert(v[v.len() - 1] == bars@[bars@.len() - 1]@);
            Some(bars[bars.len() - 1].duplicate())
        }
    }

    /// Whether `update` can take `bar`: the generator holds its base bars, and when
    /// there are periods to build, the base period has a length and the volumes and
    /// amounts of the base bars with `bar` add up within `i64`.
    pub fn can_update(&self, bar: &RawBar) -> (r: bool)
        ensures
            r == (self.well_formed() && (self.freqs@.len() > 0 ==> freq_minutes(self.base_freq) > 0
                && sums_fit(self.series(self.base_freq)->0.push(bar@)))),
    {
        match self.bars.get(&key_of(self.base_freq)) {
            None => false,
            Some(b) => {
                if self.freqs.len() == 0 {
                    true
                } else if freq_to_minutes(self.base_freq) == 0 {
                    false
                } else {
                    fits_with(b.as_slice(), bar)
                }
            },
        }
    }
}

fn abs_wide(x: i64) -> (r: i128)
    ensures
        r == abs_int(x as int),
{
    if x < 0 { 0i128 - (x as i128) } else { x as i128 }
}

/// Whether the bars followed by `extra` satisfy `sums_fit`.
fn fits_with(s: &[RawBar], extra: &RawBar) -> (r: bool)
    ensures
        r == sums_fit(raw_views(s@).push(extra@)),
{
    let ghost all = raw_views(s@).push(extra@);
    let mut vm: i128 = 0;
    let mut am: i128 = 0;
    let mut i: usize = 0;
    assert(all.take(0) =~= Seq::<RawBarView>::empty());
    while i < s.len()
        invariant
            all == raw_views(s@).push(extra@),
            i <= s@.len(),
            vm == vol_mass(all.take(i as int)),
            am == amount_mass(all.take(i as int)),
            vm <= i64::MAX,
            am <= i64::MAX,
        decreases s.len() - i,
    {
        assert(all.take(i + 1).drop_last() =~= all.take(i as int));
        assert(all.take(i + 1).last() == s@[i as int]@);
        vm = vm + abs_wide(s[i].vol);
        am = am + abs_wide(s[i].amount);
        i = i + 1;
        if vm > i64::MAX as i128 || am > i64::MAX as i128 {
            proof {
                lemma_mass_subrange(all, 0, i as int);
                assert(all.subrange(0, i as int) =~= all.take(i as int));
            }
            return false;
        }
    }
    assert(all.take(all.len() as int).drop_last() =~= all.take(i as int));
    assert(all.take(all.len() as int) =~= all);
    vm = vm + abs_wide(extra.vol);
    am = am + abs_wide(extra.amount);
    vm <= i64::MAX as i128 && am <= i64::MAX as i128
}

} // verus!
