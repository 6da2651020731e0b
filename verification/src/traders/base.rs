//! Multi-period signals and trading decisions on a stream of bars.
use vstd::prelude::*;
use vstd::hash_map::StringHashMap;
use crate::bar_generator::{BarGenerator, key_of, kept, vol_mass, amount_mass, abs_int, lemma_mass_concat, lemma_mass_nonneg, lemma_mass_subrange};
use crate::bars::{RawBar, RawBarView};
use crate::enums::{Freq, freq_of_text};
use crate::objects::Position;
use crate::store::TextStore;
use crate::text::{chars_of, int_text, owned, push_int, push_str, text_values, parse_i64, parse_i64_text, parse_usize, parse_usize_text};

verus! {

/// The list of settings maps that a JSON text holds, if serde_json reads it as a
/// list of objects of strings.
pub uninterp spec fn config_list_of(text: Seq<char>) -> Option<Seq<Map<Seq<char>, Seq<char>>>>;

/// The RFC 3339 text that chrono writes for a UTC second, if it is in range.
pub uninterp spec fn rfc3339_of(secs: i64) -> Option<Seq<char>>;

/// The views of a list of stores.
pub open spec fn store_views(s: Seq<TextStore>) -> Seq<Map<Seq<char>, Seq<char>>> {
    s.map_values(|t: TextStore| t@)
}

/// `serde_json::from_str` into a list of string maps, each converted into a
/// store. Claimed: what the stores hold is a function of the text
/// (`config_list_of`).
#[verifier::external_body]
fn parse_config_list(text: &str) -> (r: Option<Vec<TextStore>>)
    ensures
        match r {
            Some(v) => config_list_of(text@) == Some(store_views(v@)),
            None => config_list_of(text@) is None,
        },
{
    match serde_json::from_str::<Vec<std::collections::HashMap<String, String>>>(text) {
        Ok(list) => {
            let mut out = Vec::new();
            for m in list {
                out.push(TextStore { entries: m.into_iter().collect() });
            }
            Some(out)
        },
        Err(_) => None,
    }
}

/// `chrono::DateTime::from_timestamp(secs, 0)` written with `to_rfc3339`.
/// Claimed: the text is a function of the second (`rfc3339_of`).
#[verifier::external_body]
fn rfc3339_text(secs: i64) -> (r: Option<String>)
    ensures
        match r {
            Some(t) => rfc3339_of(secs) == Some(t@),
            None => rfc3339_of(secs) is None,
        },
{
    match chrono::DateTime::from_timestamp(secs, 0) {
        Some(t) => Some(t.to_rfc3339()),
        None => None,
    }
}

/// The placeholder signals that a signal configuration names: `<name>_signal`
/// for every settings map with a `name`.
pub open spec fn conf_signals(configs: Seq<Map<Seq<char>, Seq<char>>>) -> Map<Seq<char>, Seq<char>>
    decreases configs.len(),
{
    if configs.len() == 0 {
        Map::empty()
    } else {
        let before = conf_signals(configs.drop_last());
        if configs.last().contains_key("name"@) {
            before.insert(configs.last()["name"@] + "_signal"@, "placeholder"@)
        } else {
            before
        }
    }
}

/// The signal map after bar `b`: the configured signals, then the bar's symbol,
/// time (in RFC 3339, when chrono can write it), id and close.
pub open spec fn bar_signal_map(configs: Seq<Map<Seq<char>, Seq<char>>>, b: RawBarView) -> Map<Seq<char>, Seq<char>> {
    let m = conf_signals(configs).insert("symbol"@, b.symbol);
    let m2 = match rfc3339_of(b.dt) {
        Some(t) => m.insert("dt"@, t),
        None => m,
    };
    m2.insert("id"@, int_text(b.id as int)).insert("close"@, int_text(b.close as int))
}

/// The configured signals of a list of settings maps.
fn signals_by_conf(configs: &Vec<TextStore>) -> (r: StringHashMap<String>)
    ensures
        text_values(r@) == conf_signals(store_views(configs@)),
{
    let mut s: StringHashMap<String> = StringHashMap::new();
    assert(text_values(s@) =~= Map::empty());
    let mut i: usize = 0;
    while i < configs.len()
        invariant
            i <= configs@.len(),
            text_values(s@) == conf_signals(store_views(configs@.take(i as int))),
        decreases configs.len() - i,
    {
        assert(store_views(configs@.take(i + 1)).drop_last() =~= store_views(configs@.take(i as int)));
        assert(store_views(configs@.take(i + 1)).last() == configs@[i as int]@);
        match configs[i].get("name") {
            Some(name) => {
                let mut key = name;
                push_str(&mut key, "_signal");
                crate::text::put_text(&mut s, key.as_str(), "placeholder");
            },
            None => {},
        }
        i = i + 1;
    }
    assert(configs@.take(configs@.len() as int) =~= configs@);
    s
}

fn bar_signals(configs: &Vec<TextStore>, b: &RawBar) -> (r: StringHashMap<String>)
    ensures
        text_values(r@) == bar_signal_map(store_views(configs@), b@),
{
    let mut s = signals_by_conf(configs);
    crate::text::put_text(&mut s, "symbol", b.symbol.as_str());
    match rfc3339_text(b.dt) {
        Some(t) => crate::text::put_string(&mut s, "dt", t),
        None => {},
    }
    let mut id = String::new();
    push_int(&mut id, b.id as i64);
    crate::text::put_string(&mut s, "id", id);
    let mut close = String::new();
    push_int(&mut close, b.close);
    crate::text::put_string(&mut s, "close", close);
    s
}

/// Every period, in order.
pub open spec fn all_freqs() -> Seq<Freq> {
    seq![
        Freq::Tick, Freq::F1, Freq::F2, Freq::F3, Freq::F4, Freq::F5, Freq::F6, Freq::F10, Freq::F12, Freq::F15, Freq::F20,
        Freq::F30, Freq::F60, Freq::F120, Freq::D, Freq::W, Freq::M, Freq::S, Freq::Y,
    ]
}

fn every_freq() -> (r: Vec<Freq>)
    ensures
        r@ == all_freqs(),
{
    let v = vec![
        Freq::Tick, Freq::F1, Freq::F2, Freq::F3, Freq::F4, Freq::F5, Freq::F6, Freq::F10, Freq::F12, Freq::F15, Freq::F20,
        Freq::F30, Freq::F60, Freq::F120, Freq::D, Freq::W, Freq::M, Freq::S, Freq::Y,
    ];
    assert(v@ =~= all_freqs());
    v
}

/// The periods that a generator holds bars for, in period order.
pub open spec fn held_freqs(g: BarGenerator) -> Seq<Freq> {
    all_freqs().filter(|f: Freq| g.series(f) is Some)
}

fn freqs_held(g: &BarGenerator) -> (r: Vec<Freq>)
    ensures
        r@ == held_freqs(*g),
{
    let all = every_freq();
    let mut out: Vec<Freq> = Vec::new();
    let mut i: usize = 0;
    while i < all.len()
        invariant
            all@ == all_freqs(),
            i <= all@.len(),
            out@ == all_freqs().take(i as int).filter(|f: Freq| g.series(f) is Some),
        decreases all.len() - i,
    {
        proof {
            reveal(Seq::filter);
            assert(all_freqs().take(i + 1).drop_last() =~= all_freqs().take(i as int));
        }
        if g.bars.contains_key(&key_of(all[i])) {
            out.push(all[i]);
        }
        i = i + 1;
    }
    assert(all_freqs().take(all_freqs().len() as int) =~= all_freqs());
    out
}

/// Signals computed on a multi-period stream of bars: the settings, the bar
/// generator, the latest bar's symbol, time, id and close, and the signal map `s`.
pub struct CzscSignals {
    pub name: String,
    pub cache: StringHashMap<String>,
    pub kwargs: StringHashMap<String>,
    pub signals_config: Vec<TextStore>,
    pub bg: Option<BarGenerator>,
    pub symbol: Option<String>,
    pub base_freq: Option<Freq>,
    pub freqs: Vec<Freq>,
    pub end_dt: Option<i64>,
    pub bid: Option<i64>,
    pub latest_price: Option<i64>,
    pub s: StringHashMap<String>,
}

/// The settings maps of the `signals_config` setting (JSON), or none.
pub open spec fn configs_of(kwargs: Map<Seq<char>, String>) -> Seq<Map<Seq<char>, Seq<char>>> {
    if kwargs.contains_key("signals_config"@) && config_list_of(kwargs["signals_config"@]@) is Some {
        config_list_of(kwargs["signals_config"@]@)->0
    } else {
        Seq::empty()
    }
}

fn configs_from(kwargs: &StringHashMap<String>) -> (r: Vec<TextStore>)
    ensures
        store_views(r@) == configs_of(kwargs@),
{
    match kwargs.get("signals_config") {
        Some(text) => match parse_config_list(text.as_str()) {
            Some(v) => v,
            None => {
                let v: Vec<TextStore> = Vec::new();
                assert(store_views(v@) =~= Seq::<Map<Seq<char>, Seq<char>>>::empty());
                v
            },
        },
        None => {
            let v: Vec<TextStore> = Vec::new();
            assert(store_views(v@) =~= Seq::<Map<Seq<char>, Seq<char>>>::empty());
            v
        },
    }
}

/// The latest base bar of a generator, if it has one.
pub open spec fn last_base_bar(g: BarGenerator) -> Option<RawBarView> {
    match g.series(g.base_freq) {
        Some(s) => if s.len() > 0 { Some(s.last()) } else { None },
        None => None,
    }
}

impl CzscSignals {
    /// Signals on the generator `bg`, configured by the `signals_config` setting
    /// of `kwargs` (a JSON list of settings maps). With a generator, which must
    /// know its symbol, the symbol, base period and held periods are taken from
    /// it, and its latest base bar, if any, fills in the latest time, id, close
    /// and signal map.
    pub fn new(bg: Option<BarGenerator>, kwargs: StringHashMap<String>) -> (r: CzscSignals)
        requires
            bg matches Some(g) ==> g.symbol is Some,
        ensures
            r.name@ == "CzscSignals"@,
            r.kwargs@ == kwargs@,
            store_views(r.signals_config@) == configs_of(kwargs@),
            r.bg == bg,
            r.cache@ == Map::<Seq<char>, String>::empty(),
            match bg {
                None => {
                    &&& r.symbol is None
                    &&& r.base_freq is None
                    &&& r.freqs@.len() == 0
                    &&& r.end_dt is None && r.bid is None && r.latest_price is None
                    &&& r.s@ == Map::<Seq<char>, String>::empty()
                },
                Some(g) => {
                    &&& r.symbol == g.symbol
                    &&& r.base_freq == Some(g.base_freq)
                    &&& r.freqs@ == held_freqs(g)
                    &&& match last_base_bar(g) {
                        Some(b) => {
                            &&& r.end_dt == Some(b.dt)
                            &&& r.bid == Some(b.id as i64)
                            &&& r.latest_price == Some(b.close)
                            &&& text_values(r.s@) == bar_signal_map(configs_of(kwargs@), b)
                        },
                        None => {
                            &&& r.end_dt is None && r.bid is None && r.latest_price is None
                            &&& r.s@ == Map::<Seq<char>, String>::empty()
                        },
                    }
                },
            },
    {
        let configs = configs_from(&kwargs);
        let mut r = CzscSignals {
            name: owned("CzscSignals"),
            cache: StringHashMap::new(),
            kwargs,
            signals_config: configs,
            bg: None,
            symbol: None,
            base_freq: None,
            freqs: Vec::new(),
            end_dt: None,
            bid: None,
            latest_price: None,
            s: StringHashMap::new(),
        };
        match bg {
            None => {},
            Some(g) => {
                r.symbol = g.symbol.clone();
                r.base_freq = Some(g.base_freq);
                r.freqs = freqs_held(&g);
                match g.get_last_bar(g.base_freq) {
                    Some(last) => {
                        r.end_dt = Some(last.dt);
                        r.bid = Some(last.id as i64);
                        r.latest_price = Some(last.close);
                        r.s = bar_signals(&r.signals_config, &last);
                    },
                    None => {},
                }
                r.bg = Some(g);
            },
        }
        r
    }

    /// The placeholder signals of the configuration (see `conf_signals`).
    pub fn get_signals_by_conf(&self) -> (r: StringHashMap<String>)
        ensures
            text_values(r@) == conf_signals(store_views(self.signals_config@)),
    {
        signals_by_conf(&self.signals_config)
    }
}

impl CzscSignals {
    /// Takes in a finished base bar: the generator (if any) takes it in, the
    /// symbol becomes the bar's, and the latest base bar of the generator fills in
    /// the latest time, id, close and signal map. The generator must be able to
    /// take the bar (see `BarGenerator::can_update`) and the base period be set.
    pub fn update_signals(&mut self, bar: &RawBar)
        requires
            old(self).bg matches Some(g) ==> {
                &&& g.well_formed()
                &&& g.freqs@.len() > 0 ==> crate::bar_generator::freq_minutes(g.base_freq) > 0
                &&& g.freqs@.len() > 0 ==> crate::bar_generator::sums_fit(g.series(g.base_freq)->0.push(bar@))
                &&& old(self).base_freq == Some(g.base_freq)
            },
        ensures
            final(self).symbol is Some && final(self).symbol->0@ == bar.symbol@,
            final(self).signals_config@ == old(self).signals_config@,
            final(self).base_freq == old(self).base_freq,
            final(self).kwargs@ == old(self).kwargs@,
            old(self).bg is None ==> final(self).bg is None && final(self).s@ == old(self).s@,
            old(self).bg matches Some(g) ==> final(self).bg matches Some(g2) && last_base_bar(g2) matches Some(b) ==> {
                &&& final(self).end_dt == Some(b.dt)
                &&& final(self).bid == Some(b.id as i64)
                &&& final(self).latest_price == Some(b.close)
                &&& text_values(final(self).s@) == bar_signal_map(store_views(old(self).signals_config@), b)
            },
            old(self).bg matches Some(g) ==> final(self).bg matches Some(g2) && last_base_bar(g2) is None ==> final(self).s@ == old(self).s@,
            old(self).bg matches Some(g) ==> final(self).bg matches Some(g2) && g2.base_freq == g.base_freq
                && g2.freqs@ == g.freqs@ && g2.max_count == g.max_count && g2.well_formed()
                && g2.series(g.base_freq) == Some(crate::bar_generator::kept(g.series(g.base_freq)->0, bar@, g.max_count)),
    {
        let mut taken: Option<BarGenerator> = None;
        std::mem::swap(&mut taken, &mut self.bg);
        self.symbol = Some(bar.symbol.clone());
        match taken {
            None => {},
            Some(mut g) => {
                g.update(bar);
                match g.get_last_bar(g.base_freq) {
                    Some(last) => {
                        self.end_dt = Some(last.dt);
                        self.bid = Some(last.id as i64);
                        self.latest_price = Some(last.close);
                        self.s = bar_signals(&self.signals_config, &last);
                    },
                    None => {},
                }
                self.bg = Some(g);
            },
        }
    }
}

/// The seconds of an instant given as seconds and nanoseconds.
pub open spec fn seconds_of(t: (i64, u32)) -> i64 {
    t.0
}

/// Trading decisions of several positions on one stream of signals.
pub struct CzscTrader {
    pub signals: CzscSignals,
    pub positions: Vec<Position>,
    pub ensemble_method: String,
}

/// Whether no two positions share a name.
pub open spec fn names_distinct(ps: Seq<Position>) -> bool {
    forall|i: int, j: int| 0 <= i < j < ps.len() ==> ps[i].name@ != ps[j].name@
}

/// Whether every position can count one operation per event.
pub open spec fn counts_fit(ps: Seq<Position>) -> bool {
    forall|i: int| 0 <= i < ps.len() ==> #[trigger] ps[i].operatetimes + ps[i].opens@.len() + ps[i].exits@.len() <= i32::MAX
}

/// Position `p2` is `p` after it counted the events that the signal map `m`
/// matches.
pub open spec fn counted(p: Position, p2: Position, m: Map<Seq<char>, String>) -> bool {
    &&& p2.operatetimes == p.operatetimes + crate::objects::matching_count(p.opens@, m) + crate::objects::matching_count(p.exits@, m)
    &&& p2.name == p.name
    &&& p2.symbol == p.symbol
    &&& p2.opens@ == p.opens@
    &&& p2.exits@ == p.exits@
}

fn update_positions(ps: &mut Vec<Position>, s: &StringHashMap<String>)
    requires
        counts_fit(old(ps)@),
    ensures
        final(ps)@.len() == old(ps)@.len(),
        forall|i: int| 0 <= i < old(ps)@.len() ==> counted(old(ps)@[i], #[trigger] final(ps)@[i], s@),
{
    let mut rest: Vec<Position> = Vec::new();
    std::mem::swap(&mut rest, ps);
    let ghost orig = rest@;
    let n = rest.len();
    let mut done: Vec<Position> = Vec::new();
    let mut i: usize = 0;
    while rest.len() > 0
        invariant
            n == orig.len(),
            rest@ == orig.skip(i as int),
            i <= orig.len(),
            counts_fit(orig),
            done@.len() == i,
            forall|j: int| 0 <= j < i ==> counted(orig[j], #[trigger] done@[j], s@),
        decreases rest.len(),
    {
        let mut p = rest.remove(0);
        assert(p == orig[i as int]);
        assert(orig[i as int].operatetimes + orig[i as int].opens@.len() + orig[i as int].exits@.len() <= i32::MAX);
        p.update(s);
        done.push(p);
        i = i + 1;
        assert(rest@ =~= orig.skip(i as int));
    }
    *ps = done;
}

impl CzscTrader {
    /// A trader over the generator `bg` (which must know its symbol) with the
    /// given positions, whose names must differ, combined by `ensemble_method`
    /// (`mean` by default).
    pub fn new(bg: Option<BarGenerator>, positions: Option<Vec<Position>>, ensemble_method: Option<String>, kwargs: StringHashMap<
        String,
    >) -> (r: CzscTrader)
        requires
            bg matches Some(g) ==> g.symbol is Some,
            positions matches Some(ps) ==> names_distinct(ps@),
        ensures
            r.positions@ == match positions {
                Some(ps) => ps@,
                None => Seq::<Position>::empty(),
            },
            r.ensemble_method@ == match ensemble_method {
                Some(m) => m@,
                None => "mean"@,
            },
            r.signals.bg == bg,
            r.signals.kwargs@ == kwargs@,
    {
        let positions = match positions {
            Some(ps) => ps,
            None => Vec::new(),
        };
        let method = match ensemble_method {
            Some(m) => m,
            None => owned("mean"),
        };
        CzscTrader { signals: CzscSignals::new(bg, kwargs), positions, ensemble_method: method }
    }

    /// Takes in a finished base bar: the signals are updated (see
    /// `CzscSignals::update_signals`), then every position counts the events the
    /// new signal map matches.
    pub fn update(&mut self, bar: &RawBar)
        requires
            old(self).signals.bg matches Some(g) ==> {
                &&& g.well_formed()
                &&& g.freqs@.len() > 0 ==> crate::bar_generator::freq_minutes(g.base_freq) > 0
                &&& g.freqs@.len() > 0 ==> crate::bar_generator::sums_fit(g.series(g.base_freq)->0.push(bar@))
                &&& old(self).signals.base_freq == Some(g.base_freq)
            },
            counts_fit(old(self).positions@),
        ensures
            final(self).positions@.len() == old(self).positions@.len(),
            forall|i: int| 0 <= i < old(self).positions@.len() ==> counted(old(self).positions@[i], #[trigger] final(self).positions@[i], final(self).signals.s@),
            final(self).signals.symbol is Some && final(self).signals.symbol->0@ == bar.symbol@,
    {
        self.signals.update_signals(bar);
        update_positions(&mut self.positions, &self.signals.s);
    }

    /// Takes in a finished base bar (see `update`).
    pub fn on_bar(&mut self, bar: &RawBar)
        requires
            old(self).signals.bg matches Some(g) ==> {
                &&& g.well_formed()
                &&& g.freqs@.len() > 0 ==> crate::bar_generator::freq_minutes(g.base_freq) > 0
                &&& g.freqs@.len() > 0 ==> crate::bar_generator::sums_fit(g.series(g.base_freq)->0.push(bar@))
                &&& old(self).signals.base_freq == Some(g.base_freq)
            },
            counts_fit(old(self).positions@),
        ensures
            final(self).positions@.len() == old(self).positions@.len(),
            forall|i: int| 0 <= i < old(self).positions@.len() ==> counted(old(self).positions@[i], #[trigger] final(self).positions@[i], final(self).signals.s@),
    {
        self.update(bar);
    }

    /// Trades directly on a signal map: it becomes the signal map; its `symbol`,
    /// its RFC 3339 `dt` (to the second), its integer `id` and its integer `close`
    /// update the latest values where they are given and read; then every position
    /// counts the events the map matches.
    pub fn on_sig(&mut self, sig: StringHashMap<String>)
        requires
            counts_fit(old(self).positions@),
        ensures
            final(self).signals.s@ == sig@,
            final(self).signals.symbol == if sig@.contains_key("symbol"@) { Some(sig@["symbol"@]) } else { old(self).signals.symbol },
            final(self).signals.end_dt == if sig@.contains_key("dt"@) && crate::traders::cwc::rfc3339_instant(sig@["dt"@]@) is Some {
                Some(seconds_of(crate::traders::cwc::rfc3339_instant(sig@["dt"@]@)->0))
            } else {
                old(self).signals.end_dt
            },
            final(self).signals.bid == if sig@.contains_key("id"@) && parse_i64_text(sig@["id"@]@) is Some {
                parse_i64_text(sig@["id"@]@)
            } else {
                old(self).signals.bid
            },
            final(self).signals.latest_price == if sig@.contains_key("close"@) && parse_i64_text(sig@["close"@]@) is Some {
                parse_i64_text(sig@["close"@]@)
            } else {
                old(self).signals.latest_price
            },
            final(self).positions@.len() == old(self).positions@.len(),
            forall|i: int| 0 <= i < old(self).positions@.len() ==> counted(old(self).positions@[i], #[trigger] final(self).positions@[i], sig@),
    {
        match sig.get("symbol") {
            Some(v) => {
                self.signals.symbol = Some(v.clone());
            },
            None => {},
        }
        match sig.get("dt") {
            Some(v) => match crate::traders::cwc::parse_rfc3339(v.as_str()) {
                Some((secs, _)) => {
                    self.signals.end_dt = Some(secs);
                },
                None => {},
            },
            None => {},
        }
        match sig.get("id") {
            Some(v) => match parse_i64(&chars_of(v.as_str())) {
                Some(id) => {
                    self.signals.bid = Some(id);
                },
                None => {},
            },
            None => {},
        }
        match sig.get("close") {
            Some(v) => match parse_i64(&chars_of(v.as_str())) {
                Some(c) => {
                    self.signals.latest_price = Some(c);
                },
                None => {},
            },
            None => {},
        }
        self.signals.s = sig;
        update_positions(&mut self.positions, &self.signals.s);
    }

    /// Whether any position has counted an operation.
    pub fn pos_changed(&self) -> (r: bool)
        ensures
            r == exists|i: int| 0 <= i < self.positions@.len() && #[trigger] self.positions@[i].operatetimes > 0,
    {
        let mut i: usize = 0;
        while i < self.positions.len()
            invariant
                i <= self.positions@.len(),
                forall|j: int| 0 <= j < i ==> !(#[trigger] self.positions@[j].operatetimes > 0),
            decreases self.positions.len() - i,
        {
            if self.positions[i].pos_changed() {
                return true;
            }
            i = i + 1;
        }
        false
    }

    /// The first position named `name`, if any.
    pub fn get_position(&self, name: &str) -> (r: Option<&Position>)
        ensures
            match r {
                Some(p) => exists|i: int| 0 <= i < self.positions@.len() && self.positions@[i] == *p && p.name@ == name@
                    && forall|j: int| 0 <= j < i ==> #[trigger] self.positions@[j].name@ != name@,
                None => forall|j: int| 0 <= j < self.positions@.len() ==> #[trigger] self.positions@[j].name@ != name@,
            },
    {
        let mut i: usize = 0;
        while i < self.positions.len()
            invariant
                i <= self.positions@.len(),
                forall|j: int| 0 <= j < i ==> #[trigger] self.positions@[j].name@ != name@,
            decreases self.positions.len() - i,
        {
            if crate::text::str_eq(self.positions[i].name.as_str(), name) {
                return Some(&self.positions[i]);
            }
            i = i + 1;
        }
        None
    }
}

/// Whether a bar time lies before the start of signal generation: before `sdt`,
/// or, by default, before 2017 seconds and one nanosecond after the epoch.
pub open spec fn before_start(dt: i64, sdt: Option<i64>) -> bool {
    match sdt {
        Some(t) => dt < t,
        None => dt <= 2017,
    }
}

/// Whether a bar lies before the start of signal generation.
pub open spec fn starts_before(sdt: Option<i64>) -> spec_fn(RawBarView) -> bool {
    |b: RawBarView| before_start(b.dt, sdt)
}

/// The bars that warm the generator up: the first `n` bars before the start.
pub open spec fn warmup_bars(s: Seq<RawBarView>, sdt: Option<i64>, n: nat) -> Seq<RawBarView> {
    let f = s.filter(starts_before(sdt));
    if f.len() > n { f.take(n as int) } else { f }
}

/// The bars that signals are generated on: all but the first `n`.
pub open spec fn signal_bars(s: Seq<RawBarView>, n: nat) -> Seq<RawBarView> {
    if s.len() > n { s.skip(n as int) } else { Seq::empty() }
}

/// The periods that a signal configuration asks for besides the base period.
pub open spec fn config_freqs(cfgs: Seq<Map<Seq<char>, Seq<char>>>, base: Freq) -> Seq<Freq>
    decreases cfgs.len(),
{
    if cfgs.len() == 0 {
        Seq::empty()
    } else {
        let before = config_freqs(cfgs.drop_last(), base);
        if cfgs.last().contains_key("freq"@) && freq_of_text(cfgs.last()["freq"@])->0 != base {
            before.push(freq_of_text(cfgs.last()["freq"@])->0)
        } else {
            before
        }
    }
}

/// Whether every period a configuration names is a known one.
pub open spec fn config_freqs_known(cfgs: Seq<Map<Seq<char>, Seq<char>>>) -> bool {
    forall|i: int| 0 <= i < cfgs.len() && (#[trigger] cfgs[i]).contains_key("freq"@) ==> freq_of_text(cfgs[i]["freq"@]) is Some
}

/// The number of base bars the generator keeps: the `bg_max_count` setting, or 5000.
pub open spec fn max_count_of(kwargs: Map<Seq<char>, String>) -> usize {
    if kwargs.contains_key("bg_max_count"@) && parse_usize_text(kwargs["bg_max_count"@]@) is Some {
        parse_usize_text(kwargs["bg_max_count"@]@)->0
    } else {
        5000
    }
}

fn config_freq_list(cfgs: &[TextStore], base: Freq) -> (r: Vec<Freq>)
    requires
        config_freqs_known(store_views(cfgs@)),
    ensures
        r@ == config_freqs(store_views(cfgs@), base),
{
    let mut out: Vec<Freq> = Vec::new();
    let mut i: usize = 0;
    while i < cfgs.len()
        invariant
            i <= cfgs@.len(),
            config_freqs_known(store_views(cfgs@)),
            out@ == config_freqs(store_views(cfgs@.take(i as int)), base),
        decreases cfgs.len() - i,
    {
        assert(store_views(cfgs@.take(i + 1)).drop_last() =~= store_views(cfgs@.take(i as int)));
        assert(store_views(cfgs@.take(i + 1)).last() == cfgs@[i as int]@);
        assert(store_views(cfgs@)[i as int] == cfgs@[i as int]@);
        match cfgs[i].get("freq") {
            Some(text) => {
                match Freq::parse_text(text.as_str()) {
                    Some(f) => {
                        if f != base {
                            out.push(f);
                        }
                    },
                    None => {},
                }
            },
            None => {},
        }
        i = i + 1;
    }
    assert(cfgs@.take(cfgs@.len() as int) =~= cfgs@);
    out
}

fn max_count_from(kwargs: &StringHashMap<String>) -> (r: usize)
    ensures
        r == max_count_of(kwargs@),
{
    match kwargs.get("bg_max_count") {
        Some(text) => match parse_usize(&chars_of(text.as_str())) {
            Some(m) => m,
            None => 5000,
        },
        None => 5000,
    }
}

fn is_before_start(dt: i64, sdt: Option<i64>) -> (r: bool)
    ensures
        r == before_start(dt, sdt),
{
    match sdt {
        Some(t) => dt < t,
        None => dt <= 2017,
    }
}

/// The bars taken in so far while warming up weigh no more than all the warm-up
/// bars.
proof fn lemma_warmup_prefix(views: Seq<RawBarView>, sdt: Option<i64>, n: nat, i: int)
    requires
        0 <= i <= views.len(),
        views.take(i).filter(starts_before(sdt)).len() <= n,
    ensures
        vol_mass(views.take(i).filter(starts_before(sdt))) <= vol_mass(warmup_bars(views, sdt, n)),
        amount_mass(views.take(i).filter(starts_before(sdt))) <= amount_mass(warmup_bars(views, sdt, n)),
{
    let p = starts_before(sdt);
    let fi = views.take(i).filter(p);
    assert(views =~= views.take(i) + views.skip(i));
    Seq::filter_distributes_over_add(views.take(i), views.skip(i), p);
    let w = warmup_bars(views, sdt, n);
    assert(w.subrange(0, fi.len() as int) =~= fi);
    lemma_mass_subrange(w, 0, fi.len() as int);
}

/// What a generator keeps after a bar weighs no more than what it held with the
/// bar.
proof fn lemma_kept_mass(s: Seq<RawBarView>, bar: RawBarView, max_count: usize)
    ensures
        vol_mass(kept(s, bar, max_count)) <= vol_mass(s) + abs_int(bar.vol as int),
        amount_mass(kept(s, bar, max_count)) <= amount_mass(s) + abs_int(bar.amount as int),
        max_count == 0 && s.len() == 0 ==> kept(s, bar, max_count).len() == 0,
        max_count > 0 ==> kept(s, bar, max_count).len() > 0 && kept(s, bar, max_count).last() == bar,
{
    assert(s.push(bar).drop_last() =~= s);
    if s.len() + 1 > max_count {
        assert(s.push(bar).subrange(1, (s.len() + 1) as int) =~= s.push(bar).drop_first());
        lemma_mass_subrange(s.push(bar), 1, (s.len() + 1) as int);
    }
}

/// The signal maps of a run of bars: the generator (base period of the first bar,
/// periods of `signals_config` besides it, `bg_max_count` base bars) is warmed up
/// on the first `init_n` (500 by default) bars before `sdt`, then takes in every
/// bar after the first `init_n`, and the signal map after each is kept (empty
/// when the generator keeps no bars). The signals themselves are configured by the
/// `signals_config` setting of `kwargs`. There must be warm-up bars, the periods
/// must be known, a tick base period takes no other periods, and the volumes and
/// amounts of the bars taken in must add up within `i64`.
pub fn generate_czsc_signals(
    bars: &[RawBar],
    signals_config: &[TextStore],
    sdt: Option<i64>,
    init_n: Option<usize>,
    df: Option<bool>,
    kwargs: StringHashMap<String>,
) -> (r: Vec<StringHashMap<String>>)
    requires
        ({
            let n = match init_n {
                Some(x) => x,
                None => 500usize,
            };
            let views = crate::bars::raw_views(bars@);
            bars@.len() > n ==> {
                &&& warmup_bars(views, sdt, n as nat).len() > 0
                &&& config_freqs_known(store_views(signals_config@))
                &&& config_freqs(store_views(signals_config@), bars@[0].freq).len() > 0 ==> crate::bar_generator::freq_minutes(bars@[0].freq) > 0
                &&& crate::bar_generator::sums_fit(warmup_bars(views, sdt, n as nat) + signal_bars(views, n as nat))
            }
        }),
    ensures
        ({
            let n = match init_n {
                Some(x) => x,
                None => 500usize,
            };
            let right = signal_bars(crate::bars::raw_views(bars@), n as nat);
            &&& r@.len() == right.len()
            &&& forall|i: int| 0 <= i < right.len() ==> text_values(#[trigger] r@[i]@) == if max_count_of(kwargs@) > 0 {
                bar_signal_map(configs_of(kwargs@), right[i])
            } else {
                Map::empty()
            }
        }),
{
    let n: usize = match init_n {
        Some(x) => x,
        None => 500,
    };
    let mut out: Vec<StringHashMap<String>> = Vec::new();
    if bars.len() <= n {
        return out;
    }
    let ghost views = crate::bars::raw_views(bars@);
    let ghost p = starts_before(sdt);
    let ghost left = warmup_bars(views, sdt, n as nat);
    let ghost right = signal_bars(views, n as nat);
    let ghost kw = kwargs@;
    proof {
        lemma_mass_concat(left, right);
        lemma_mass_nonneg(left);
        lemma_mass_nonneg(right);
        crate::enums::lemma_freq_label_parses_back(bars@[0].freq);
        assert(views.take(0) =~= Seq::<RawBarView>::empty());
        reveal(Seq::filter);
    }
    let base = bars[0].freq;
    let freqs = config_freq_list(signals_config, base);
    let max_count = max_count_from(&kwargs);
    let label = base.label();
    let mut bg = BarGenerator::new(label.as_str(), freqs.as_slice(), max_count);
    assert(bg.series(base) == Some(Seq::<RawBarView>::empty()));
    let mut i: usize = 0;
    let mut taken: usize = 0;
    while i < bars.len() && taken < n
        invariant
            views == crate::bars::raw_views(bars@),
            p == starts_before(sdt),
            left == warmup_bars(views, sdt, n as nat),
            bars@.len() > n,
            left.len() > 0,
            vol_mass(left) <= i64::MAX,
            amount_mass(left) <= i64::MAX,
            i <= bars@.len(),
            taken == views.take(i as int).filter(p).len(),
            taken <= n,
            bg.well_formed(),
            bg.base_freq == base,
            bg.freqs@ == freqs@,
            bg.max_count == max_count,
            freqs@.len() > 0 ==> crate::bar_generator::freq_minutes(base) > 0,
            vol_mass(bg.series(base)->0) <= vol_mass(views.take(i as int).filter(p)),
            amount_mass(bg.series(base)->0) <= amount_mass(views.take(i as int).filter(p)),
            taken > 0 ==> bg.symbol is Some,
            max_count == 0 ==> bg.series(base)->0.len() == 0,
        decreases bars.len() - i,
    {
        let ghost s0 = bg.series(base)->0;
        let ghost b = bars@[i as int]@;
        proof {
            assert(views.take(i + 1) =~= views.take(i as int).push(views[i as int]));
            views.take(i as int).lemma_filter_push(views[i as int], p);
            assert(s0.push(b).drop_last() =~= s0);
            assert(views.take(i as int).filter(p).push(b).drop_last() =~= views.take(i as int).filter(p));
        }
        if is_before_start(bars[i].dt, sdt) {
            proof {
                lemma_warmup_prefix(views, sdt, n as nat, i + 1);
            }
            bg.update(&bars[i]);
            proof {
                lemma_kept_mass(s0, b, max_count);
            }
            taken = taken + 1;
        }
        i = i + 1;
    }
    proof {
        if i == bars.len() {
            assert(views.take(i as int) =~= views);
        }
        lemma_warmup_prefix(views, sdt, n as nat, i as int);
    }
    let mut cs = CzscSignals::new(Some(bg), kwargs);
    let mut j: usize = n;
    assert(right =~= views.skip(n as int));
    assert(right.take(0) =~= Seq::<RawBarView>::empty());
    while j < bars.len()
        invariant
            views == crate::bars::raw_views(bars@),
            right == views.skip(n as int),
            n < bars@.len(),
            n <= j <= bars@.len(),
            vol_mass(left) + vol_mass(right) <= i64::MAX,
            amount_mass(left) + amount_mass(right) <= i64::MAX,
            out@.len() == j - n,
            forall|k: int| 0 <= k < j - n ==> text_values(#[trigger] out@[k]@) == if max_count_of(kw) > 0 {
                bar_signal_map(configs_of(kw), right[k])
            } else {
                Map::empty()
            },
            store_views(cs.signals_config@) == configs_of(kw),
            max_count == max_count_of(kw),
            cs.base_freq == Some(base),
            cs.bg is Some,
            cs.bg->0.well_formed(),
            cs.bg->0.base_freq == base,
            cs.bg->0.freqs@ == freqs@,
            cs.bg->0.max_count == max_count,
            freqs@.len() > 0 ==> crate::bar_generator::freq_minutes(base) > 0,
            vol_mass(cs.bg->0.series(base)->0) <= vol_mass(left) + vol_mass(right.take(j - n)),
            amount_mass(cs.bg->0.series(base)->0) <= amount_mass(left) + amount_mass(right.take(j - n)),
            max_count == 0 ==> cs.bg->0.series(base)->0.len() == 0,
            max_count == 0 ==> cs.s@ == Map::<Seq<char>, String>::empty(),
        decreases bars.len() - j,
    {
        let ghost g = cs.bg->0;
        let ghost s0 = g.series(base)->0;
        let ghost b = bars@[j as int]@;
        proof {
            assert(right[j - n] == b);
            assert(right.take(j - n + 1) =~= right.take(j - n).push(b));
            assert(right.take(j - n + 1).drop_last() =~= right.take(j - n));
            assert(s0.push(b).drop_last() =~= s0);
            assert(right.subrange(0, j - n + 1) =~= right.take(j - n + 1));
            lemma_mass_subrange(right, 0, j - n + 1);
        }
        cs.update_signals(&bars[j]);
        proof {
            lemma_kept_mass(s0, b, max_count);
        }
        let mut sig: StringHashMap<String> = StringHashMap::new();
        std::mem::swap(&mut sig, &mut cs.s);
        proof {
            if max_count == 0 {
                assert(text_values(sig@) =~= Map::empty());
            }
        }
        out.push(sig);
        j = j + 1;
    }
    out
}

} // verus!
