//! Signals and events: the vocabulary in which strategies state their
//! open and exit conditions.
use vstd::prelude::*;
use vstd::hash_map::StringHashMap;
use crate::enums::{Freq, Operate};
use crate::bars::{BI, FX, RawBar, ZS};
use crate::store::TextStore;
use crate::textorder::{text_lt, text_order, lemma_text_lt_total, lemma_text_lt_trans, lemma_text_lt_irreflexive};
use crate::text::{
    chars_eq_str, chars_of, int_text, owned, parse_i32, parse_i32_text, pieces_view, push_char,
    lemma_int_text_free_of, lemma_int_text_parses_back, lemma_split_on_plain, lemma_split_on_sep_then_plain,
    push_int, push_str, split_chars, split_on, string_of_chars,
};

verus! {

/// The wildcard value: matches any value in a signal position.
pub open spec fn any_text() -> Seq<char> {
    "任意"@
}

/// The full text of a signal: `k1_k2_k3_v1_v2_v3/score`.
pub open spec fn signal_text(
    k1: Seq<char>,
    k2: Seq<char>,
    k3: Seq<char>,
    v1: Seq<char>,
    v2: Seq<char>,
    v3: Seq<char>,
    score: i32,
) -> Seq<char> {
    k1 + seq!['_'] + k2 + seq!['_'] + k3 + seq!['_'] + v1 + seq!['_'] + v2 + seq!['_'] + v3
        + seq!['/'] + int_text(score as int)
}

/// One name part of a key: dropped when it is the wildcard, else followed by `_`.
pub open spec fn key_part(k: Seq<char>) -> Seq<char> {
    if k == any_text() {
        Seq::<char>::empty()
    } else {
        k.push('_')
    }
}

/// `s` with every trailing `c` removed (`trim_end_matches(c)`).
pub open spec fn trim_end_char(s: Seq<char>, c: char) -> Seq<char>
    decreases s.len(),
{
    if s.len() > 0 && s.last() == c {
        trim_end_char(s.drop_last(), c)
    } else {
        s
    }
}

/// The key of a signal: its non-wildcard names joined by `_`, trailing `_` trimmed.
pub open spec fn key_text(k1: Seq<char>, k2: Seq<char>, k3: Seq<char>) -> Seq<char> {
    trim_end_char(key_part(k1) + key_part(k2) + key_part(k3), '_')
}

/// The value of a signal: `v1_v2_v3/score`.
pub open spec fn value_text(v1: Seq<char>, v2: Seq<char>, v3: Seq<char>, score: i32) -> Seq<char> {
    v1 + seq!['_'] + v2 + seq!['_'] + v3 + seq!['/'] + int_text(score as int)
}

/// A signal: three names (`k1` period, `k2` parameters, `k3` kind), three
/// values, and a score in `0..=100`.
#[derive(Debug, Clone, Default, Hash)]
pub struct Signal {
    pub signal: String,
    pub score: i32,
    pub k1: String,
    pub k2: String,
    pub k3: String,
    pub v1: String,
    pub v2: String,
    pub v3: String,
}

/// The error text when a key is missing from the signal map.
pub open spec fn missing_key_text(key: Seq<char>) -> Seq<char> {
    key + " 不在信号列表中"@
}

/// The error text when a signal value lacks exactly one `/`.
pub open spec fn bad_format_text() -> Seq<char> {
    "信号格式错误"@
}

/// The error text when a signal value lacks exactly three `_`-separated parts.
pub open spec fn bad_value_text() -> Seq<char> {
    "信号值格式错误"@
}

/// The error text when a score does not parse.
pub open spec fn bad_score_text() -> Seq<char> {
    "分数解析错误"@
}

/// Whether a wanted value admits a found one.
pub open spec fn value_admits(want: Seq<char>, found: Seq<char>) -> bool {
    found == want || want == any_text()
}

impl Signal {
    /// The key of this signal.
    pub open spec fn key_view(&self) -> Seq<char> {
        key_text(self.k1@, self.k2@, self.k3@)
    }

    /// The value of this signal.
    pub open spec fn value_view(&self) -> Seq<char> {
        value_text(self.v1@, self.v2@, self.v3@, self.score)
    }

    /// What matching this signal against the map `m` gives.
    pub open spec fn match_view(&self, m: Map<Seq<char>, String>) -> Result<bool, Seq<char>> {
        let key = self.key_view();
        if !m.contains_key(key) {
            Err(missing_key_text(key))
        } else {
            let parts = split_on(m[key]@, '/');
            if parts.len() != 2 {
                Err(bad_format_text())
            } else {
                let values = split_on(parts[0], '_');
                if values.len() != 3 {
                    Err(bad_value_text())
                } else {
                    match parse_i32_text(parts[1]) {
                        None => Err(bad_score_text()),
                        Some(score) => Ok(
                            score >= self.score
                            && value_admits(self.v1@, values[0])
                            && value_admits(self.v2@, values[1])
                            && value_admits(self.v3@, values[2])
                        ),
                    }
                }
            }
        }
    }

    /// A signal with the given names, values and score.
    pub fn new(k1: String, k2: String, k3: String, v1: String, v2: String, v3: String, score: i32) -> (r: Signal)
        ensures
            r.k1 == k1,
            r.k2 == k2,
            r.k3 == k3,
            r.v1 == v1,
            r.v2 == v2,
            r.v3 == v3,
            r.score == score,
            r.signal@ == signal_text(k1@, k2@, k3@, v1@, v2@, v3@, score),
    {
        let mut s = String::new();
        push_str(&mut s, k1.as_str());
        push_char(&mut s, '_');
        push_str(&mut s, k2.as_str());
        push_char(&mut s, '_');
        push_str(&mut s, k3.as_str());
        push_char(&mut s, '_');
        push_str(&mut s, v1.as_str());
        push_char(&mut s, '_');
        push_str(&mut s, v2.as_str());
        push_char(&mut s, '_');
        push_str(&mut s, v3.as_str());
        push_char(&mut s, '/');
        push_int(&mut s, score as i64);
        assert(s@ =~= signal_text(k1@, k2@, k3@, v1@, v2@, v3@, score));
        Signal { signal: s, score, k1, k2, k3, v1, v2, v3 }
    }

    /// The key under which this signal is looked up.
    pub fn key(&self) -> (r: String)
        ensures
            r@ == self.key_view(),
    {
        let mut v: Vec<char> = Vec::new();
        let ghost mut joined: Seq<char> = Seq::empty();
        let k1 = chars_of(self.k1.as_str());
        let k2 = chars_of(self.k2.as_str());
        let k3 = chars_of(self.k3.as_str());
        if !chars_eq_str(&k1, "任意") {
            v.append(&mut k1.clone());
            v.push('_');
        }
        assert(v@ =~= key_part(self.k1@));
        let ghost after1 = v@;
        if !chars_eq_str(&k2, "任意") {
            v.append(&mut k2.clone());
            v.push('_');
        }
        assert(v@ =~= after1 + key_part(self.k2@));
        let ghost after2 = v@;
        if !chars_eq_str(&k3, "任意") {
            v.append(&mut k3.clone());
            v.push('_');
        }
        assert(v@ =~= after2 + key_part(self.k3@));
        trim_trailing(&mut v, '_');
        string_of_chars(&v)
    }

    /// The value that this signal stands for.
    pub fn value(&self) -> (r: String)
        ensures
            r@ == self.value_view(),
    {
        let mut s = String::new();
        push_str(&mut s, self.v1.as_str());
        push_char(&mut s, '_');
        push_str(&mut s, self.v2.as_str());
        push_char(&mut s, '_');
        push_str(&mut s, self.v3.as_str());
        push_char(&mut s, '/');
        push_int(&mut s, self.score as i64);
        assert(s@ =~= self.value_view());
        s
    }

    /// Whether the map `s` holds, under this signal's key, a value that this
    /// signal admits: a score at least this signal's, and each value equal
    /// to this signal's or wanted as the wildcard. Errors name a missing
    /// key or a malformed value.
    pub fn is_match(&self, s: &StringHashMap<String>) -> (r: Result<bool, String>)
        ensures
            match r {
                Ok(b) => self.match_view(s@) == Ok::<bool, Seq<char>>(b),
                Err(e) => self.match_view(s@) == Err::<bool, Seq<char>>(e@),
            },
    {
        let key = self.key();
        let found = s.get(key.as_str());
        match found {
            None => {
                let mut e = key.clone();
                push_str(&mut e, " 不在信号列表中");
                assert(e@ =~= missing_key_text(key@));
                Err(e)
            },
            Some(v) => {
                let chars = chars_of(v.as_str());
                let parts = split_chars(&chars, '/');
                if parts.len() != 2 {
                    return Err(owned("信号格式错误"));
                }
                let values = split_chars(&parts[0], '_');
                if values.len() != 3 {
                    return Err(owned("信号值格式错误"));
                }
                assert(pieces_view(values@)[0] == values@[0]@);
                let score = parse_i32(&parts[1]);
                match score {
                    None => Err(owned("分数解析错误")),
                    Some(score) => {
                        let m1 = vec_admits(&self.v1, &values[0]);
                        let m2 = vec_admits(&self.v2, &values[1]);
                        let m3 = vec_admits(&self.v3, &values[2]);
                        Ok(score >= self.score && m1 && m2 && m3)
                    },
                }
            },
        }
    }
}

/// Whether the wanted value `want` admits the found characters `found`.
fn vec_admits(want: &String, found: &Vec<char>) -> (r: bool)
    ensures
        r == value_admits(want@, found@),
{
    chars_eq_str(found, want.as_str()) || chars_eq_str(&chars_of(want.as_str()), "任意")
}

/// Removes every trailing `c` from `v`.
fn trim_trailing(v: &mut Vec<char>, c: char)
    ensures
        final(v)@ == trim_end_char(old(v)@, c),
{
    while v.len() > 0 && v[v.len() - 1] == c
        invariant
            trim_end_char(v@, c) == trim_end_char(old(v)@, c),
        decreases v.len(),
    {
        let ghost before = v@;
        v.pop();
        assert(v@ =~= before.drop_last());
    }
}

} // verus!

verus! {

/// An event: an operation taken when every signal of `signals_all`, at least
/// one of `signals_any` (if any are given) and none of `signals_not` match.
#[derive(Debug, Clone, Default, Hash)]
pub struct Event {
    pub operate: Operate,
    pub signals_all: Vec<Signal>,
    pub signals_any: Vec<Signal>,
    pub signals_not: Vec<Signal>,
    pub name: String,
}

/// The outcome of an event match: matched or not, with the key of the
/// deciding signal; or the first signal error.
pub type EventOutcome = Result<(bool, Seq<char>), Seq<char>>;

/// Scans the exclusion signals: the first error, or the first match (which
/// fails the event); `None` when none matches.
pub open spec fn scan_not(sigs: Seq<Signal>, m: Map<Seq<char>, String>) -> Option<EventOutcome>
    decreases sigs.len(),
{
    if sigs.len() == 0 {
        None
    } else {
        match sigs[0].match_view(m) {
            Err(e) => Some(Err(e)),
            Ok(true) => Some(Ok((false, Seq::<char>::empty()))),
            Ok(false) => scan_not(sigs.drop_first(), m),
        }
    }
}

/// Scans the required signals: the first error, or the first non-match
/// (which fails the event); `None` when all match.
pub open spec fn scan_all(sigs: Seq<Signal>, m: Map<Seq<char>, String>) -> Option<EventOutcome>
    decreases sigs.len(),
{
    if sigs.len() == 0 {
        None
    } else {
        match sigs[0].match_view(m) {
            Err(e) => Some(Err(e)),
            Ok(false) => Some(Ok((false, Seq::<char>::empty()))),
            Ok(true) => scan_all(sigs.drop_first(), m),
        }
    }
}

/// Scans the alternative signals: the first error, or the first match (which
/// passes the event with that signal's key); `None` when none matches.
pub open spec fn scan_any(sigs: Seq<Signal>, m: Map<Seq<char>, String>) -> Option<EventOutcome>
    decreases sigs.len(),
{
    if sigs.len() == 0 {
        None
    } else {
        match sigs[0].match_view(m) {
            Err(e) => Some(Err(e)),
            Ok(true) => Some(Ok((true, sigs[0].key_view()))),
            Ok(false) => scan_any(sigs.drop_first(), m),
        }
    }
}

/// What matching an event against the map `m` gives.
pub open spec fn event_match_view(e: Event, m: Map<Seq<char>, String>) -> EventOutcome {
    match scan_not(e.signals_not@, m) {
        Some(r) => r,
        None => match scan_all(e.signals_all@, m) {
            Some(r) => r,
            None => if e.signals_any@.len() > 0 {
                match scan_any(e.signals_any@, m) {
                    Some(r) => r,
                    None => Ok((false, Seq::<char>::empty())),
                }
            } else if e.signals_all@.len() == 0 && e.signals_not@.len() == 0 {
                Ok((true, Seq::<char>::empty()))
            } else if e.signals_all@.len() > 0 {
                Ok((true, e.signals_all@.last().key_view()))
            } else {
                Ok((true, Seq::<char>::empty()))
            },
        },
    }
}

/// The full texts of all the signals of an event, in field order.
pub open spec fn event_signal_texts(e: Event) -> Seq<Seq<char>> {
    (e.signals_all@ + e.signals_any@ + e.signals_not@).map_values(|s: Signal| s.signal@)
}

/// A sequence of texts in strictly increasing order.
pub open spec fn strictly_sorted(s: Seq<Seq<char>>) -> bool {
    forall|i: int, j: int| 0 <= i < j < s.len() ==> text_lt(#[trigger] s[i], #[trigger] s[j])
}

/// The views of a vector of strings.
pub open spec fn strings_view(v: Seq<String>) -> Seq<Seq<char>> {
    v.map_values(|s: String| s@)
}

/// Matches one group of signals in order, stopping at the first error or at
/// the first signal whose result equals `stop_on`.
fn scan_group(sigs: &Vec<Signal>, s: &StringHashMap<String>, stop_on: bool) -> (r: Result<Option<usize>, String>)
    ensures
        match r {
            Err(e) => exists|i: int| 0 <= i < sigs@.len()
                && sigs@[i].match_view(s@) == Err::<bool, Seq<char>>(e@)
                && forall|j: int| 0 <= j < i ==> sigs@[j].match_view(s@) == Ok::<bool, Seq<char>>(!stop_on),
            Ok(Some(i)) => i < sigs@.len()
                && sigs@[i as int].match_view(s@) == Ok::<bool, Seq<char>>(stop_on)
                && forall|j: int| 0 <= j < i ==> sigs@[j].match_view(s@) == Ok::<bool, Seq<char>>(!stop_on),
            Ok(None) => forall|j: int| 0 <= j < sigs@.len() ==> sigs@[j].match_view(s@) == Ok::<bool, Seq<char>>(!stop_on),
        },
{
    let mut i: usize = 0;
    while i < sigs.len()
        invariant
            i <= sigs@.len(),
            forall|j: int| 0 <= j < i ==> sigs@[j].match_view(s@) == Ok::<bool, Seq<char>>(!stop_on),
        decreases sigs.len() - i,
    {
        match sigs[i].is_match(s) {
            Err(e) => { return Err(e); },
            Ok(b) => {
                if b == stop_on {
                    return Ok(Some(i));
                }
            },
        }
        i = i + 1;
    }
    Ok(None)
}

proof fn lemma_scan_not_prefix(sigs: Seq<Signal>, m: Map<Seq<char>, String>, i: int)
    requires
        0 <= i <= sigs.len(),
        forall|j: int| 0 <= j < i ==> sigs[j].match_view(m) == Ok::<bool, Seq<char>>(false),
    ensures
        scan_not(sigs, m) == scan_not(sigs.skip(i), m),
    decreases i,
{
    if i > 0 {
        assert(sigs.skip(1) =~= sigs.drop_first());
        lemma_scan_not_prefix(sigs.drop_first(), m, i - 1);
        assert(sigs.drop_first().skip(i - 1) =~= sigs.skip(i));
    } else {
        assert(sigs.skip(0) =~= sigs);
    }
}

proof fn lemma_scan_all_prefix(sigs: Seq<Signal>, m: Map<Seq<char>, String>, i: int)
    requires
        0 <= i <= sigs.len(),
        forall|j: int| 0 <= j < i ==> sigs[j].match_view(m) == Ok::<bool, Seq<char>>(true),
    ensures
        scan_all(sigs, m) == scan_all(sigs.skip(i), m),
    decreases i,
{
    if i > 0 {
        lemma_scan_all_prefix(sigs.drop_first(), m, i - 1);
        assert(sigs.drop_first().skip(i - 1) =~= sigs.skip(i));
    } else {
        assert(sigs.skip(0) =~= sigs);
    }
}

proof fn lemma_scan_any_prefix(sigs: Seq<Signal>, m: Map<Seq<char>, String>, i: int)
    requires
        0 <= i <= sigs.len(),
        forall|j: int| 0 <= j < i ==> sigs[j].match_view(m) == Ok::<bool, Seq<char>>(false),
    ensures
        scan_any(sigs, m) == scan_any(sigs.skip(i), m),
    decreases i,
{
    if i > 0 {
        lemma_scan_any_prefix(sigs.drop_first(), m, i - 1);
        assert(sigs.drop_first().skip(i - 1) =~= sigs.skip(i));
    } else {
        assert(sigs.skip(0) =~= sigs);
    }
}

impl Event {
    /// An event with the given operation, signal groups and name.
    pub fn new(operate: Operate, signals_all: Vec<Signal>, signals_any: Vec<Signal>, signals_not: Vec<Signal>, name: String) -> (r: Event)
        ensures
            r == (Event { operate, signals_all, signals_any, signals_not, name }),
    {
        Event { operate, signals_all, signals_any, signals_not, name }
    }

    /// Whether the event holds for the signal map `s`, and the key of the
    /// signal that decided it: exclusions are checked first, then required
    /// signals, then alternatives. The first signal error is returned.
    #[verifier::spinoff_prover]
    #[verifier::rlimit(40)]
    pub fn is_match(&self, s: &StringHashMap<String>) -> (r: Result<(bool, String), String>)
        ensures
            match r {
                Ok((b, k)) => event_match_view(*self, s@) == Ok::<(bool, Seq<char>), Seq<char>>((b, k@)),
                Err(e) => event_match_view(*self, s@) == Err::<(bool, Seq<char>), Seq<char>>(e@),
            },
    {
        let ghost m = s@;
        match scan_group(&self.signals_not, s, true) {
            Err(e) => {
                proof {
                    let i = choose|i: int| 0 <= i < self.signals_not@.len()
                        && self.signals_not@[i].match_view(m) == Err::<bool, Seq<char>>(e@)
                        && forall|j: int| 0 <= j < i ==> self.signals_not@[j].match_view(m) == Ok::<bool, Seq<char>>(false);
                    lemma_scan_not_prefix(self.signals_not@, m, i);
                }
                return Err(e);
            },
            Ok(Some(i)) => {
                proof { lemma_scan_not_prefix(self.signals_not@, m, i as int); }
                return Ok((false, String::new()));
            },
            Ok(None) => {
                proof { lemma_scan_not_prefix(self.signals_not@, m, self.signals_not@.len() as int); }
            },
        }
        match scan_group(&self.signals_all, s, false) {
            Err(e) => {
                proof {
                    let i = choose|i: int| 0 <= i < self.signals_all@.len()
                        && self.signals_all@[i].match_view(m) == Err::<bool, Seq<char>>(e@)
                        && forall|j: int| 0 <= j < i ==> self.signals_all@[j].match_view(m) == Ok::<bool, Seq<char>>(true);
                    lemma_scan_all_prefix(self.signals_all@, m, i);
                }
                return Err(e);
            },
            Ok(Some(i)) => {
                proof { lemma_scan_all_prefix(self.signals_all@, m, i as int); }
                return Ok((false, String::new()));
            },
            Ok(None) => {
                proof { lemma_scan_all_prefix(self.signals_all@, m, self.signals_all@.len() as int); }
            },
        }
        if self.signals_any.len() > 0 {
            match scan_group(&self.signals_any, s, true) {
                Err(e) => {
                    proof {
                        let i = choose|i: int| 0 <= i < self.signals_any@.len()
                            && self.signals_any@[i].match_view(m) == Err::<bool, Seq<char>>(e@)
                            && forall|j: int| 0 <= j < i ==> self.signals_any@[j].match_view(m) == Ok::<bool, Seq<char>>(false);
                        lemma_scan_any_prefix(self.signals_any@, m, i);
                    }
                    return Err(e);
                },
                Ok(Some(i)) => {
                    proof { lemma_scan_any_prefix(self.signals_any@, m, i as int); }
                    return Ok((true, self.signals_any[i].key()));
                },
                Ok(None) => {
                    proof { lemma_scan_any_prefix(self.signals_any@, m, self.signals_any@.len() as int); }
                    return Ok((false, String::new()));
                },
            }
        }
        if self.signals_all.len() == 0 && self.signals_not.len() == 0 {
            Ok((true, String::new()))
        } else if self.signals_all.len() > 0 {
            let last = self.signals_all.len() - 1;
            Ok((true, self.signals_all[last].key()))
        } else {
            Ok((true, String::new()))
        }
    }
}

} // verus!

verus! {

/// The full texts of a run of signals.
pub open spec fn signal_texts(sigs: Seq<Signal>) -> Seq<Seq<char>> {
    sigs.map_values(|s: Signal| s.signal@)
}

/// Inserts the text of `s` into the strictly sorted `out`, unless present.
fn insert_sorted(out: &mut Vec<String>, s: &String)
    requires
        strictly_sorted(strings_view(old(out)@)),
    ensures
        strictly_sorted(strings_view(final(out)@)),
        strings_view(final(out)@).to_set() == strings_view(old(out)@).to_set().insert(s@),
{
    let x = chars_of(s.as_str());
    let ghost v0 = strings_view(out@);
    let mut p: usize = 0;
    while p < out.len() && text_order(&chars_of(out[p].as_str()), &x) < 0
        invariant
            p <= out@.len(),
            out@ == old(out)@,
            v0 == strings_view(out@),
            forall|j: int| 0 <= j < p ==> text_lt(#[trigger] v0[j], x@),
        decreases out.len() - p,
    {
        p = p + 1;
    }
    if p < out.len() && text_order(&chars_of(out[p].as_str()), &x) == 0 {
        assert(v0[p as int] == s@);
        assert(strings_view(out@).to_set() =~= v0.to_set().insert(s@));
        return;
    }
    proof {
        if p < v0.len() {
            lemma_text_lt_total(v0[p as int], x@);
        }
    }
    out.insert(p, s.clone());
    let ghost v1 = strings_view(out@);
    assert(v1 =~= v0.insert(p as int, s@));
    assert forall|i: int, j: int| 0 <= i < j < v1.len() implies text_lt(#[trigger] v1[i], #[trigger] v1[j]) by {
        if j < p {
        } else if j == p {
        } else if i < p {
            lemma_text_lt_trans(v0[i], x@, v0[p as int]);
            if j - 1 > p {
                lemma_text_lt_trans(v0[i], v0[p as int], v0[j - 1]);
            }
        } else if i == p {
            if j - 1 > p {
                lemma_text_lt_trans(x@, v0[p as int], v0[j - 1]);
            }
        } else {
        }
    }
    assert forall|t: Seq<char>| v1.to_set().contains(t) <==> v0.to_set().insert(s@).contains(t) by {
        if v1.to_set().contains(t) {
            let k = choose|k: int| 0 <= k < v1.len() && v1[k] == t;
            if k < p {
                assert(v0[k] == t);
            } else if k > p {
                assert(v0[k - 1] == t);
            }
        }
        if v0.to_set().contains(t) {
            let k = choose|k: int| 0 <= k < v0.len() && v0[k] == t;
            if k < p {
                assert(v1[k] == t);
            } else {
                assert(v1[k + 1] == t);
            }
        }
        if t == s@ {
            assert(v1[p as int] == t);
        }
    }
    assert(v1.to_set() =~= v0.to_set().insert(s@));
}

/// Inserts the texts of all `sigs` into the strictly sorted `out`.
fn insert_all_sorted(out: &mut Vec<String>, sigs: &Vec<Signal>)
    requires
        strictly_sorted(strings_view(old(out)@)),
    ensures
        strictly_sorted(strings_view(final(out)@)),
        strings_view(final(out)@).to_set() == strings_view(old(out)@).to_set() + signal_texts(sigs@).to_set(),
{
    let mut i: usize = 0;
    while i < sigs.len()
        invariant
            i <= sigs@.len(),
            strictly_sorted(strings_view(out@)),
            strings_view(out@).to_set() == strings_view(old(out)@).to_set() + signal_texts(sigs@.take(i as int)).to_set(),
        decreases sigs.len() - i,
    {
        let ghost before = strings_view(out@).to_set();
        insert_sorted(out, &sigs[i].signal);
        let ghost t0 = signal_texts(sigs@.take(i as int));
        let ghost t1 = signal_texts(sigs@.take(i + 1));
        assert(t1 =~= t0.push(sigs@[i as int].signal@));
        assert(t1.to_set() =~= t0.to_set().insert(sigs@[i as int].signal@)) by {
            assert forall|t: Seq<char>| t1.to_set().contains(t) <==> t0.to_set().insert(sigs@[i as int].signal@).contains(t) by {
                if t1.to_set().contains(t) {
                    let k = choose|k: int| 0 <= k < t1.len() && t1[k] == t;
                    if k < t0.len() {
                        assert(t0[k] == t);
                    }
                }
                if t0.to_set().contains(t) {
                    let k = choose|k: int| 0 <= k < t0.len() && t0[k] == t;
                    assert(t1[k] == t);
                }
                if t == sigs@[i as int].signal@ {
                    assert(t1[t0.len() as int] == t);
                }
            }
        }
        assert(strings_view(out@).to_set() =~= strings_view(old(out)@).to_set() + t1.to_set());
        i = i + 1;
    }
    assert(sigs@.take(sigs@.len() as int) =~= sigs@);
}

/// The texts of a concatenation form the union of the parts' texts.
proof fn lemma_texts_concat(a: Seq<Signal>, b: Seq<Signal>)
    ensures
        signal_texts(a + b).to_set() == signal_texts(a).to_set() + signal_texts(b).to_set(),
{
    let ab = signal_texts(a + b);
    let ta = signal_texts(a);
    let tb = signal_texts(b);
    assert forall|t: Seq<char>| ab.to_set().contains(t) <==> (ta.to_set() + tb.to_set()).contains(t) by {
        if ab.to_set().contains(t) {
            let k = choose|k: int| 0 <= k < ab.len() && ab[k] == t;
            if k < a.len() {
                assert(ta[k] == t);
            } else {
                assert(tb[k - a.len()] == t);
            }
        }
        if ta.to_set().contains(t) {
            let k = choose|k: int| 0 <= k < ta.len() && ta[k] == t;
            assert(ab[k] == t);
        }
        if tb.to_set().contains(t) {
            let k = choose|k: int| 0 <= k < tb.len() && tb[k] == t;
            assert(ab[k + a.len()] == t);
        }
    }
    assert(ab.to_set() =~= ta.to_set() + tb.to_set());
}

impl Event {
    /// The distinct full texts of all this event's signals, in increasing
    /// string order.
    pub fn unique_signals(&self) -> (r: Vec<String>)
        ensures
            strictly_sorted(strings_view(r@)),
            strings_view(r@).to_set() == event_signal_texts(*self).to_set(),
    {
        let mut out: Vec<String> = Vec::new();
        assert(strings_view(out@).to_set() =~= Set::<Seq<char>>::empty());
        insert_all_sorted(&mut out, &self.signals_all);
        insert_all_sorted(&mut out, &self.signals_any);
        insert_all_sorted(&mut out, &self.signals_not);
        proof {
            lemma_texts_concat(self.signals_all@, self.signals_any@);
            lemma_texts_concat(self.signals_all@ + self.signals_any@, self.signals_not@);
            assert(strings_view(out@).to_set() =~= event_signal_texts(*self).to_set());
        }
        out
    }
}

} // verus!

verus! {

/// A signal matches any signal map that holds, under the signal's key, the
/// signal's own value, provided no value of the signal contains `_` or `/`
/// (the separators of the value text).
pub proof fn lemma_signal_matches_own_value(sig: Signal, m: Map<Seq<char>, String>)
    requires
        m.contains_key(sig.key_view()),
        m[sig.key_view()]@ == sig.value_view(),
        !sig.v1@.contains('_'),
        !sig.v2@.contains('_'),
        !sig.v3@.contains('_'),
        !sig.v1@.contains('/'),
        !sig.v2@.contains('/'),
        !sig.v3@.contains('/'),
    ensures
        sig.match_view(m) == Ok::<bool, Seq<char>>(true),
{
    let v1 = sig.v1@;
    let v2 = sig.v2@;
    let v3 = sig.v3@;
    let num = int_text(sig.score as int);
    let a = v1 + seq!['_'] + v2 + seq!['_'] + v3;
    assert(sig.value_view() =~= a + seq!['/'] + num);
    assert(!a.contains('/')) by {
        if a.contains('/') {
            let k = choose|k: int| 0 <= k < a.len() && a[k] == '/';
            if k < v1.len() {
                assert(v1[k] == '/');
            } else if k == v1.len() {
            } else if k < v1.len() + 1 + v2.len() {
                assert(v2[k - v1.len() - 1] == '/');
            } else if k == v1.len() + 1 + v2.len() {
            } else {
                assert(v3[k - v1.len() - 2 - v2.len()] == '/');
            }
        }
    }
    lemma_int_text_free_of(sig.score as int, '/');
    lemma_split_on_plain(a, '/');
    lemma_split_on_sep_then_plain(a, num, '/');
    let parts = split_on(sig.value_view(), '/');
    assert(parts =~= seq![a, num]);
    lemma_split_on_plain(v1, '_');
    lemma_split_on_sep_then_plain(v1, v2, '_');
    lemma_split_on_sep_then_plain(v1 + seq!['_'] + v2, v3, '_');
    let values = split_on(a, '_');
    assert(values =~= seq![v1, v2, v3]);
    lemma_int_text_parses_back(sig.score);
}

/// Against a well-formed found value `x1_x2_x3/score` (values without `_` or
/// `/`), a signal matches exactly when the found score reaches its own and each
/// wanted value is either the found one or the wildcard `任意`, which admits
/// whatever value was found in its position.
pub proof fn law_signal_match_with_wildcards(
    sig: Signal,
    m: Map<Seq<char>, String>,
    x1: Seq<char>,
    x2: Seq<char>,
    x3: Seq<char>,
    score: i32,
)
    requires
        m.contains_key(sig.key_view()),
        m[sig.key_view()]@ == x1 + seq!['_'] + x2 + seq!['_'] + x3 + seq!['/'] + int_text(score as int),
        !x1.contains('_'),
        !x2.contains('_'),
        !x3.contains('_'),
        !x1.contains('/'),
        !x2.contains('/'),
        !x3.contains('/'),
    ensures
        sig.match_view(m) == Ok::<bool, Seq<char>>(
            score >= sig.score && (sig.v1@ == x1 || sig.v1@ == "任意"@) && (sig.v2@ == x2 || sig.v2@ == "任意"@) && (sig.v3@ == x3
                || sig.v3@ == "任意"@),
        ),
{
    let num = int_text(score as int);
    let a = x1 + seq!['_'] + x2 + seq!['_'] + x3;
    assert(m[sig.key_view()]@ =~= a + seq!['/'] + num);
    assert(!a.contains('/')) by {
        if a.contains('/') {
            let k = choose|k: int| 0 <= k < a.len() && a[k] == '/';
            if k < x1.len() {
                assert(x1[k] == '/');
            } else if k == x1.len() {
            } else if k < x1.len() + 1 + x2.len() {
                assert(x2[k - x1.len() - 1] == '/');
            } else if k == x1.len() + 1 + x2.len() {
            } else {
                assert(x3[k - x1.len() - 2 - x2.len()] == '/');
            }
        }
    }
    lemma_int_text_free_of(score as int, '/');
    lemma_split_on_plain(a, '/');
    lemma_split_on_sep_then_plain(a, num, '/');
    let parts = split_on(m[sig.key_view()]@, '/');
    assert(parts =~= seq![a, num]);
    lemma_split_on_plain(x1, '_');
    lemma_split_on_sep_then_plain(x1, x2, '_');
    lemma_split_on_sep_then_plain(x1 + seq!['_'] + x2, x3, '_');
    let values = split_on(a, '_');
    assert(values =~= seq![x1, x2, x3]);
    lemma_int_text_parses_back(score);
    reveal_strlit("任意");
}

} // verus!

verus! {

impl Signal {
    /// A copy of this signal.
    pub fn duplicate(&self) -> (r: Signal)
        ensures
            r == *self,
    {
        Signal {
            signal: self.signal.clone(),
            score: self.score,
            k1: self.k1.clone(),
            k2: self.k2.clone(),
            k3: self.k3.clone(),
            v1: self.v1.clone(),
            v2: self.v2.clone(),
            v3: self.v3.clone(),
        }
    }
}

/// Copies a list of signals.
pub fn copy_signals(v: &Vec<Signal>) -> (r: Vec<Signal>)
    ensures
        r@ == v@,
{
    let mut out: Vec<Signal> = Vec::new();
    let mut i: usize = 0;
    while i < v.len()
        invariant
            i <= v@.len(),
            out@ == v@.take(i as int),
        decreases v.len() - i,
    {
        out.push(v[i].duplicate());
        i = i + 1;
        assert(out@ =~= v@.take(i as int));
    }
    assert(v@.take(v@.len() as int) =~= v@);
    out
}

/// Two events with the same operation, signals and name.
pub open spec fn same_event(a: Event, b: Event) -> bool {
    &&& a.operate == b.operate
    &&& a.signals_all@ == b.signals_all@
    &&& a.signals_any@ == b.signals_any@
    &&& a.signals_not@ == b.signals_not@
    &&& a.name == b.name
}

/// Two lists of events, pairwise the same.
pub open spec fn same_events(a: Seq<Event>, b: Seq<Event>) -> bool {
    a.len() == b.len() && forall|i: int| 0 <= i < a.len() ==> same_event(#[trigger] a[i], b[i])
}

impl Event {
    /// A copy of this event.
    pub fn duplicate(&self) -> (r: Event)
        ensures
            same_event(r, *self),
    {
        Event {
            operate: self.operate,
            signals_all: copy_signals(&self.signals_all),
            signals_any: copy_signals(&self.signals_any),
            signals_not: copy_signals(&self.signals_not),
            name: self.name.clone(),
        }
    }
}

/// Copies a list of events.
pub fn copy_events(v: &Vec<Event>) -> (r: Vec<Event>)
    ensures
        same_events(r@, v@),
{
    let mut out: Vec<Event> = Vec::new();
    let mut i: usize = 0;
    while i < v.len()
        invariant
            i <= v@.len(),
            out@.len() == i,
            forall|j: int| 0 <= j < i ==> same_event(#[trigger] out@[j], v@[j]),
        decreases v.len() - i,
    {
        out.push(v[i].duplicate());
        i = i + 1;
    }
    out
}

/// The number of events that match the signal map `m`.
pub open spec fn matching_count(events: Seq<Event>, m: Map<Seq<char>, String>) -> nat
    decreases events.len(),
{
    if events.len() == 0 {
        0
    } else {
        matching_count(events.drop_last(), m) + if event_match_view(events.last(), m) matches Ok((true, _)) {
            1nat
        } else {
            0nat
        }
    }
}

proof fn lemma_matching_count_bounded(events: Seq<Event>, m: Map<Seq<char>, String>)
    ensures
        matching_count(events, m) <= events.len(),
    decreases events.len(),
{
    if events.len() > 0 {
        lemma_matching_count_bounded(events.drop_last(), m);
    }
}

/// A strategy position: named open and exit events on a symbol, with its held
/// and paired records, and the number of operations its events triggered. The
/// size of the position, a floating-point number, is kept by the caller.
pub struct Position {
    pub name: String,
    pub opens: Vec<Event>,
    pub exits: Vec<Event>,
    pub holds: Vec<TextStore>,
    pub pairs: Vec<TextStore>,
    pub symbol: String,
    pub operatetimes: i32,
}

fn count_matches(events: &Vec<Event>, s: &StringHashMap<String>) -> (r: usize)
    ensures
        r == matching_count(events@, s@),
{
    let mut n: usize = 0;
    let mut i: usize = 0;
    while i < events.len()
        invariant
            i <= events@.len(),
            n == matching_count(events@.take(i as int), s@),
        decreases events.len() - i,
    {
        assert(events@.take(i + 1).drop_last() =~= events@.take(i as int));
        proof {
            lemma_matching_count_bounded(events@.take(i as int), s@);
        }
        match events[i].is_match(s) {
            Ok((true, _)) => {
                n = n + 1;
            },
            _ => {},
        }
        i = i + 1;
    }
    assert(events@.take(events@.len() as int) =~= events@);
    n
}

impl Position {
    /// A position with no events or records on `symbol`.
    pub fn new(name: &str, symbol: &str) -> (r: Position)
        ensures
            r.name@ == name@,
            r.symbol@ == symbol@,
            r.opens@.len() == 0,
            r.exits@.len() == 0,
            r.holds@.len() == 0,
            r.pairs@.len() == 0,
            r.operatetimes == 0,
    {
        Position {
            name: crate::text::owned(name),
            opens: Vec::new(),
            exits: Vec::new(),
            holds: Vec::new(),
            pairs: Vec::new(),
            symbol: crate::text::owned(symbol),
            operatetimes: 0,
        }
    }

    /// Counts one operation for every open and every exit event that the signal
    /// map `s` matches; an event whose check fails counts as not matched.
    pub fn update(&mut self, s: &StringHashMap<String>)
        requires
            old(self).operatetimes + old(self).opens@.len() + old(self).exits@.len() <= i32::MAX,
        ensures
            final(self).operatetimes == old(self).operatetimes + matching_count(old(self).opens@, s@)
                + matching_count(old(self).exits@, s@),
            final(self).name == old(self).name,
            final(self).symbol == old(self).symbol,
            final(self).opens@ == old(self).opens@,
            final(self).exits@ == old(self).exits@,
            final(self).holds@ == old(self).holds@,
            final(self).pairs@ == old(self).pairs@,
    {
        let a = count_matches(&self.opens, s);
        let b = count_matches(&self.exits, s);
        proof {
            lemma_matching_count_bounded(self.opens@, s@);
            lemma_matching_count_bounded(self.exits@, s@);
        }
        let total: i64 = self.operatetimes as i64 + a as i64 + b as i64;
        self.operatetimes = total as i32;
    }

    /// Whether any operation has been counted.
    pub fn pos_changed(&self) -> (r: bool)
        ensures
            r == (self.operatetimes > 0),
    {
        self.operatetimes > 0
    }

    /// A copy of this position.
    pub fn duplicate(&self) -> (r: Position)
        ensures
            r.name == self.name,
            r.symbol == self.symbol,
            same_events(r.opens@, self.opens@),
            same_events(r.exits@, self.exits@),
            r.holds@.len() == self.holds@.len(),
            forall|i: int| 0 <= i < self.holds@.len() ==> (#[trigger] r.holds@[i])@ == self.holds@[i]@,
            r.pairs@.len() == self.pairs@.len(),
            forall|i: int| 0 <= i < self.pairs@.len() ==> (#[trigger] r.pairs@[i])@ == self.pairs@[i]@,
            r.operatetimes == self.operatetimes,
    {
        Position {
            name: self.name.clone(),
            opens: copy_events(&self.opens),
            exits: copy_events(&self.exits),
            holds: copy_stores(&self.holds),
            pairs: copy_stores(&self.pairs),
            symbol: self.symbol.clone(),
            operatetimes: self.operatetimes,
        }
    }
}

fn copy_stores(v: &Vec<TextStore>) -> (r: Vec<TextStore>)
    ensures
        r@.len() == v@.len(),
        forall|i: int| 0 <= i < v@.len() ==> (#[trigger] r@[i])@ == v@[i]@,
{
    let mut out: Vec<TextStore> = Vec::new();
    let mut i: usize = 0;
    while i < v.len()
        invariant
            i <= v@.len(),
            out@.len() == i,
            forall|j: int| 0 <= j < i ==> (#[trigger] out@[j])@ == v@[j]@,
        decreases v.len() - i,
    {
        out.push(v[i].duplicate());
        i = i + 1;
    }
    out
}

} // verus!

verus! {

/// An event with no signals at all holds for every signal map.
pub proof fn law_event_without_signals_always_matches(e: Event, m: Map<Seq<char>, String>)
    requires
        e.signals_all@.len() == 0,
        e.signals_any@.len() == 0,
        e.signals_not@.len() == 0,
    ensures
        event_match_view(e, m) == Ok::<(bool, Seq<char>), Seq<char>>((true, Seq::<char>::empty())),
{
}

/// An event that requires a single signal holds for a signal map that holds that
/// signal's own value (with no separator in its values), and names that signal.
pub proof fn law_event_matches_its_own_signal(e: Event, m: Map<Seq<char>, String>)
    requires
        e.signals_all@.len() == 1,
        e.signals_any@.len() == 0,
        e.signals_not@.len() == 0,
        m.contains_key(e.signals_all@[0].key_view()),
        m[e.signals_all@[0].key_view()]@ == e.signals_all@[0].value_view(),
        !e.signals_all@[0].v1@.contains('_'),
        !e.signals_all@[0].v2@.contains('_'),
        !e.signals_all@[0].v3@.contains('_'),
        !e.signals_all@[0].v1@.contains('/'),
        !e.signals_all@[0].v2@.contains('/'),
        !e.signals_all@[0].v3@.contains('/'),
    ensures
        event_match_view(e, m) == Ok::<(bool, Seq<char>), Seq<char>>((true, e.signals_all@[0].key_view())),
{
    let sig = e.signals_all@[0];
    lemma_signal_matches_own_value(sig, m);
    assert(e.signals_all@.drop_first() =~= Seq::<Signal>::empty());
    assert(scan_all(e.signals_all@, m) == scan_all(e.signals_all@.drop_first(), m));
}

/// Whether no signal of `sigs` fails to be checked against `m`.
pub open spec fn all_checked(sigs: Seq<Signal>, m: Map<Seq<char>, String>) -> bool {
    forall|i: int| 0 <= i < sigs.len() ==> (#[trigger] sigs[i].match_view(m)) is Ok
}

/// Whether some signal of `sigs` gives `b` against `m`.
pub open spec fn some_gives(sigs: Seq<Signal>, m: Map<Seq<char>, String>, b: bool) -> bool {
    exists|i: int| 0 <= i < sigs.len() && #[trigger] sigs[i].match_view(m) == Ok::<bool, Seq<char>>(b)
}

proof fn lemma_scan_not_checked(sigs: Seq<Signal>, m: Map<Seq<char>, String>)
    requires
        all_checked(sigs, m),
    ensures
        scan_not(sigs, m) == if some_gives(sigs, m, true) {
            Some(Ok::<(bool, Seq<char>), Seq<char>>((false, Seq::<char>::empty())))
        } else {
            None
        },
    decreases sigs.len(),
{
    if sigs.len() > 0 {
        let t = sigs.drop_first();
        assert forall|i: int| 0 <= i < t.len() implies (#[trigger] t[i].match_view(m)) is Ok by {
            assert(t[i] == sigs[i + 1]);
            assert(sigs[i + 1].match_view(m) is Ok);
        }
        lemma_scan_not_checked(t, m);
        assert(sigs[0].match_view(m) is Ok);
        if some_gives(t, m, true) {
            let i = choose|i: int| 0 <= i < t.len() && #[trigger] t[i].match_view(m) == Ok::<bool, Seq<char>>(true);
            assert(sigs[i + 1] == t[i]);
        }
        if some_gives(sigs, m, true) && sigs[0].match_view(m) != Ok::<bool, Seq<char>>(true) {
            let i = choose|i: int| 0 <= i < sigs.len() && #[trigger] sigs[i].match_view(m) == Ok::<bool, Seq<char>>(true);
            assert(t[i - 1] == sigs[i]);
        }
    }
}

proof fn lemma_scan_all_checked(sigs: Seq<Signal>, m: Map<Seq<char>, String>)
    requires
        all_checked(sigs, m),
    ensures
        scan_all(sigs, m) == if some_gives(sigs, m, false) {
            Some(Ok::<(bool, Seq<char>), Seq<char>>((false, Seq::<char>::empty())))
        } else {
            None
        },
    decreases sigs.len(),
{
    if sigs.len() > 0 {
        let t = sigs.drop_first();
        assert forall|i: int| 0 <= i < t.len() implies (#[trigger] t[i].match_view(m)) is Ok by {
            assert(t[i] == sigs[i + 1]);
            assert(sigs[i + 1].match_view(m) is Ok);
        }
        lemma_scan_all_checked(t, m);
        assert(sigs[0].match_view(m) is Ok);
        if some_gives(t, m, false) {
            let i = choose|i: int| 0 <= i < t.len() && #[trigger] t[i].match_view(m) == Ok::<bool, Seq<char>>(false);
            assert(sigs[i + 1] == t[i]);
        }
        if some_gives(sigs, m, false) && sigs[0].match_view(m) != Ok::<bool, Seq<char>>(false) {
            let i = choose|i: int| 0 <= i < sigs.len() && #[trigger] sigs[i].match_view(m) == Ok::<bool, Seq<char>>(false);
            assert(t[i - 1] == sigs[i]);
        }
    }
}

proof fn lemma_scan_any_none(sigs: Seq<Signal>, m: Map<Seq<char>, String>)
    requires
        forall|i: int| 0 <= i < sigs.len() ==> #[trigger] sigs[i].match_view(m) == Ok::<bool, Seq<char>>(false),
    ensures
        scan_any(sigs, m) is None,
{
    lemma_scan_any_prefix(sigs, m, sigs.len() as int);
    assert(sigs.skip(sigs.len() as int) =~= Seq::<Signal>::empty());
}

proof fn lemma_scan_not_shape(sigs: Seq<Signal>, m: Map<Seq<char>, String>)
    ensures
        scan_not(sigs, m) matches Some(Ok((b, k))) ==> !b && k == Seq::<char>::empty(),
    decreases sigs.len(),
{
    if sigs.len() > 0 {
        lemma_scan_not_shape(sigs.drop_first(), m);
    }
}

proof fn lemma_scan_all_shape(sigs: Seq<Signal>, m: Map<Seq<char>, String>)
    ensures
        scan_all(sigs, m) matches Some(Ok((b, k))) ==> !b && k == Seq::<char>::empty(),
    decreases sigs.len(),
{
    if sigs.len() > 0 {
        lemma_scan_all_shape(sigs.drop_first(), m);
    }
}

proof fn lemma_scan_any_shape(sigs: Seq<Signal>, m: Map<Seq<char>, String>)
    ensures
        scan_any(sigs, m) matches Some(Ok((b, k))) ==> b,
    decreases sigs.len(),
{
    if sigs.len() > 0 {
        lemma_scan_any_shape(sigs.drop_first(), m);
    }
}

/// When every signal of an event is checked without error, matching it gives:
/// no match if an excluded signal holds; else no match if a required one does
/// not; else, when alternatives are given, a match named by the first one that
/// holds (`first`), or no match if none holds; else a match named by the last
/// required signal, or with no name when none is required.
pub proof fn law_event_match_without_errors(e: Event, m: Map<Seq<char>, String>, first: int)
    requires
        all_checked(e.signals_not@, m),
        all_checked(e.signals_all@, m),
        all_checked(e.signals_any@, m),
    ensures
        some_gives(e.signals_not@, m, true) ==> event_match_view(e, m) == Ok::<(bool, Seq<char>), Seq<char>>((false, Seq::<char>::empty())),
        !some_gives(e.signals_not@, m, true) && some_gives(e.signals_all@, m, false) ==> event_match_view(e, m) == Ok::<
            (bool, Seq<char>),
            Seq<char>,
        >((false, Seq::<char>::empty())),
        !some_gives(e.signals_not@, m, true) && !some_gives(e.signals_all@, m, false) && 0 <= first < e.signals_any@.len()
            && e.signals_any@[first].match_view(m) == Ok::<bool, Seq<char>>(true) && (forall|j: int|
            0 <= j < first ==> #[trigger] e.signals_any@[j].match_view(m) == Ok::<bool, Seq<char>>(false)) ==> event_match_view(e, m)
            == Ok::<(bool, Seq<char>), Seq<char>>((true, e.signals_any@[first].key_view())),
        !some_gives(e.signals_not@, m, true) && !some_gives(e.signals_all@, m, false) && e.signals_any@.len() > 0
            && !some_gives(e.signals_any@, m, true) ==> event_match_view(e, m) == Ok::<(bool, Seq<char>), Seq<char>>(
            (false, Seq::<char>::empty()),
        ),
        !some_gives(e.signals_not@, m, true) && !some_gives(e.signals_all@, m, false) && e.signals_any@.len() == 0
            && e.signals_all@.len() > 0 ==> event_match_view(e, m) == Ok::<(bool, Seq<char>), Seq<char>>(
            (true, e.signals_all@.last().key_view()),
        ),
        !some_gives(e.signals_not@, m, true) && e.signals_any@.len() == 0 && e.signals_all@.len() == 0 ==> event_match_view(e, m)
            == Ok::<(bool, Seq<char>), Seq<char>>((true, Seq::<char>::empty())),
{
    lemma_scan_not_checked(e.signals_not@, m);
    lemma_scan_all_checked(e.signals_all@, m);
    let any = e.signals_any@;
    if 0 <= first < any.len() && any[first].match_view(m) == Ok::<bool, Seq<char>>(true) && (forall|j: int|
        0 <= j < first ==> #[trigger] any[j].match_view(m) == Ok::<bool, Seq<char>>(false)) {
        lemma_scan_any_prefix(any, m, first);
        assert(any.skip(first)[0] == any[first]);
    }
    if any.len() > 0 && !some_gives(any, m, true) {
        assert forall|i: int| 0 <= i < any.len() implies #[trigger] any[i].match_view(m) == Ok::<bool, Seq<char>>(false) by {
            assert(any[i].match_view(m) is Ok);
        }
        lemma_scan_any_none(any, m);
    }
}

/// Signals are checked excluded first, then required, then alternatives, and
/// the first one that fails to be checked before a decisive result gives the
/// event's error; a failed match never carries a name.
pub proof fn law_event_match_first_error(e: Event, m: Map<Seq<char>, String>, i: int, x: Seq<char>)
    ensures
        0 <= i < e.signals_not@.len() && e.signals_not@[i].match_view(m) == Err::<bool, Seq<char>>(x) && (forall|j: int|
            0 <= j < i ==> #[trigger] e.signals_not@[j].match_view(m) == Ok::<bool, Seq<char>>(false)) ==> event_match_view(e, m)
            == Err::<(bool, Seq<char>), Seq<char>>(x),
        (forall|j: int| 0 <= j < e.signals_not@.len() ==> #[trigger] e.signals_not@[j].match_view(m) == Ok::<bool, Seq<char>>(false))
            && 0 <= i < e.signals_all@.len() && e.signals_all@[i].match_view(m) == Err::<bool, Seq<char>>(x) && (forall|j: int|
            0 <= j < i ==> #[trigger] e.signals_all@[j].match_view(m) == Ok::<bool, Seq<char>>(true)) ==> event_match_view(e, m)
            == Err::<(bool, Seq<char>), Seq<char>>(x),
        (forall|j: int| 0 <= j < e.signals_not@.len() ==> #[trigger] e.signals_not@[j].match_view(m) == Ok::<bool, Seq<char>>(false))
            && (forall|j: int| 0 <= j < e.signals_all@.len() ==> #[trigger] e.signals_all@[j].match_view(m) == Ok::<bool, Seq<char>>(true))
            && 0 <= i < e.signals_any@.len() && e.signals_any@[i].match_view(m) == Err::<bool, Seq<char>>(x) && (forall|j: int|
            0 <= j < i ==> #[trigger] e.signals_any@[j].match_view(m) == Ok::<bool, Seq<char>>(false)) ==> event_match_view(e, m)
            == Err::<(bool, Seq<char>), Seq<char>>(x),
        event_match_view(e, m) matches Ok((b, k)) ==> b || k == Seq::<char>::empty(),
{
    let nt = e.signals_not@;
    let al = e.signals_all@;
    let an = e.signals_any@;
    lemma_scan_not_shape(nt, m);
    lemma_scan_all_shape(al, m);
    lemma_scan_any_shape(an, m);
    if 0 <= i < nt.len() && (forall|j: int| 0 <= j < i ==> #[trigger] nt[j].match_view(m) == Ok::<bool, Seq<char>>(false)) {
        lemma_scan_not_prefix(nt, m, i);
        assert(nt.skip(i)[0] == nt[i]);
    }
    if forall|j: int| 0 <= j < nt.len() ==> #[trigger] nt[j].match_view(m) == Ok::<bool, Seq<char>>(false) {
        lemma_scan_not_prefix(nt, m, nt.len() as int);
        assert(nt.skip(nt.len() as int) =~= Seq::<Signal>::empty());
        if 0 <= i < al.len() && (forall|j: int| 0 <= j < i ==> #[trigger] al[j].match_view(m) == Ok::<bool, Seq<char>>(true)) {
            lemma_scan_all_prefix(al, m, i);
            assert(al.skip(i)[0] == al[i]);
        }
        if forall|j: int| 0 <= j < al.len() ==> #[trigger] al[j].match_view(m) == Ok::<bool, Seq<char>>(true) {
            lemma_scan_all_prefix(al, m, al.len() as int);
            assert(al.skip(al.len() as int) =~= Seq::<Signal>::empty());
            if 0 <= i < an.len() && (forall|j: int| 0 <= j < i ==> #[trigger] an[j].match_view(m) == Ok::<bool, Seq<char>>(false)) {
                lemma_scan_any_prefix(an, m, i);
                assert(an.skip(i)[0] == an[i]);
            }
        }
    }
}

} // verus!

verus! {

/// The analysis of one symbol on one period: its raw bars, strokes, segments,
/// pivots, and the signals and events computed on it.
pub struct CZSC {
    pub symbol: String,
    pub freq: Freq,
    pub bars_raw: Vec<RawBar>,
    pub bi_list: Vec<BI>,
    pub xd_list: Vec<FX>,
    pub zs_list: Vec<ZS>,
    pub signals: Vec<Signal>,
    pub events: Vec<Event>,
    pub last_event: Option<Event>,
}

} // verus!
