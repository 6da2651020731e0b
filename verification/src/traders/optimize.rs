//! Optimising the open and exit conditions of a timing strategy: naming an
//! optimisation task and laying out where its results go.
use vstd::prelude::*;
use vstd::hash_map::StringHashMap;
use crate::enums::Operate;
use crate::objects::{Event, Position, Signal, copy_signals, same_event, same_events, signal_text};
use crate::text::{int_text, owned, push_int, push_str, push_char, str_eq, texts};
use std::collections::hash_map::DefaultHasher;
use std::hash::Hasher;

verus! {

/// How `{:?}` writes a text: quoted, with std's escapes (`str::escape_debug`).
pub uninterp spec fn str_debug_text(s: Seq<char>) -> Seq<char>;

/// The `DefaultHasher` digest of a text (its `Hash`, then `finish`).
pub uninterp spec fn text_hash(s: Seq<char>) -> u64;

/// `format!("{:?}", s)` for a text (std's `Debug` for `str`). Claimed: the text
/// is a function of `s` (`str_debug_text`).
#[verifier::external_body]
fn debug_str(s: &str) -> (r: String)
    ensures
        r@ == str_debug_text(s@),
{
    format!("{:?}", s)
}

/// `str::hash` into a `DefaultHasher::new()`, then `finish`. Claimed: the digest
/// is a function of the text (`text_hash`); `DefaultHasher::new` starts from
/// fixed keys.
#[verifier::external_body]
fn hash_text(s: &str) -> (r: u64)
    ensures
        r == text_hash(s@),
{
    let mut h = std::collections::hash_map::DefaultHasher::new();
    std::hash::Hash::hash(s, &mut h);
    std::hash::Hasher::finish(&h)
}

/// Feeds a text to a hasher as `str`'s `Hash` does. Nothing is claimed of the
/// hasher's state.
#[verifier::external_body]
fn feed_str(h: &mut DefaultHasher, s: &str) {
    std::hash::Hash::hash(s, h)
}

/// Feeds a length to a hasher (`Hasher::write_usize`, which is how a slice's
/// length is written). Nothing is claimed: the bytes depend on the machine.
#[verifier::external_body]
fn feed_usize(h: &mut DefaultHasher, n: usize) {
    std::hash::Hasher::write_usize(h, n)
}

/// Feeds an enum discriminant to a hasher (`Hasher::write_isize`). Nothing is
/// claimed: the bytes depend on the machine.
#[verifier::external_body]
fn feed_isize(h: &mut DefaultHasher, n: isize) {
    std::hash::Hasher::write_isize(h, n)
}

/// Feeds an `i32` to a hasher (`Hasher::write_i32`). Nothing is claimed: the
/// bytes depend on the machine's byte order.
#[verifier::external_body]
fn feed_i32(h: &mut DefaultHasher, n: i32) {
    std::hash::Hasher::write_i32(h, n)
}

/// The position of an operation among `Operate`'s variants, its discriminant.
pub open spec fn operate_index(o: Operate) -> int {
    match o {
        Operate::HL => 0,
        Operate::HS => 1,
        Operate::HO => 2,
        Operate::LO => 3,
        Operate::LE => 4,
        Operate::SO => 5,
        Operate::SE => 6,
    }
}

fn operate_discriminant(o: Operate) -> (r: isize)
    ensures
        r == operate_index(o),
{
    match o {
        Operate::HL => 0,
        Operate::HS => 1,
        Operate::HO => 2,
        Operate::LO => 3,
        Operate::LE => 4,
        Operate::SO => 5,
        Operate::SE => 6,
    }
}

fn feed_signal(h: &mut DefaultHasher, s: &Signal) {
    feed_str(h, s.signal.as_str());
    feed_i32(h, s.score);
    feed_str(h, s.k1.as_str());
    feed_str(h, s.k2.as_str());
    feed_str(h, s.k3.as_str());
    feed_str(h, s.v1.as_str());
    feed_str(h, s.v2.as_str());
    feed_str(h, s.v3.as_str());
}

fn feed_signals(h: &mut DefaultHasher, v: &Vec<Signal>) {
    feed_usize(h, v.len());
    let mut i: usize = 0;
    while i < v.len()
        invariant
            i <= v@.len(),
        decreases v.len() - i,
    {
        feed_signal(h, &v[i]);
        i = i + 1;
    }
}

/// The digest that names an exit variant: a `DefaultHasher` fed the event's
/// fields in order, as `Event`'s derived `Hash` feeds them (the operation's
/// discriminant, each signal list's length and signals, the name), then
/// `finish`. Nothing is claimed of the digest: the bytes fed for lengths,
/// discriminants and scores depend on the machine.
pub fn event_digest(e: &Event) -> u64 {
    let mut h = DefaultHasher::new();
    feed_isize(&mut h, operate_discriminant(e.operate));
    feed_signals(&mut h, &e.signals_all);
    feed_signals(&mut h, &e.signals_any);
    feed_signals(&mut h, &e.signals_not);
    feed_str(&mut h, e.name.as_str());
    h.finish()
}

/// `items` joined by `, `.
pub open spec fn joined(items: Seq<Seq<char>>) -> Seq<char>
    decreases items.len(),
{
    if items.len() == 0 {
        Seq::empty()
    } else if items.len() == 1 {
        items[0]
    } else {
        joined(items.drop_last()) + ", "@ + items.last()
    }
}

/// How `{:?}` writes a list whose items it writes as `items`: `[a, b, ...]`.
pub open spec fn debug_list(items: Seq<Seq<char>>) -> Seq<char> {
    "["@ + joined(items) + "]"@
}

/// How `{:?}` writes a list of strings.
pub open spec fn strings_debug_text(v: Seq<Seq<char>>) -> Seq<char> {
    debug_list(v.map_values(|s: Seq<char>| str_debug_text(s)))
}

/// How `{:?}` writes an operation: its variant's name.
pub open spec fn operate_debug_text(o: Operate) -> Seq<char> {
    match o {
        Operate::HL => "HL"@,
        Operate::HS => "HS"@,
        Operate::HO => "HO"@,
        Operate::LO => "LO"@,
        Operate::LE => "LE"@,
        Operate::SO => "SO"@,
        Operate::SE => "SE"@,
    }
}

/// How `{:?}` writes a signal: `Signal { signal: .., score: .., k1: .., ... }`.
pub open spec fn signal_debug_text(s: Signal) -> Seq<char> {
    "Signal { signal: "@ + str_debug_text(s.signal@) + ", score: "@ + int_text(s.score as int) + ", k1: "@ + str_debug_text(s.k1@)
        + ", k2: "@ + str_debug_text(s.k2@) + ", k3: "@ + str_debug_text(s.k3@) + ", v1: "@ + str_debug_text(s.v1@) + ", v2: "@
        + str_debug_text(s.v2@) + ", v3: "@ + str_debug_text(s.v3@) + " }"@
}

/// How `{:?}` writes a list of signals.
pub open spec fn signals_debug_text(v: Seq<Signal>) -> Seq<char> {
    debug_list(v.map_values(|s: Signal| signal_debug_text(s)))
}

/// How `{:?}` writes an event: `Event { operate: .., signals_all: [..], ... }`.
pub open spec fn event_debug_text(e: Event) -> Seq<char> {
    "Event { operate: "@ + operate_debug_text(e.operate) + ", signals_all: "@ + signals_debug_text(e.signals_all@) + ", signals_any: "@
        + signals_debug_text(e.signals_any@) + ", signals_not: "@ + signals_debug_text(e.signals_not@) + ", name: "@ + str_debug_text(
        e.name@,
    ) + " }"@
}

/// How `{:?}` writes a list of events.
pub open spec fn events_debug_text(v: Seq<Event>) -> Seq<char> {
    debug_list(v.map_values(|e: Event| event_debug_text(e)))
}

proof fn lemma_joined_push(items: Seq<Seq<char>>, i: int)
    requires
        0 <= i < items.len(),
    ensures
        joined(items.take(i + 1)) == joined(items.take(i)) + (if i == 0 { Seq::<char>::empty() } else { ", "@ }) + items[i],
{
    let t = items.take(i + 1);
    assert(t.drop_last() =~= items.take(i));
    assert(t.last() == items[i]);
    if i == 0 {
        assert(items.take(0) =~= Seq::<Seq<char>>::empty());
        assert(joined(t) == items[0]);
        assert(Seq::<char>::empty() + Seq::<char>::empty() + items[i] =~= items[i]);
    }
}

fn push_operate_debug(out: &mut String, o: Operate)
    ensures
        final(out)@ == old(out)@ + operate_debug_text(o),
{
    match o {
        Operate::HL => push_str(out, "HL"),
        Operate::HS => push_str(out, "HS"),
        Operate::HO => push_str(out, "HO"),
        Operate::LO => push_str(out, "LO"),
        Operate::LE => push_str(out, "LE"),
        Operate::SO => push_str(out, "SO"),
        Operate::SE => push_str(out, "SE"),
    }
}

fn push_debug_str(out: &mut String, s: &str)
    ensures
        final(out)@ == old(out)@ + str_debug_text(s@),
{
    let d = debug_str(s);
    push_str(out, d.as_str());
}

/// Appends `{:?}` of a list of strings (`strings_debug_text`).
fn push_strings_debug(out: &mut String, v: &Vec<String>)
    ensures
        final(out)@ == old(out)@ + strings_debug_text(texts(v@)),
{
    let ghost items = texts(v@).map_values(|s: Seq<char>| str_debug_text(s));
    push_str(out, "[");
    let mut i: usize = 0;
    while i < v.len()
        invariant
            i <= v@.len(),
            items == texts(v@).map_values(|s: Seq<char>| str_debug_text(s)),
            out@ == old(out)@ + "["@ + joined(items.take(i as int)),
        decreases v.len() - i,
    {
        let ghost before = out@;
        if i > 0 {
            push_str(out, ", ");
        }
        push_debug_str(out, v[i].as_str());
        proof {
            lemma_joined_push(items, i as int);
            assert(items[i as int] == str_debug_text(v@[i as int]@));
            assert(out@ =~= old(out)@ + "["@ + joined(items.take(i + 1)));
        }
        i = i + 1;
    }
    push_str(out, "]");
    assert(items.take(v@.len() as int) =~= items);
    assert(out@ =~= old(out)@ + strings_debug_text(texts(v@)));
}

fn push_signal_debug(out: &mut String, s: &Signal)
    ensures
        final(out)@ == old(out)@ + signal_debug_text(*s),
{
    push_str(out, "Signal { signal: ");
    push_debug_str(out, s.signal.as_str());
    push_str(out, ", score: ");
    push_int(out, s.score as i64);
    push_str(out, ", k1: ");
    push_debug_str(out, s.k1.as_str());
    push_str(out, ", k2: ");
    push_debug_str(out, s.k2.as_str());
    push_str(out, ", k3: ");
    push_debug_str(out, s.k3.as_str());
    push_str(out, ", v1: ");
    push_debug_str(out, s.v1.as_str());
    push_str(out, ", v2: ");
    push_debug_str(out, s.v2.as_str());
    push_str(out, ", v3: ");
    push_debug_str(out, s.v3.as_str());
    push_str(out, " }");
    assert(out@ =~= old(out)@ + signal_debug_text(*s));
}

fn push_signals_debug(out: &mut String, v: &Vec<Signal>)
    ensures
        final(out)@ == old(out)@ + signals_debug_text(v@),
{
    let ghost items = v@.map_values(|s: Signal| signal_debug_text(s));
    push_str(out, "[");
    let mut i: usize = 0;
    while i < v.len()
        invariant
            i <= v@.len(),
            items == v@.map_values(|s: Signal| signal_debug_text(s)),
            out@ == old(out)@ + "["@ + joined(items.take(i as int)),
        decreases v.len() - i,
    {
        if i > 0 {
            push_str(out, ", ");
        }
        push_signal_debug(out, &v[i]);
        proof {
            lemma_joined_push(items, i as int);
            assert(out@ =~= old(out)@ + "["@ + joined(items.take(i + 1)));
        }
        i = i + 1;
    }
    push_str(out, "]");
    assert(items.take(v@.len() as int) =~= items);
    assert(out@ =~= old(out)@ + signals_debug_text(v@));
}

fn push_event_debug(out: &mut String, e: &Event)
    ensures
        final(out)@ == old(out)@ + event_debug_text(*e),
{
    push_str(out, "Event { operate: ");
    push_operate_debug(out, e.operate);
    push_str(out, ", signals_all: ");
    push_signals_debug(out, &e.signals_all);
    push_str(out, ", signals_any: ");
    push_signals_debug(out, &e.signals_any);
    push_str(out, ", signals_not: ");
    push_signals_debug(out, &e.signals_not);
    push_str(out, ", name: ");
    push_debug_str(out, e.name.as_str());
    push_str(out, " }");
    assert(out@ =~= old(out)@ + event_debug_text(*e));
}

/// Appends `{:?}` of a list of events (`events_debug_text`).
fn push_events_debug(out: &mut String, v: &Vec<Event>)
    ensures
        final(out)@ == old(out)@ + events_debug_text(v@),
{
    let ghost items = v@.map_values(|e: Event| event_debug_text(e));
    push_str(out, "[");
    let mut i: usize = 0;
    while i < v.len()
        invariant
            i <= v@.len(),
            items == v@.map_values(|e: Event| event_debug_text(e)),
            out@ == old(out)@ + "["@ + joined(items.take(i as int)),
        decreases v.len() - i,
    {
        if i > 0 {
            push_str(out, ", ");
        }
        push_event_debug(out, &v[i]);
        proof {
            lemma_joined_push(items, i as int);
            assert(out@ =~= old(out)@ + "["@ + joined(items.take(i + 1)));
        }
        i = i + 1;
    }
    push_str(out, "]");
    assert(items.take(v@.len() as int) =~= items);
    assert(out@ =~= old(out)@ + events_debug_text(v@));
}

/// The upper-case hexadecimal digit for `d` in `0..16`.
pub open spec fn hex_digit(d: int) -> char {
    if d < 10 { ((d + 48) as u8) as char } else { ((d + 55) as u8) as char }
}

/// Upper-case hexadecimal text of a number, no leading zeros (`{:X}`).
pub open spec fn hex_text(n: nat) -> Seq<char>
    decreases n,
{
    if n < 16 {
        seq![hex_digit(n as int)]
    } else {
        hex_text(n / 16).push(hex_digit((n % 16) as int))
    }
}

fn hex_digit_of(d: u64) -> (c: char)
    requires
        d < 16,
    ensures
        c == hex_digit(d as int),
{
    if d < 10 { ((d + 48) as u8) as char } else { ((d + 55) as u8) as char }
}

/// Appends the upper-case hexadecimal text of `n`.
pub fn push_hex(s: &mut String, n: u64)
    ensures
        final(s)@ == old(s)@ + hex_text(n as nat),
    decreases n,
{
    if n >= 16 {
        push_hex(s, n / 16);
    }
    push_char(s, hex_digit_of(n % 16));
    assert(s@ =~= old(s)@ + hex_text(n as nat));
}

/// The task hash of a text: the first eight hexadecimal digits of its digest.
pub open spec fn task_hash_of(s: Seq<char>) -> Seq<char> {
    hex_text(text_hash(s) as nat).take(8)
}

/// Whether the digest of a text has at least eight hexadecimal digits, which a
/// task hash needs.
pub open spec fn hash_has_eight_digits(s: Seq<char>) -> bool {
    hex_text(text_hash(s) as nat).len() >= 8
}

/// The text that names an open-optimisation task.
pub open spec fn opens_task_text(candidate_signals: Seq<Seq<char>>, symbols: Seq<Seq<char>>) -> Seq<char> {
    strings_debug_text(candidate_signals) + "_"@ + strings_debug_text(symbols)
}

/// The text that names an exit-optimisation task.
pub open spec fn exits_task_text(candidate_events: Seq<Event>, symbols: Seq<Seq<char>>) -> Seq<char> {
    events_debug_text(candidate_events) + "_"@ + strings_debug_text(symbols)
}

/// The first eight characters of `s`.
fn first_eight(s: &String) -> (r: String)
    requires
        s@.len() >= 8,
    ensures
        r@ == s@.take(8),
{
    let v = crate::text::chars_of(s.as_str());
    let mut out = String::new();
    let mut i: usize = 0;
    while i < 8
        invariant
            v@ == s@,
            s@.len() >= 8,
            i <= 8,
            out@ == s@.take(i as int),
        decreases 8 - i,
    {
        push_char(&mut out, v[i]);
        i = i + 1;
        assert(out@ =~= s@.take(i as int));
    }
    out
}

/// The task hash of a digest: its first eight upper-case hexadecimal digits, or
/// `None` when it has fewer.
pub fn task_hash_from_digest(digest: u64) -> (r: Option<String>)
    ensures
        r matches Some(h) ==> hex_text(digest as nat).len() >= 8 && h@ == hex_text(digest as nat).take(8),
        r is None ==> hex_text(digest as nat).len() < 8,
{
    let mut hex = String::new();
    push_hex(&mut hex, digest);
    assert(hex@ =~= hex_text(digest as nat));
    if hex.unicode_len() < 8 {
        return None;
    }
    Some(first_eight(&hex))
}

/// The results directory `base + sep + hash` of a task, and its positions
/// directory below it, `/poss`.
pub fn result_paths(base: &str, sep: &str, hash: &str) -> (r: (String, String))
    ensures
        r.0@ == base@ + sep@ + hash@,
        r.1@ == base@ + sep@ + hash@ + "/poss"@,
{
    let mut results = String::new();
    push_str(&mut results, base);
    push_str(&mut results, sep);
    push_str(&mut results, hash);
    let mut poss = results.clone();
    push_str(&mut poss, "/poss");
    (results, poss)
}

/// An optimisation of the open signals of a strategy.
pub struct OpensOptimize {
    pub version: String,
    pub symbols: Vec<String>,
    pub candidate_signals: Vec<String>,
    pub task_hash: String,
    pub results_path: String,
    pub poss_path: String,
    pub kwargs: StringHashMap<String>,
}

/// An optimisation of the exit events of a strategy.
pub struct ExitsOptimize {
    pub version: String,
    pub symbols: Vec<String>,
    pub candidate_events: Vec<Event>,
    pub task_hash: String,
    pub results_path: String,
    pub poss_path: String,
    pub kwargs: StringHashMap<String>,
}

fn copy_strings(v: &Vec<String>) -> (r: Vec<String>)
    ensures
        texts(r@) == texts(v@),
{
    let mut out: Vec<String> = Vec::new();
    let mut i: usize = 0;
    while i < v.len()
        invariant
            i <= v@.len(),
            texts(out@) == texts(v@).take(i as int),
        decreases v.len() - i,
    {
        let ghost before = texts(out@);
        out.push(v[i].clone());
        assert(texts(out@) =~= before.push(v@[i as int]@));
        assert(texts(v@).take(i + 1) =~= texts(v@).take(i as int).push(v@[i as int]@));
        i = i + 1;
    }
    assert(texts(v@).take(v@.len() as int) =~= texts(v@));
    out
}

impl OpensOptimize {
    /// An open-optimisation task over `symbols` and `candidate_signals`, named by
    /// the first eight hexadecimal digits of the digest of the two lists; its
    /// results go to `results_path/入场优化_<hash>` and positions to `.../poss`.
    /// The digest must have at least eight digits (`try_new` checks it).
    pub fn new(symbols: Vec<String>, candidate_signals: Vec<String>, results_path: String, kwargs: StringHashMap<String>) -> (r:
        OpensOptimize)
        requires
            hash_has_eight_digits(opens_task_text(texts(candidate_signals@), texts(symbols@))),
        ensures
            r.version@ == "OpensOptimizeV230924"@,
            texts(r.symbols@) == texts(symbols@),
            texts(r.candidate_signals@) == texts(candidate_signals@),
            r.task_hash@ == task_hash_of(opens_task_text(texts(candidate_signals@), texts(symbols@))),
            r.results_path@ == results_path@ + "/入场优化_"@ + r.task_hash@,
            r.poss_path@ == r.results_path@ + "/poss"@,
            r.kwargs@ == kwargs@,
    {
        let mut text = String::new();
        push_strings_debug(&mut text, &candidate_signals);
        push_str(&mut text, "_");
        push_strings_debug(&mut text, &symbols);
        assert(text@ =~= opens_task_text(texts(candidate_signals@), texts(symbols@)));
        let task_hash = match task_hash_from_digest(hash_text(text.as_str())) {
            Some(h) => h,
            None => String::new(),
        };
        let (results, poss) = result_paths(results_path.as_str(), "/入场优化_", task_hash.as_str());
        OpensOptimize {
            version: owned("OpensOptimizeV230924"),
            symbols: copy_strings(&symbols),
            candidate_signals: copy_strings(&candidate_signals),
            task_hash,
            results_path: results,
            poss_path: poss,
            kwargs,
        }
    }

    /// `new` when the digest of the two lists has at least eight hexadecimal
    /// digits; `None` otherwise.
    pub fn try_new(symbols: Vec<String>, candidate_signals: Vec<String>, results_path: String, kwargs: StringHashMap<
        String,
    >) -> (r: Option<OpensOptimize>)
        ensures
            r is Some <==> hash_has_eight_digits(opens_task_text(texts(candidate_signals@), texts(symbols@))),
            r matches Some(o) ==> {
                &&& o.version@ == "OpensOptimizeV230924"@
                &&& texts(o.symbols@) == texts(symbols@)
                &&& texts(o.candidate_signals@) == texts(candidate_signals@)
                &&& o.task_hash@ == task_hash_of(opens_task_text(texts(candidate_signals@), texts(symbols@)))
                &&& o.results_path@ == results_path@ + "/入场优化_"@ + o.task_hash@
                &&& o.poss_path@ == o.results_path@ + "/poss"@
                &&& o.kwargs@ == kwargs@
            },
    {
        let mut text = String::new();
        push_strings_debug(&mut text, &candidate_signals);
        push_str(&mut text, "_");
        push_strings_debug(&mut text, &symbols);
        assert(text@ =~= opens_task_text(texts(candidate_signals@), texts(symbols@)));
        if task_hash_from_digest(hash_text(text.as_str())).is_none() {
            return None;
        }
        Some(OpensOptimize::new(symbols, candidate_signals, results_path, kwargs))
    }
}

impl ExitsOptimize {
    /// An exit-optimisation task over `symbols` and `candidate_events`, named by
    /// the first eight hexadecimal digits of the digest of the two lists; its
    /// results go to `results_path/出场优化_<hash>` and positions to `.../poss`.
    /// The digest must have at least eight digits (`try_new` checks it).
    pub fn new(symbols: Vec<String>, candidate_events: Vec<Event>, results_path: String, kwargs: StringHashMap<String>) -> (r:
        ExitsOptimize)
        requires
            hash_has_eight_digits(exits_task_text(candidate_events@, texts(symbols@))),
        ensures
            r.version@ == "ExitsOptimizeV230924"@,
            texts(r.symbols@) == texts(symbols@),
            r.candidate_events@ == candidate_events@,
            r.task_hash@ == task_hash_of(exits_task_text(candidate_events@, texts(symbols@))),
            r.results_path@ == results_path@ + "/出场优化_"@ + r.task_hash@,
            r.poss_path@ == r.results_path@ + "/poss"@,
            r.kwargs@ == kwargs@,
    {
        let mut text = String::new();
        push_events_debug(&mut text, &candidate_events);
        push_str(&mut text, "_");
        push_strings_debug(&mut text, &symbols);
        assert(text@ =~= exits_task_text(candidate_events@, texts(symbols@)));
        let task_hash = match task_hash_from_digest(hash_text(text.as_str())) {
            Some(h) => h,
            None => String::new(),
        };
        let (results, poss) = result_paths(results_path.as_str(), "/出场优化_", task_hash.as_str());
        ExitsOptimize {
            version: owned("ExitsOptimizeV230924"),
            symbols: copy_strings(&symbols),
            candidate_events,
            task_hash,
            results_path: results,
            poss_path: poss,
            kwargs,
        }
    }

    /// `new` when the digest of the two lists has at least eight hexadecimal
    /// digits; `None` otherwise.
    pub fn try_new(symbols: Vec<String>, candidate_events: Vec<Event>, results_path: String, kwargs: StringHashMap<String>) -> (r:
        Option<ExitsOptimize>)
        ensures
            r is Some <==> hash_has_eight_digits(exits_task_text(candidate_events@, texts(symbols@))),
            r matches Some(o) ==> {
                &&& o.version@ == "ExitsOptimizeV230924"@
                &&& texts(o.symbols@) == texts(symbols@)
                &&& o.candidate_events@ == candidate_events@
                &&& o.task_hash@ == task_hash_of(exits_task_text(candidate_events@, texts(symbols@)))
                &&& o.results_path@ == results_path@ + "/出场优化_"@ + o.task_hash@
                &&& o.poss_path@ == o.results_path@ + "/poss"@
                &&& o.kwargs@ == kwargs@
            },
    {
        let mut text = String::new();
        push_events_debug(&mut text, &candidate_events);
        push_str(&mut text, "_");
        push_strings_debug(&mut text, &symbols);
        assert(text@ =~= exits_task_text(candidate_events@, texts(symbols@)));
        if task_hash_from_digest(hash_text(text.as_str())).is_none() {
            return None;
        }
        Some(ExitsOptimize::new(symbols, candidate_events, results_path, kwargs))
    }
}

/// The signal that `update_beta_opens` makes of a signal text: every name and
/// value is the text, and the score is zero.
pub open spec fn is_plain_signal(sig: Signal, s: String) -> bool {
    &&& sig.k1 == s
    &&& sig.k2 == s
    &&& sig.k3 == s
    &&& sig.v1 == s
    &&& sig.v2 == s
    &&& sig.v3 == s
    &&& sig.score == 0
    &&& sig.signal@ == signal_text(s@, s@, s@, s@, s@, s@, 0)
}

/// The base strategy `beta` with one more required signal on its single open
/// event for each of `open_signals_all`, in order (see `is_plain_signal`).
pub fn update_beta_opens(beta: &Position, open_signals_all: &[String]) -> (r: Position)
    requires
        beta.opens@.len() == 1,
    ensures
        r.name == beta.name,
        r.symbol == beta.symbol,
        r.operatetimes == beta.operatetimes,
        same_events(r.exits@, beta.exits@),
        r.opens@.len() == 1,
        r.opens@[0].operate == beta.opens@[0].operate,
        r.opens@[0].name == beta.opens@[0].name,
        r.opens@[0].signals_any@ == beta.opens@[0].signals_any@,
        r.opens@[0].signals_not@ == beta.opens@[0].signals_not@,
        r.opens@[0].signals_all@.len() == beta.opens@[0].signals_all@.len() + open_signals_all@.len(),
        r.opens@[0].signals_all@.take(beta.opens@[0].signals_all@.len() as int) == beta.opens@[0].signals_all@,
        forall|i: int| 0 <= i < open_signals_all@.len() ==> is_plain_signal(
            #[trigger] r.opens@[0].signals_all@[beta.opens@[0].signals_all@.len() + i],
            open_signals_all@[i],
        ),
        r.holds@.len() == beta.holds@.len(),
        r.pairs@.len() == beta.pairs@.len(),
{
    let mut pos = beta.duplicate();
    let ghost base = beta.opens@[0].signals_all@;
    let mut added: Vec<Signal> = Vec::new();
    let mut i: usize = 0;
    while i < open_signals_all.len()
        invariant
            i <= open_signals_all@.len(),
            added@.len() == i,
            forall|j: int| 0 <= j < i ==> is_plain_signal(#[trigger] added@[j], open_signals_all@[j]),
        decreases open_signals_all.len() - i,
    {
        let s = &open_signals_all[i];
        let sig = Signal::new(s.clone(), s.clone(), s.clone(), s.clone(), s.clone(), s.clone(), 0);
        added.push(sig);
        i = i + 1;
    }
    let first = &pos.opens[0];
    let mut all = copy_signals(&first.signals_all);
    let mut j: usize = 0;
    while j < added.len()
        invariant
            j <= added@.len(),
            all@ == base + added@.take(j as int),
        decreases added.len() - j,
    {
        all.push(added[j].duplicate());
        j = j + 1;
        assert(all@ =~= base + added@.take(j as int));
    }
    assert(added@.take(added@.len() as int) =~= added@);
    let updated = Event {
        operate: first.operate,
        signals_all: all,
        signals_any: copy_signals(&first.signals_any),
        signals_not: copy_signals(&first.signals_not),
        name: first.name.clone(),
    };
    let mut opens: Vec<Event> = Vec::new();
    opens.push(updated);
    pos.opens = opens;
    proof {
        assert(pos.opens@[0].signals_all@.take(base.len() as int) =~= base);
        assert forall|i: int| 0 <= i < open_signals_all@.len() implies is_plain_signal(
            #[trigger] pos.opens@[0].signals_all@[base.len() + i],
            open_signals_all@[i],
        ) by {
            assert(pos.opens@[0].signals_all@[base.len() + i] == added@[i]);
        }
    }
    pos
}

/// Whether every open event opens long (vacuously so when there are none).
pub open spec fn all_open_long(opens: Seq<Event>) -> bool {
    forall|i: int| 0 <= i < opens.len() ==> (#[trigger] opens[i]).operate == Operate::LO
}

/// Whether every open event opens short (vacuously so when there are none).
pub open spec fn all_open_short(opens: Seq<Event>) -> bool {
    forall|i: int| 0 <= i < opens.len() ==> (#[trigger] opens[i]).operate == Operate::SO
}

/// Whether an exit event suits the base strategy's opens: a strategy that only
/// opens long must exit long, and one that only opens short must exit short.
pub open spec fn exit_fits(opens: Seq<Event>, exit: Operate) -> bool {
    !(all_open_long(opens) && exit != Operate::LE) && !(all_open_short(opens) && exit != Operate::SE)
}

fn all_with(opens: &Vec<Event>, op: Operate) -> (r: bool)
    ensures
        r == forall|i: int| 0 <= i < opens@.len() ==> (#[trigger] opens@[i]).operate == op,
{
    let mut i: usize = 0;
    while i < opens.len()
        invariant
            i <= opens@.len(),
            forall|j: int| 0 <= j < i ==> (#[trigger] opens@[j]).operate == op,
        decreases opens.len() - i,
    {
        if opens[i].operate != op {
            return false;
        }
        i = i + 1;
    }
    true
}

/// Whether `p` is the base strategy `beta` with `event` as its only exit
/// (`replace`) or as one more exit (`append`), renamed `name#替换<digest>` or
/// `name#追加<digest>` with the digest in upper-case hexadecimal.
pub open spec fn exit_placed(beta: Position, event: Event, mode: Seq<char>, digest: u64, p: Position) -> bool {
    &&& p.symbol == beta.symbol
    &&& p.operatetimes == beta.operatetimes
    &&& same_events(p.opens@, beta.opens@)
    &&& mode == "replace"@ ==> p.exits@.len() == 1 && same_event(p.exits@[0], event) && p.name@ == beta.name@ + "#替换"@ + hex_text(
        digest as nat,
    )
    &&& mode == "append"@ ==> p.exits@.len() == beta.exits@.len() + 1 && same_events(p.exits@.take(beta.exits@.len() as int), beta.exits@)
        && same_event(p.exits@.last(), event) && p.name@ == beta.name@ + "#追加"@ + hex_text(digest as nat)
}

/// The base strategy `beta` with `event` placed as an exit and named after
/// `digest` (`exit_placed`); `None` when the event does not suit the strategy's
/// opens (see `exit_fits`). The mode must be `replace` or `append` whenever the
/// event suits.
pub fn beta_with_exit(beta: &Position, event: &Event, mode: &str, digest: u64) -> (r: Option<Position>)
    requires
        exit_fits(beta.opens@, event.operate) ==> mode@ == "replace"@ || mode@ == "append"@,
    ensures
        r is Some <==> exit_fits(beta.opens@, event.operate),
        r matches Some(p) ==> exit_placed(*beta, *event, mode@, digest, p),
{
    if all_with(&beta.opens, Operate::LO) && event.operate != Operate::LE {
        return None;
    }
    if all_with(&beta.opens, Operate::SO) && event.operate != Operate::SE {
        return None;
    }
    let mut pos = beta.duplicate();
    if str_eq(mode, "replace") {
        let mut exits: Vec<Event> = Vec::new();
        exits.push(event.duplicate());
        pos.exits = exits;
        let mut name = beta.name.clone();
        push_str(&mut name, "#替换");
        push_hex(&mut name, digest);
        pos.name = name;
        proof {
            reveal_strlit("replace");
            reveal_strlit("append");
            assert("replace"@[0] == 'r');
            assert("append"@[0] == 'a');
            assert(mode@ != "append"@);
        }
    } else {
        let ghost before = pos.exits@;
        pos.exits.push(event.duplicate());
        let mut name = beta.name.clone();
        push_str(&mut name, "#追加");
        push_hex(&mut name, digest);
        pos.name = name;
        proof {
            assert(pos.exits@.take(beta.exits@.len() as int) =~= before);
            reveal_strlit("replace");
            reveal_strlit("append");
            assert("replace"@[0] == 'r');
            assert("append"@[0] == 'a');
            assert(mode@ != "replace"@);
        }
    }
    Some(pos)
}

/// The base strategy `beta` with `event` as its only exit (`replace`) or as one
/// more exit (`append`), renamed after the event's digest (`event_digest`) in
/// upper-case hexadecimal (`beta_with_exit`); `None` when the event does not suit
/// the strategy's opens (see `exit_fits`). Which digest comes out depends on the
/// machine, so the name is stated for some digest.
pub fn update_beta_exits(beta: &Position, event: &Event, mode: &str) -> (r: Option<Position>)
    requires
        exit_fits(beta.opens@, event.operate) ==> mode@ == "replace"@ || mode@ == "append"@,
    ensures
        r is Some <==> exit_fits(beta.opens@, event.operate),
        r matches Some(p) ==> exists|d: u64| #[trigger] exit_placed(*beta, *event, mode@, d, p),
{
    let digest = event_digest(event);
    let r = beta_with_exit(beta, event, mode, digest);
    proof {
        if r is Some {
            assert(exit_placed(*beta, *event, mode@, digest, r->0));
        }
    }
    r
}

} // verus!
