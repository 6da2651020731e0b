//! Detecting, matching and counting events in a series of observations.
//!
//! Observations are maps from a field name (`high`, `volume`, ...) to an integer
//! value in the instrument's smallest unit.
use vstd::prelude::*;
use vstd::hash_map::StringHashMap;
use crate::text::{owned, push_nat, text_values, nat_text, str_eq, lemma_nat_text_digits};

verus! {

/// Matches events by a pattern of named settings; `condition` selects the rule.
pub struct EventMatcher {
    pub pattern: StringHashMap<String>,
}

/// An event found in a series.
pub struct DetectedEvent {
    pub timestamp: String,
    pub event_type: String,
    pub description: String,
    pub data: StringHashMap<String>,
}

/// What a detected event holds.
pub struct DetectedEventView {
    pub timestamp: Seq<char>,
    pub event_type: Seq<char>,
    pub description: Seq<char>,
    pub data: Map<Seq<char>, Seq<char>>,
}

impl View for DetectedEvent {
    type V = DetectedEventView;

    open spec fn view(&self) -> DetectedEventView {
        DetectedEventView {
            timestamp: self.timestamp@,
            event_type: self.event_type@,
            description: self.description@,
            data: text_values(self.data@),
        }
    }
}

/// The views of a run of events.
pub open spec fn event_views(s: Seq<DetectedEvent>) -> Seq<DetectedEventView> {
    s.map_values(|e: DetectedEvent| e@)
}

impl EventMatcher {
    /// A matcher for the given pattern.
    pub fn new(pattern: StringHashMap<String>) -> (r: EventMatcher)
        ensures
            r.pattern@ == pattern@,
    {
        EventMatcher { pattern }
    }
}

/// The rules a matcher can apply.
pub enum EventRule {
    /// The high rises above the previous observation's high.
    PriceBreakout,
    /// The volume exceeds one and a half times the previous observation's volume.
    VolumeSpike,
}

/// The rule that a pattern's `condition` selects, if any.
pub open spec fn rule_of(pattern: Map<Seq<char>, String>) -> Option<EventRule> {
    if pattern.contains_key("condition"@) && pattern["condition"@]@ == "price_breakout"@ {
        Some(EventRule::PriceBreakout)
    } else if pattern.contains_key("condition"@) && pattern["condition"@]@ == "volume_spike"@ {
        Some(EventRule::VolumeSpike)
    } else {
        None
    }
}

/// Whether observation `i` (after the first) fires `rule` against observation `i - 1`;
/// both must hold the field the rule reads.
pub open spec fn fires(data: Seq<Map<Seq<char>, i64>>, rule: EventRule, i: int) -> bool {
    &&& 0 < i < data.len()
    &&& match rule {
        EventRule::PriceBreakout => {
            &&& data[i].contains_key("high"@)
            &&& data[i - 1].contains_key("high"@)
            &&& data[i]["high"@] > data[i - 1]["high"@]
        },
        EventRule::VolumeSpike => {
            &&& data[i].contains_key("volume"@)
            &&& data[i - 1].contains_key("volume"@)
            &&& 2 * data[i]["volume"@] > 3 * data[i - 1]["volume"@]
        },
    }
}

/// The positions below `n` at which `rule` fires, in order.
pub open spec fn firing_positions(data: Seq<Map<Seq<char>, i64>>, rule: EventRule, n: nat) -> Seq<nat>
    decreases n,
{
    if n == 0 {
        Seq::empty()
    } else {
        let before = firing_positions(data, rule, (n - 1) as nat);
        if fires(data, rule, n - 1) {
            before.push((n - 1) as nat)
        } else {
            before
        }
    }
}

/// The event that `rule` reports at position `i`.
pub open spec fn rule_event(rule: EventRule, i: nat) -> DetectedEventView {
    match rule {
        EventRule::PriceBreakout => DetectedEventView {
            timestamp: "index_"@ + nat_text(i),
            event_type: "breakout"@,
            description: "Price breakout detected at index "@ + nat_text(i),
            data: Map::empty(),
        },
        EventRule::VolumeSpike => DetectedEventView {
            timestamp: "index_"@ + nat_text(i),
            event_type: "volume_spike"@,
            description: "Volume spike detected at index "@ + nat_text(i),
            data: Map::empty(),
        },
    }
}

/// The events that a pattern finds in a series: one per firing position of its
/// rule, in order; none when the pattern names no known rule.
pub open spec fn detected(pattern: Map<Seq<char>, String>, data: Seq<Map<Seq<char>, i64>>) -> Seq<DetectedEventView> {
    match rule_of(pattern) {
        Some(rule) => firing_positions(data, rule, data.len()).map_values(|i: nat| rule_event(rule, i)),
        None => Seq::empty(),
    }
}

/// The views of a run of observations.
pub open spec fn obs_views(data: Seq<StringHashMap<i64>>) -> Seq<Map<Seq<char>, i64>> {
    data.map_values(|m: StringHashMap<i64>| m@)
}

fn index_text(prefix: &str, i: usize) -> (s: String)
    ensures
        s@ == prefix@ + nat_text(i as nat),
{
    let mut s = owned(prefix);
    push_nat(&mut s, i as u64);
    s
}

fn make_event(rule: &EventRule, i: usize) -> (e: DetectedEvent)
    ensures
        e@ == rule_event(*rule, i as nat),
{
    let data: StringHashMap<String> = StringHashMap::new();
    assert(text_values(data@) =~= Map::empty());
    match rule {
        EventRule::PriceBreakout => DetectedEvent {
            timestamp: index_text("index_", i),
            event_type: owned("breakout"),
            description: index_text("Price breakout detected at index ", i),
            data,
        },
        EventRule::VolumeSpike => DetectedEvent {
            timestamp: index_text("index_", i),
            event_type: owned("volume_spike"),
            description: index_text("Volume spike detected at index ", i),
            data,
        },
    }
}

fn fires_at(data: &[StringHashMap<i64>], rule: &EventRule, i: usize) -> (r: bool)
    requires
        0 < i < data@.len(),
    ensures
        r == fires(obs_views(data@), *rule, i as int),
{
    let field = match rule {
        EventRule::PriceBreakout => "high",
        EventRule::VolumeSpike => "volume",
    };
    match (data[i].get(field), data[i - 1].get(field)) {
        (Some(cur), Some(prev)) => match rule {
            EventRule::PriceBreakout => *cur > *prev,
            EventRule::VolumeSpike => 2 * (*cur as i128) > 3 * (*prev as i128),
        },
        _ => false,
    }
}

/// The rule that a pattern's `condition` selects, if any.
fn rule_for(pattern: &StringHashMap<String>) -> (r: Option<EventRule>)
    ensures
        r == rule_of(pattern@),
{
        match pattern.get("condition") {
            Some(c) => {
                if str_eq(c.as_str(), "price_breakout") {
                    Some(EventRule::PriceBreakout)
                } else if str_eq(c.as_str(), "volume_spike") {
                    Some(EventRule::VolumeSpike)
                } else {
                    None
                }
            },
            None => None,
        }
}

/// The events that the rule of `pattern` finds in `data`.
fn detect_by(pattern: &StringHashMap<String>, data: &[StringHashMap<i64>]) -> (r: Vec<DetectedEvent>)
    ensures
        event_views(r@) == detected(pattern@, obs_views(data@)),
{
        let mut events: Vec<DetectedEvent> = Vec::new();
        let ghost d = obs_views(data@);
        match rule_for(pattern) {
            None => {
                assert(event_views(events@) =~= detected(pattern@, d));
            },
            Some(rule) => {
                let mut i: usize = 0;
                assert(event_views(events@) =~= firing_positions(d, rule, 0).map_values(|p: nat| rule_event(rule, p)));
                while i < data.len()
                    invariant
                        d == obs_views(data@),
                        i <= data@.len(),
                        event_views(events@) == firing_positions(d, rule, i as nat).map_values(|p: nat| rule_event(rule, p)),
                    decreases data.len() - i,
                {
                    let ghost before = event_views(events@);
                    if i > 0 && fires_at(data, &rule, i) {
                        let e = make_event(&rule, i);
                        events.push(e);
                        assert(event_views(events@) =~= before.push(rule_event(rule, i as nat)));
                    }
                    i = i + 1;
                    assert(event_views(events@) =~= firing_positions(d, rule, i as nat).map_values(|p: nat| rule_event(rule, p)));
                }
                assert(d.len() == data@.len());
            },
        }
        events
}

impl EventMatcher {
    /// The events that this matcher's rule finds in `data`: for `price_breakout`,
    /// each observation whose high exceeds the previous high; for `volume_spike`,
    /// each one whose volume exceeds one and a half times the previous volume.
    pub fn detect_events(&self, data: &[StringHashMap<i64>]) -> (r: Result<Vec<DetectedEvent>, String>)
        ensures
            r is Ok,
            event_views(r->Ok_0@) == detected(self.pattern@, obs_views(data@)),
    {
        Ok(detect_by(&self.pattern, data))
    }
}

/// The number of events of type `t`.
pub open spec fn type_count(events: Seq<DetectedEvent>, t: Seq<char>) -> nat
    decreases events.len(),
{
    if events.len() == 0 {
        0
    } else {
        type_count(events.drop_last(), t) + if events.last().event_type@ == t { 1nat } else { 0nat }
    }
}

proof fn lemma_type_count_bounded(events: Seq<DetectedEvent>, t: Seq<char>)
    ensures
        type_count(events, t) <= events.len(),
    decreases events.len(),
{
    if events.len() > 0 {
        lemma_type_count_bounded(events.drop_last(), t);
    }
}

/// How many events there are of each type; a type with no event has no entry.
pub fn analyze_events(events: &[DetectedEvent]) -> (r: StringHashMap<usize>)
    ensures
        forall|t: Seq<char>| #[trigger] r@.contains_key(t) <==> type_count(events@, t) > 0,
        forall|t: Seq<char>| r@.contains_key(t) ==> #[trigger] r@[t] == type_count(events@, t),
{
    let mut stats: StringHashMap<usize> = StringHashMap::new();
    let mut i: usize = 0;
    while i < events.len()
        invariant
            i <= events@.len(),
            forall|t: Seq<char>| #[trigger] stats@.contains_key(t) <==> type_count(events@.take(i as int), t) > 0,
            forall|t: Seq<char>| stats@.contains_key(t) ==> #[trigger] stats@[t] == type_count(events@.take(i as int), t),
        decreases events.len() - i,
    {
        let ghost pre = events@.take(i as int);
        let ghost cur = events@.take(i + 1);
        assert(cur.drop_last() =~= pre);
        assert(cur.last() == events@[i as int]);
        let key = events[i].event_type.as_str();
        let n: usize = match stats.get(key) {
            Some(c) => *c,
            None => 0,
        };
        proof {
            lemma_type_count_bounded(pre, key@);
        }
        let ghost before = stats@;
        stats.insert(events[i].event_type.clone(), n + 1);
        assert forall|t: Seq<char>| #[trigger] stats@.contains_key(t) <==> type_count(cur, t) > 0 by {
            if t != key@ {
                assert(stats@.contains_key(t) == before.contains_key(t));
            }
        }
        i = i + 1;
    }
    assert(events@.take(events@.len() as int) =~= events@);
    stats
}

/// Applies `condition` to every observation, in order.
pub fn detect_events_simple<F: Fn(&StringHashMap<i64>) -> bool>(data: &[StringHashMap<i64>], condition: F) -> (r:
    Result<Vec<bool>, String>)
    requires
        forall|i: int| 0 <= i < data@.len() ==> condition.requires((&data@[i],)),
    ensures
        r is Ok,
        r->Ok_0@.len() == data@.len(),
        forall|i: int| 0 <= i < data@.len() ==> condition.ensures((&data@[i],), #[trigger] r->Ok_0@[i]),
{
    let mut results: Vec<bool> = Vec::new();
    let mut i: usize = 0;
    while i < data.len()
        invariant
            i <= data@.len(),
            results@.len() == i,
            forall|j: int| 0 <= j < data@.len() ==> condition.requires((&data@[j],)),
            forall|j: int| 0 <= j < i ==> condition.ensures((&data@[j],), #[trigger] results@[j]),
        decreases data.len() - i,
    {
        let b = condition(&data[i]);
        results.push(b);
        i = i + 1;
    }
    Ok(results)
}

/// The name under which the events of the `i`-th pattern are filed.
pub open spec fn pattern_name(i: nat) -> Seq<char> {
    "pattern_"@ + nat_text(i)
}

proof fn lemma_pattern_name_injective(i: nat, j: nat)
    requires
        i != j,
    ensures
        pattern_name(i) != pattern_name(j),
{
    lemma_nat_text_digits(i);
    lemma_nat_text_digits(j);
    if pattern_name(i) == pattern_name(j) {
        let p = "pattern_"@;
        assert(pattern_name(i).skip(p.len() as int) =~= nat_text(i));
        assert(pattern_name(j).skip(p.len() as int) =~= nat_text(j));
    }
}

/// The events of every pattern, filed under `pattern_0`, `pattern_1`, ... in the
/// order of the patterns.
pub fn detect_multiple_events(data: &[StringHashMap<i64>], patterns: &[StringHashMap<String>]) -> (r: Result<
    StringHashMap<Vec<DetectedEvent>>,
    String,
>)
    ensures
        r is Ok,
        forall|k: Seq<char>| #[trigger] r->Ok_0@.contains_key(k) <==> exists|i: nat| i < patterns@.len() && k == pattern_name(i),
        forall|i: nat| i < patterns@.len() ==> event_views(#[trigger] r->Ok_0@[pattern_name(i)]@) == detected(patterns@[i as int]@, obs_views(data@)),
{
    let mut all: StringHashMap<Vec<DetectedEvent>> = StringHashMap::new();
    let mut i: usize = 0;
    while i < patterns.len()
        invariant
            i <= patterns@.len(),
            forall|k: Seq<char>| #[trigger] all@.contains_key(k) <==> exists|j: nat| j < i && k == pattern_name(j),
            forall|j: nat| j < i ==> event_views(#[trigger] all@[pattern_name(j)]@) == detected(patterns@[j as int]@, obs_views(data@)),
        decreases patterns.len() - i,
    {
        let events = detect_by(&patterns[i], data);
        let name = index_text("pattern_", i);
        let ghost before = all@;
        all.insert(name, events);
        proof {
            assert forall|k: Seq<char>| #[trigger] all@.contains_key(k) <==> exists|j: nat| j < i + 1 && k == pattern_name(j) by {
                if k == pattern_name(i as nat) {
                    assert(exists|j: nat| j < i + 1 && k == pattern_name(j));
                } else if exists|j: nat| j < i + 1 && k == pattern_name(j) {
                    let j = choose|j: nat| j < i + 1 && k == pattern_name(j);
                    assert(j < i);
                    assert(before.contains_key(pattern_name(j)));
                }
            }
            assert forall|j: nat| j < i + 1 implies event_views(#[trigger] all@[pattern_name(j)]@) == detected(patterns@[j as int]@, obs_views(data@)) by {
                if j < i {
                    lemma_pattern_name_injective(j, i as nat);
                }
            }
        }
        i = i + 1;
    }
    Ok(all)
}

} // verus!
