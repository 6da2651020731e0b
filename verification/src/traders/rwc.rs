//! Strategy position weights kept in a key-value store in the layout of the
//! Redis weights service: `<prefix>:<strategy>:<symbol>:...` keys, metadata under
//! `<prefix>:META:<strategy>`, and a heartbeat key.
use vstd::prelude::*;
use vstd::hash_map::StringHashMap;
use crate::store::TextStore;
use crate::text::{chars_of, owned, push_str, split_chars, split_on, pieces_view, string_of_chars, str_eq, text_values, texts};
use crate::traders::rows::{col, key_is, opt_str, row_key, row_views, sort_rows, sorted_by};
use crate::traders::cwc::{format_utc, naive_date_instant, naive_datetime_instant, now_text, offset_datetime_instant, parse_naive_date, parse_naive_datetime, parse_offset_datetime, utc_text};

verus! {

/// Whether `s` begins with `p`.
pub open spec fn starts_with(s: Seq<char>, p: Seq<char>) -> bool {
    s.len() >= p.len() && s.take(p.len() as int) == p
}

/// Whether `s` ends with `p`.
pub open spec fn ends_with(s: Seq<char>, p: Seq<char>) -> bool {
    s.len() >= p.len() && s.skip(s.len() - p.len()) == p
}

/// Whether `s` begins with `p`.
pub fn has_prefix(s: &str, p: &str) -> (r: bool)
    ensures
        r == starts_with(s@, p@),
{
    let a = chars_of(s);
    let b = chars_of(p);
    if a.len() < b.len() {
        return false;
    }
    let mut i: usize = 0;
    while i < b.len()
        invariant
            a@ == s@,
            b@ == p@,
            a@.len() >= b@.len(),
            i <= b@.len(),
            forall|j: int| 0 <= j < i ==> a@[j] == b@[j],
        decreases b.len() - i,
    {
        if a[i] != b[i] {
            assert(s@.take(p@.len() as int)[i as int] != p@[i as int]);
            return false;
        }
        i = i + 1;
    }
    assert(s@.take(p@.len() as int) =~= p@);
    true
}

/// Whether `s` ends with `p`.
pub fn has_suffix(s: &str, p: &str) -> (r: bool)
    ensures
        r == ends_with(s@, p@),
{
    let a = chars_of(s);
    let b = chars_of(p);
    if a.len() < b.len() {
        return false;
    }
    let n = a.len();
    let off = n - b.len();
    let mut i: usize = 0;
    while i < b.len()
        invariant
            n == a@.len(),
            a@ == s@,
            b@ == p@,
            off + b@.len() == a@.len(),
            a@.len() >= b@.len(),
            i <= b@.len(),
            forall|j: int| 0 <= j < i ==> a@[off + j] == b@[j],
        decreases b.len() - i,
    {
        let ai = a[off + i];
        if ai != b[i] {
            assert(s@.skip(s@.len() - p@.len())[i as int] != p@[i as int]);
            return false;
        }
        i = i + 1;
    }
    assert(s@.skip(s@.len() - p@.len()) =~= p@);
    true
}

/// `a:b:c`.
pub open spec fn join3(a: Seq<char>, b: Seq<char>, c: Seq<char>) -> Seq<char> {
    a + ":"@ + b + ":"@ + c
}

fn join3_text(a: &str, b: &str, c: &str) -> (r: String)
    ensures
        r@ == join3(a@, b@, c@),
{
    let mut s = owned(a);
    push_str(&mut s, ":");
    push_str(&mut s, b);
    push_str(&mut s, ":");
    push_str(&mut s, c);
    s
}

/// A client of the Redis weights service for one strategy, keeping its keys in
/// `redis_connection`; `send_heartbeat` asks its owner to beat periodically.
pub struct RedisWeightsClient {
    pub strategy_name: String,
    pub key_prefix: String,
    pub heartbeat_prefix: String,
    pub send_heartbeat: bool,
    pub redis_connection: TextStore,
}

/// The setting `name` of `kwargs`, or `default` when it is not given.
pub open spec fn setting_or(kwargs: Map<Seq<char>, String>, name: Seq<char>, default: Seq<char>) -> Seq<char> {
    if kwargs.contains_key(name) {
        kwargs[name]@
    } else {
        default
    }
}

fn setting(kwargs: &StringHashMap<String>, name: &str, default: &str) -> (r: String)
    ensures
        r@ == setting_or(kwargs@, name@, default@),
{
    match kwargs.get(name) {
        Some(v) => v.clone(),
        None => owned(default),
    }
}

impl RedisWeightsClient {
    /// A client for `strategy_name` with an empty store; `key_prefix` (default
    /// `Weights`) and `heartbeat_prefix` (default `heartbeat`) come from
    /// `kwargs`, and heartbeats are on unless `send_heartbeat` says otherwise.
    /// The address and pool of the service are not used by the in-memory store.
    pub fn new(
        strategy_name: String,
        redis_url: Option<String>,
        connection_pool: Option<String>,
        send_heartbeat: Option<bool>,
        kwargs: StringHashMap<String>,
    ) -> (r: RedisWeightsClient)
        ensures
            r.strategy_name@ == strategy_name@,
            r.key_prefix@ == setting_or(kwargs@, "key_prefix"@, "Weights"@),
            r.heartbeat_prefix@ == setting_or(kwargs@, "heartbeat_prefix"@, "heartbeat"@),
            r.send_heartbeat == match send_heartbeat {
                Some(b) => b,
                None => true,
            },
            r.redis_connection@ == Map::<Seq<char>, Seq<char>>::empty(),
    {
        let key_prefix = setting(&kwargs, "key_prefix", "Weights");
        let heartbeat_prefix = setting(&kwargs, "heartbeat_prefix", "heartbeat");
        let send = match send_heartbeat {
            Some(b) => b,
            None => true,
        };
        RedisWeightsClient {
            strategy_name,
            key_prefix,
            heartbeat_prefix,
            send_heartbeat: send,
            redis_connection: TextStore::new(),
        }
    }

    /// The key of the strategy's heartbeat: `prefix:heartbeat_prefix:strategy`.
    pub fn heartbeat_key(&self) -> (r: String)
        ensures
            r@ == join3(self.key_prefix@, self.heartbeat_prefix@, self.strategy_name@),
    {
        join3_text(self.key_prefix.as_str(), self.heartbeat_prefix.as_str(), self.strategy_name.as_str())
    }

    /// Records a heartbeat at the time `stamp`.
    pub fn beat(&mut self, stamp: String)
        ensures
            final(self).redis_connection@ == old(self).redis_connection@.insert(
                join3(old(self).key_prefix@, old(self).heartbeat_prefix@, old(self).strategy_name@),
                stamp@,
            ),
            final(self).strategy_name == old(self).strategy_name,
            final(self).key_prefix == old(self).key_prefix,
            final(self).heartbeat_prefix == old(self).heartbeat_prefix,
            final(self).send_heartbeat == old(self).send_heartbeat,
    {
        let key = self.heartbeat_key();
        self.redis_connection.insert(key, stamp);
    }
}

/// The store without the keys that begin with `p`.
pub open spec fn without_prefix(m: Map<Seq<char>, Seq<char>>, p: Seq<char>) -> Map<Seq<char>, Seq<char>> {
    Map::new(|k: Seq<char>| m.contains_key(k) && !starts_with(k, p), |k: Seq<char>| m[k])
}

/// The store after clearing a strategy: without its `prefix:strategy` keys, its
/// metadata and last-update keys, its heartbeat, and the list of strategy names.
pub open spec fn cleared_store(m: Map<Seq<char>, Seq<char>>, prefix: Seq<char>, hb: Seq<char>, name: Seq<char>) -> Map<
    Seq<char>,
    Seq<char>,
> {
    without_prefix(m, prefix + ":"@ + name).remove(join3(prefix, "META"@, name)).remove(
        join3(prefix, "LAST"@, name),
    ).remove(join3(prefix, hb, name)).remove(prefix + ":StrategyNames"@)
}

/// Whether a stored key is a last-weight key of the strategy: it begins with
/// `prefix:strategy:`, ends with `:LAST` and has a third `:`-separated field,
/// the symbol.
pub open spec fn is_last_key(k: Seq<char>, prefix: Seq<char>, name: Seq<char>) -> bool {
    starts_with(k, prefix + ":"@ + name + ":"@) && ends_with(k, ":LAST"@) && split_on(k, ':').len() >= 3
}

/// Whether a stored key is a metadata field of the strategy: it begins with
/// `prefix:META:strategy` and has a fourth `:`-separated field, the field name.
pub open spec fn is_meta_key(k: Seq<char>, prefix: Seq<char>, name: Seq<char>) -> bool {
    starts_with(k, join3(prefix, "META"@, name)) && split_on(k, ':').len() > 3
}

fn piece(v: &Vec<char>, i: usize) -> (r: Option<String>)
    ensures
        match r {
            Some(t) => split_on(v@, ':').len() > i && t@ == split_on(v@, ':')[i as int],
            None => split_on(v@, ':').len() <= i,
        },
{
    let parts = split_chars(v, ':');
    if i < parts.len() {
        assert(pieces_view(parts@)[i as int] == parts@[i as int]@);
        Some(string_of_chars(&parts[i]))
    } else {
        None
    }
}

proof fn lemma_push_contains(t: Seq<Seq<char>>, x: Seq<char>, s: Seq<char>)
    ensures
        t.push(x).contains(s) <==> (t.contains(s) || s == x),
{
    if t.push(x).contains(s) && s != x {
        let j = choose|j: int| 0 <= j < t.push(x).len() && t.push(x)[j] == s;
        assert(t[j] == s);
    }
    if s == x {
        assert(t.push(x)[t.len() as int] == s);
    }
    if t.contains(s) {
        let j = choose|j: int| 0 <= j < t.len() && t[j] == s;
        assert(t.push(x)[j] == s);
    }
}

impl RedisWeightsClient {
    /// Deletes every record of the strategy (see `cleared_store`). `with_human`
    /// asks for a confirmation that the caller owning the terminal gives.
    pub fn clear_all(&mut self, with_human: Option<bool>)
        ensures
            final(self).redis_connection@ == cleared_store(
                old(self).redis_connection@,
                old(self).key_prefix@,
                old(self).heartbeat_prefix@,
                old(self).strategy_name@,
            ),
            final(self).strategy_name == old(self).strategy_name,
            final(self).key_prefix == old(self).key_prefix,
            final(self).heartbeat_prefix == old(self).heartbeat_prefix,
            final(self).send_heartbeat == old(self).send_heartbeat,
    {
        let mut p = owned(self.key_prefix.as_str());
        push_str(&mut p, ":");
        push_str(&mut p, self.strategy_name.as_str());
        let ghost m0 = self.redis_connection@;
        let keys = self.redis_connection.keys();
        let mut i: usize = 0;
        while i < keys.len()
            invariant
                i <= keys@.len(),
                forall|k: Seq<char>| texts(keys@).contains(k) <==> m0.contains_key(k),
                forall|k: Seq<char>| #[trigger] self.redis_connection@.contains_key(k) <==> (m0.contains_key(k) && !(
                    texts(keys@.take(i as int)).contains(k) && starts_with(k, p@))),
                forall|k: Seq<char>| self.redis_connection@.contains_key(k) ==> #[trigger] self.redis_connection@[k] == m0[k],
                self.key_prefix == old(self).key_prefix,
                self.strategy_name == old(self).strategy_name,
                self.heartbeat_prefix == old(self).heartbeat_prefix,
                self.send_heartbeat == old(self).send_heartbeat,
                m0 == old(self).redis_connection@,
                p@ == old(self).key_prefix@ + ":"@ + old(self).strategy_name@,
            decreases keys.len() - i,
        {
            let ghost before = self.redis_connection@;
            let ghost ki = keys@[i as int]@;
            assert(texts(keys@.take(i + 1)) =~= texts(keys@.take(i as int)).push(ki));
            if has_prefix(keys[i].as_str(), p.as_str()) {
                self.redis_connection.remove(keys[i].as_str());
            }
            proof {
                assert forall|k: Seq<char>| #[trigger] self.redis_connection@.contains_key(k) <==> (m0.contains_key(k) && !(
                    texts(keys@.take(i + 1)).contains(k) && starts_with(k, p@))) by {
                    let t1 = texts(keys@.take(i + 1));
                    let t0 = texts(keys@.take(i as int));
                    if t1.contains(k) && k != ki {
                        let j = choose|j: int| 0 <= j < t1.len() && t1[j] == k;
                        assert(t0[j] == k);
                    }
                    if k == ki {
                        assert(t1[i as int] == k);
                    }
                    if t0.contains(k) {
                        let j = choose|j: int| 0 <= j < t0.len() && t0[j] == k;
                        assert(t1[j] == k);
                    }
                }
            }
            i = i + 1;
        }
        proof {
            assert(keys@.take(keys@.len() as int) =~= keys@);
            assert(self.redis_connection@ =~= without_prefix(m0, p@));
        }
        let meta = join3_text(self.key_prefix.as_str(), "META", self.strategy_name.as_str());
        self.redis_connection.remove(meta.as_str());
        let last = join3_text(self.key_prefix.as_str(), "LAST", self.strategy_name.as_str());
        self.redis_connection.remove(last.as_str());
        let hb = self.heartbeat_key();
        self.redis_connection.remove(hb.as_str());
        let mut names = owned(self.key_prefix.as_str());
        push_str(&mut names, ":StrategyNames");
        self.redis_connection.remove(names.as_str());
    }

    /// The symbols the strategy has published last weights for, each once.
    pub fn get_symbols(&self) -> (r: Vec<String>)
        ensures
            forall|i: int, j: int| 0 <= i < j < r@.len() ==> r@[i]@ != r@[j]@,
            forall|s: Seq<char>| texts(r@).contains(s) <==> exists|k: Seq<char>| #[trigger] self.redis_connection@.contains_key(k)
                && is_last_key(k, self.key_prefix@, self.strategy_name@) && split_on(k, ':')[2] == s,
    {
        let mut pre = owned(self.key_prefix.as_str());
        push_str(&mut pre, ":");
        push_str(&mut pre, self.strategy_name.as_str());
        push_str(&mut pre, ":");
        let ghost m = self.redis_connection@;
        let ghost px = self.key_prefix@;
        let ghost nm = self.strategy_name@;
        let keys = self.redis_connection.keys();
        let mut out: Vec<String> = Vec::new();
        let mut i: usize = 0;
        while i < keys.len()
            invariant
                i <= keys@.len(),
                m == self.redis_connection@,
                pre@ == px + ":"@ + nm + ":"@,
                px == self.key_prefix@,
                nm == self.strategy_name@,
                forall|k: Seq<char>| texts(keys@).contains(k) <==> m.contains_key(k),
                forall|a: int, b: int| 0 <= a < b < out@.len() ==> out@[a]@ != out@[b]@,
                forall|s: Seq<char>| texts(out@).contains(s) <==> exists|j: int| 0 <= j < i && #[trigger] is_last_key(keys@[j]@, px, nm)
                    && split_on(keys@[j]@, ':')[2] == s,
            decreases keys.len() - i,
        {
            let ghost old_out = texts(out@);
            let ghost ki = keys@[i as int]@;
            let ghost is_lk = is_last_key(ki, px, nm);
            let ghost sym_i = split_on(ki, ':')[2];
            let k = &keys[i];
            if has_prefix(k.as_str(), pre.as_str()) && has_suffix(k.as_str(), ":LAST") {
                let v = chars_of(k.as_str());
                match piece(&v, 2) {
                    Some(sym) => {
                        let mut seen = false;
                        let mut j: usize = 0;
                        while j < out.len()
                            invariant
                                j <= out@.len(),
                                seen == texts(out@.take(j as int)).contains(sym@),
                            decreases out.len() - j,
                        {
                            proof {
                                let t0 = texts(out@.take(j as int));
                                let t1 = texts(out@.take(j + 1));
                                assert(t1 =~= t0.push(out@[j as int]@));
                                lemma_push_contains(t0, out@[j as int]@, sym@);
                            }
                            if str_eq(out[j].as_str(), sym.as_str()) {
                                seen = true;
                            }
                            j = j + 1;
                        }
                        assert(out@.take(out@.len() as int) =~= out@);
                        if !seen {
                            let ghost before = out@;
                            out.push(sym);
                            proof {
                                assert(texts(out@) =~= texts(before).push(out@.last()@));
                                assert forall|s: Seq<char>| texts(out@).contains(s) <==> (old_out.contains(s) || (is_lk && s == sym_i)) by {
                                    lemma_push_contains(texts(before), out@.last()@, s);
                                }
                                assert forall|a: int, b: int| 0 <= a < b < out@.len() implies out@[a]@ != out@[b]@ by {
                                    if b == out@.len() - 1 {
                                        assert(texts(before)[a] == out@[a]@);
                                    }
                                }
                            }
                        }
                    },
                    None => {},
                }
            }
            proof {
                assert forall|s: Seq<char>| texts(out@).contains(s) <==> exists|j: int| 0 <= j < i + 1 && #[trigger] is_last_key(keys@[j]@, px, nm)
                    && split_on(keys@[j]@, ':')[2] == s by {
                    assert(texts(out@).contains(s) <==> (old_out.contains(s) || (is_lk && s == sym_i)));
                    if old_out.contains(s) {
                        let j = choose|j: int| 0 <= j < i && #[trigger] is_last_key(keys@[j]@, px, nm) && split_on(keys@[j]@, ':')[2] == s;
                        assert(0 <= j < i + 1);
                    }
                    if is_lk && s == sym_i {
                        assert(is_last_key(keys@[i as int]@, px, nm));
                    }
                    if exists|j: int| 0 <= j < i + 1 && #[trigger] is_last_key(keys@[j]@, px, nm) && split_on(keys@[j]@, ':')[2] == s {
                        let j = choose|j: int| 0 <= j < i + 1 && #[trigger] is_last_key(keys@[j]@, px, nm) && split_on(keys@[j]@, ':')[2] == s;
                        if j < i {
                            assert(exists|j2: int| 0 <= j2 < i && #[trigger] is_last_key(keys@[j2]@, px, nm) && split_on(keys@[j2]@, ':')[2] == s);
                        }
                    }
                }
            }
            i = i + 1;
        }
        proof {
            assert forall|s: Seq<char>| texts(out@).contains(s) <==> exists|k: Seq<char>| #[trigger] m.contains_key(k)
                && is_last_key(k, px, nm) && split_on(k, ':')[2] == s by {
                if texts(out@).contains(s) {
                    let j = choose|j: int| 0 <= j < keys@.len() && #[trigger] is_last_key(keys@[j]@, px, nm) && split_on(keys@[j]@, ':')[2] == s;
                    assert(texts(keys@)[j] == keys@[j]@);
                    assert(texts(keys@).contains(keys@[j]@));
                    assert(m.contains_key(keys@[j]@));
                }
                if exists|k: Seq<char>| #[trigger] m.contains_key(k) && is_last_key(k, px, nm) && split_on(k, ':')[2] == s {
                    let k = choose|k: Seq<char>| #[trigger] m.contains_key(k) && is_last_key(k, px, nm) && split_on(k, ':')[2] == s;
                    assert(texts(keys@).contains(k));
                    let j = choose|j: int| 0 <= j < texts(keys@).len() && texts(keys@)[j] == k;
                    assert(keys@[j]@ == k);
                    assert(is_last_key(keys@[j]@, px, nm) && split_on(keys@[j]@, ':')[2] == s);
                }
            }
        }
        out
    }
}

impl RedisWeightsClient {
    /// The metadata fields of the strategy: for every stored key of the form
    /// `prefix:META:strategy...:field...`, its fourth `:`-separated field maps to the
    /// key's value; when several keys give one field, the value of one of them.
    pub fn get_metadata(&self) -> (r: StringHashMap<String>)
        ensures
            forall|f: Seq<char>| #[trigger] r@.contains_key(f) <==> exists|k: Seq<char>| #[trigger] self.redis_connection@.contains_key(k)
                && is_meta_key(k, self.key_prefix@, self.strategy_name@) && split_on(k, ':')[3] == f,
            forall|f: Seq<char>| #[trigger] r@.contains_key(f) ==> exists|k: Seq<char>| #[trigger] self.redis_connection@.contains_key(k)
                && is_meta_key(k, self.key_prefix@, self.strategy_name@) && split_on(k, ':')[3] == f
                && r@[f]@ == self.redis_connection@[k],
    {
        let key = join3_text(self.key_prefix.as_str(), "META", self.strategy_name.as_str());
        let ghost m = self.redis_connection@;
        let ghost px = self.key_prefix@;
        let ghost nm = self.strategy_name@;
        let keys = self.redis_connection.keys();
        let mut meta: StringHashMap<String> = StringHashMap::new();
        let mut i: usize = 0;
        while i < keys.len()
            invariant
                i <= keys@.len(),
                m == self.redis_connection@,
                key@ == join3(px, "META"@, nm),
                px == self.key_prefix@,
                nm == self.strategy_name@,
                forall|k: Seq<char>| texts(keys@).contains(k) <==> m.contains_key(k),
                forall|f: Seq<char>| #[trigger] meta@.contains_key(f) <==> exists|j: int| 0 <= j < i && #[trigger] is_meta_key(keys@[j]@, px, nm)
                    && split_on(keys@[j]@, ':')[3] == f,
                forall|f: Seq<char>| #[trigger] meta@.contains_key(f) ==> exists|j: int| 0 <= j < i && #[trigger] is_meta_key(keys@[j]@, px, nm)
                    && split_on(keys@[j]@, ':')[3] == f && m.contains_key(keys@[j]@) && meta@[f]@ == m[keys@[j]@],
            decreases keys.len() - i,
        {
            let ghost ki = keys@[i as int]@;
            let ghost before = meta@;
            let ghost mut done = false;
            assert(texts(keys@)[i as int] == ki);
            assert(texts(keys@).contains(ki));
            let k = &keys[i];
            if has_prefix(k.as_str(), key.as_str()) {
                let v = chars_of(k.as_str());
                match piece(&v, 3) {
                    Some(field) => {
                        match self.redis_connection.get(k.as_str()) {
                            Some(value) => {
                                let ghost fv = field@;
                                meta.insert(field, value);
                                proof {
                                    done = true;
                                    assert(is_meta_key(keys@[i as int]@, px, nm));
                                    assert forall|f: Seq<char>| #[trigger] meta@.contains_key(f) <==> exists|j: int| 0 <= j < i + 1
                                        && #[trigger] is_meta_key(keys@[j]@, px, nm) && split_on(keys@[j]@, ':')[3] == f by {
                                        if f != fv && meta@.contains_key(f) {
                                            let j = choose|j: int| 0 <= j < i && #[trigger] is_meta_key(keys@[j]@, px, nm) && split_on(keys@[j]@, ':')[3] == f;
                                            assert(0 <= j < i + 1);
                                        }
                                        if exists|j: int| 0 <= j < i + 1 && #[trigger] is_meta_key(keys@[j]@, px, nm) && split_on(keys@[j]@, ':')[3] == f {
                                            let j = choose|j: int| 0 <= j < i + 1 && #[trigger] is_meta_key(keys@[j]@, px, nm) && split_on(keys@[j]@, ':')[3] == f;
                                            if j < i {
                                                assert(before.contains_key(f));
                                            }
                                        }
                                    }
                                    assert forall|f: Seq<char>| #[trigger] meta@.contains_key(f) implies exists|j: int| 0 <= j < i + 1
                                        && #[trigger] is_meta_key(keys@[j]@, px, nm) && split_on(keys@[j]@, ':')[3] == f
                                        && m.contains_key(keys@[j]@) && meta@[f]@ == m[keys@[j]@] by {
                                        if f == fv {
                                            assert(is_meta_key(keys@[i as int]@, px, nm) && split_on(keys@[i as int]@, ':')[3] == f
                                                && m.contains_key(keys@[i as int]@) && meta@[f]@ == m[keys@[i as int]@]);
                                        } else {
                                            assert(before.contains_key(f));
                                            let j = choose|j: int| 0 <= j < i && #[trigger] is_meta_key(keys@[j]@, px, nm) && split_on(keys@[j]@, ':')[3] == f
                                                && m.contains_key(keys@[j]@) && before[f]@ == m[keys@[j]@];
                                            assert(0 <= j < i + 1);
                                        }
                                    }
                                }
                            },
                            None => {},
                        }
                    },
                    None => {},
                }
            }
            proof {
                if !done {
                    assert(meta@ == before);
                    assert(!is_meta_key(ki, px, nm) || !m.contains_key(ki));
                    assert forall|f: Seq<char>| #[trigger] meta@.contains_key(f) <==> exists|j: int| 0 <= j < i + 1
                        && #[trigger] is_meta_key(keys@[j]@, px, nm) && split_on(keys@[j]@, ':')[3] == f by {
                        if exists|j: int| 0 <= j < i + 1 && #[trigger] is_meta_key(keys@[j]@, px, nm) && split_on(keys@[j]@, ':')[3] == f {
                            let j = choose|j: int| 0 <= j < i + 1 && #[trigger] is_meta_key(keys@[j]@, px, nm) && split_on(keys@[j]@, ':')[3] == f;
                            if j == i {
                                assert(false);
                            }
                        }
                        if meta@.contains_key(f) {
                            let j = choose|j: int| 0 <= j < i && #[trigger] is_meta_key(keys@[j]@, px, nm) && split_on(keys@[j]@, ':')[3] == f;
                            assert(0 <= j < i + 1);
                        }
                    }
                    assert forall|f: Seq<char>| #[trigger] meta@.contains_key(f) implies exists|j: int| 0 <= j < i + 1
                        && #[trigger] is_meta_key(keys@[j]@, px, nm) && split_on(keys@[j]@, ':')[3] == f
                        && m.contains_key(keys@[j]@) && meta@[f]@ == m[keys@[j]@] by {
                        let j = choose|j: int| 0 <= j < i && #[trigger] is_meta_key(keys@[j]@, px, nm) && split_on(keys@[j]@, ':')[3] == f
                            && m.contains_key(keys@[j]@) && before[f]@ == m[keys@[j]@];
                        assert(0 <= j < i + 1);
                    }
                }
            }
            i = i + 1;
        }
        proof {
            assert forall|f: Seq<char>| #[trigger] meta@.contains_key(f) <==> exists|k: Seq<char>| #[trigger] m.contains_key(k)
                && is_meta_key(k, px, nm) && split_on(k, ':')[3] == f by {
                if meta@.contains_key(f) {
                    let j = choose|j: int| 0 <= j < keys@.len() && #[trigger] is_meta_key(keys@[j]@, px, nm) && split_on(keys@[j]@, ':')[3] == f;
                    assert(texts(keys@)[j] == keys@[j]@);
                    assert(texts(keys@).contains(keys@[j]@));
                    assert(m.contains_key(keys@[j]@));
                }
                if exists|k: Seq<char>| #[trigger] m.contains_key(k) && is_meta_key(k, px, nm) && split_on(k, ':')[3] == f {
                    let k = choose|k: Seq<char>| #[trigger] m.contains_key(k) && is_meta_key(k, px, nm) && split_on(k, ':')[3] == f;
                    assert(texts(keys@).contains(k));
                    let j = choose|j: int| 0 <= j < texts(keys@).len() && texts(keys@)[j] == k;
                    assert(keys@[j]@ == k);
                    assert(is_meta_key(keys@[j]@, px, nm) && split_on(keys@[j]@, ':')[3] == f);
                }
            }
            assert forall|f: Seq<char>| #[trigger] meta@.contains_key(f) implies exists|k: Seq<char>| #[trigger] m.contains_key(k)
                && is_meta_key(k, px, nm) && split_on(k, ':')[3] == f && meta@[f]@ == m[k] by {
                let j = choose|j: int| 0 <= j < keys@.len() && #[trigger] is_meta_key(keys@[j]@, px, nm) && split_on(keys@[j]@, ':')[3] == f
                    && m.contains_key(keys@[j]@) && meta@[f]@ == m[keys@[j]@];
                assert(m.contains_key(keys@[j]@));
            }
        }
        meta
    }
}

/// Deletes every record of a strategy kept under `key_prefix` (default
/// `Weights`), through a fresh client that sends no heartbeat; the setting
/// `with_human` of `kwargs` (`true` unless it says otherwise) asks for a
/// confirmation first, which the caller owning the terminal gives. The client's
/// store starts empty, so nothing outlives the call.
pub fn clear_strategy(
    strategy_name: &str,
    redis_url: Option<String>,
    connection_pool: Option<String>,
    key_prefix: Option<&str>,
    kwargs: StringHashMap<String>,
) {
    let prefix = match key_prefix {
        Some(p) => p,
        None => "Weights",
    };
    let with_human = match kwargs.get("with_human") {
        Some(v) => str_eq(v.as_str(), "true"),
        None => true,
    };
    let mut settings: StringHashMap<String> = StringHashMap::new();
    settings.insert(owned("key_prefix"), owned(prefix));
    let mut rwc = RedisWeightsClient::new(owned(strategy_name), redis_url, connection_pool, Some(false), settings);
    rwc.clear_all(Some(with_human));
}

/// Clearing a strategy twice leaves the store as clearing it once.
pub proof fn law_clear_is_idempotent(m: Map<Seq<char>, Seq<char>>, prefix: Seq<char>, hb: Seq<char>, name: Seq<char>)
    ensures
        cleared_store(cleared_store(m, prefix, hb, name), prefix, hb, name) == cleared_store(m, prefix, hb, name),
{
    assert(cleared_store(cleared_store(m, prefix, hb, name), prefix, hb, name) =~= cleared_store(m, prefix, hb, name));
}

/// After clearing, no key of the strategy's `prefix:strategy` range is left, and
/// every other key keeps its value unless it is one of the strategy's named keys.
pub proof fn law_clear_leaves_no_strategy_keys(m: Map<Seq<char>, Seq<char>>, prefix: Seq<char>, hb: Seq<char>, name: Seq<char>, k: Seq<char>)
    ensures
        cleared_store(m, prefix, hb, name).contains_key(k) ==> !starts_with(k, prefix + ":"@ + name),
        m.contains_key(k) && !starts_with(k, prefix + ":"@ + name) && k != join3(prefix, "META"@, name) && k != join3(
            prefix,
            "LAST"@,
            name,
        ) && k != join3(prefix, hb, name) && k != prefix + ":StrategyNames"@ ==> cleared_store(m, prefix, hb, name).contains_key(k)
            && cleared_store(m, prefix, hb, name)[k] == m[k],
{
}


/// A store of texts written as a JSON object by `serde_json::to_string`, through
/// a `HashMap`, so the order of its fields is the map's. Nothing is claimed of
/// the text.
#[verifier::external_body]
fn settings_json(settings: &TextStore) -> Option<String> {
    let m: std::collections::HashMap<String, String> = settings.entries.iter().cloned().collect();
    serde_json::to_string(&m).ok()
}

/// `base:field`.
pub open spec fn field_key(base: Seq<char>, field: Seq<char>) -> Seq<char> {
    base + ":"@ + field
}

fn field_key_text(base: &str, field: &str) -> (r: String)
    ensures
        r@ == field_key(base@, field@),
{
    let mut s = owned(base);
    push_str(&mut s, ":");
    push_str(&mut s, field);
    s
}

/// Whether the setting `name` is the text `true`.
pub open spec fn setting_is_true(settings: Map<Seq<char>, Seq<char>>, name: Seq<char>) -> bool {
    settings.contains_key(name) && settings[name] == "true"@
}

/// The sample-out start date as stored: read as `%Y%m%d` and written back so, or
/// kept as given when it does not read.
pub open spec fn outsample_text(s: Seq<char>) -> Seq<char> {
    match naive_date_instant(s, "%Y%m%d"@) {
        Some(t) => match utc_text(t.0, t.1, "%Y%m%d"@) {
            Some(w) => w,
            None => s,
        },
        None => s,
    }
}

/// The store after the strategy's metadata is written under
/// `prefix:META:strategy:<field>`, and the strategy named in
/// `prefix:StrategyNames`.
pub open spec fn meta_written(
    m: Map<Seq<char>, Seq<char>>,
    prefix: Seq<char>,
    name: Seq<char>,
    base_freq: Seq<char>,
    description: Seq<char>,
    author: Seq<char>,
    outsample: Seq<char>,
    update_time: Seq<char>,
    settings: Seq<char>,
) -> Map<Seq<char>, Seq<char>> {
    let k = join3(prefix, "META"@, name);
    m.insert(field_key(k, "name"@), name).insert(field_key(k, "base_freq"@), base_freq).insert(field_key(k, "key_prefix"@), prefix).insert(
        field_key(k, "description"@),
        description,
    ).insert(field_key(k, "author"@), author).insert(field_key(k, "outsample_sdt"@), outsample).insert(
        field_key(k, "update_time"@),
        update_time,
    ).insert(field_key(k, "kwargs"@), settings).insert(prefix + ":StrategyNames"@, name)
}

/// The store after the strategy's last update is recorded under
/// `prefix:LAST:strategy:<field>`.
pub open spec fn last_written(m: Map<Seq<char>, Seq<char>>, prefix: Seq<char>, name: Seq<char>, time: Seq<char>, settings: Seq<char>) -> Map<
    Seq<char>,
    Seq<char>,
> {
    let k = join3(prefix, "LAST"@, name);
    m.insert(field_key(k, "name"@), name).insert(field_key(k, "time"@), time).insert(field_key(k, "kwargs"@), settings)
}

/// The instant a stored time text stands for: read as UTC without an offset
/// (`%Y-%m-%d %H:%M:%S`, as the library writes times, by
/// `NaiveDateTime::parse_from_str`), else with an offset
/// (`%Y-%m-%d %H:%M:%S%.f%z`), else as `%Y-%m-%d %H:%M:%S` by
/// `DateTime::parse_from_str`.
pub open spec fn stored_instant(t: Seq<char>) -> Option<(i64, u32)> {
    if naive_datetime_instant(t, "%Y-%m-%d %H:%M:%S"@) is Some {
        naive_datetime_instant(t, "%Y-%m-%d %H:%M:%S"@)
    } else if offset_datetime_instant(t, "%Y-%m-%d %H:%M:%S%.f%z"@) is Some {
        offset_datetime_instant(t, "%Y-%m-%d %H:%M:%S%.f%z"@)
    } else {
        offset_datetime_instant(t, "%Y-%m-%d %H:%M:%S"@)
    }
}

fn read_instant(t: &str) -> (r: Option<(i64, u32)>)
    ensures
        r == stored_instant(t@),
{
    match parse_naive_datetime(t, "%Y-%m-%d %H:%M:%S") {
        Some(x) => Some(x),
        None => match parse_offset_datetime(t, "%Y-%m-%d %H:%M:%S%.f%z") {
            Some(x) => Some(x),
            None => parse_offset_datetime(t, "%Y-%m-%d %H:%M:%S"),
        },
    }
}

/// The key of a symbol's last weight: `prefix:strategy:symbol:LAST`.
pub open spec fn last_key(prefix: Seq<char>, name: Seq<char>, symbol: Seq<char>) -> Seq<char> {
    join3(prefix, name, symbol) + ":LAST"@
}

fn last_key_text(prefix: &str, name: &str, symbol: &str) -> (r: String)
    ensures
        r@ == last_key(prefix@, name@, symbol@),
{
    let mut s = join3_text(prefix, name, symbol);
    push_str(&mut s, ":LAST");
    s
}

/// The time of a symbol's last weight, if it is stored and reads.
pub open spec fn last_time(m: Map<Seq<char>, Seq<char>>, prefix: Seq<char>, name: Seq<char>, symbol: Seq<char>) -> Option<(i64, u32)> {
    let k = field_key(last_key(prefix, name, symbol), "dt"@);
    if m.contains_key(k) {
        stored_instant(m[k])
    } else {
        None
    }
}

/// Whether the strategy has a last weight for `s` (see `get_symbols`).
pub open spec fn has_last_symbol(m: Map<Seq<char>, Seq<char>>, prefix: Seq<char>, name: Seq<char>, s: Seq<char>) -> bool {
    exists|k: Seq<char>| #[trigger] m.contains_key(k) && is_last_key(k, prefix, name) && split_on(k, ':')[2] == s
}

/// Whether `s` is one of the symbols asked for: those given, or else those the
/// strategy has last weights for.
pub open spec fn asked_symbol(symbols: Option<Seq<Seq<char>>>, m: Map<Seq<char>, Seq<char>>, prefix: Seq<char>, name: Seq<char>, s: Seq<char>) -> bool {
    match symbols {
        Some(v) => v.contains(s),
        None => has_last_symbol(m, prefix, name, s),
    }
}

/// The texts of an optional list of strings.
pub open spec fn opt_texts(v: Option<Vec<String>>) -> Option<Seq<Seq<char>>> {
    match v {
        Some(x) => Some(texts(x@)),
        None => None,
    }
}

/// Whether metadata of the strategy is stored: some key
/// `prefix:META:strategy...:field...` (what `get_metadata` reads).
pub open spec fn has_meta(m: Map<Seq<char>, Seq<char>>, prefix: Seq<char>, name: Seq<char>) -> bool {
    exists|k: Seq<char>| #[trigger] m.contains_key(k) && is_meta_key(k, prefix, name)
}

/// The store without the strategy's metadata keys.
pub open spec fn without_meta(m: Map<Seq<char>, Seq<char>>, prefix: Seq<char>, name: Seq<char>) -> Map<Seq<char>, Seq<char>> {
    m.remove_keys(Set::new(|k: Seq<char>| is_meta_key(k, prefix, name)))
}

/// Whether `k` is a metadata key of the strategy whose base key is `base`.
fn meta_key_test(k: &str, base: &str) -> (r: bool)
    ensures
        r == (starts_with(k@, base@) && split_on(k@, ':').len() > 3),
{
    if has_prefix(k, base) {
        let v = chars_of(k);
        piece(&v, 3).is_some()
    } else {
        false
    }
}

impl RedisWeightsClient {
    /// Whether metadata of the strategy is stored (`has_meta`).
    fn stored_meta(&self) -> (r: bool)
        ensures
            r == has_meta(self.redis_connection@, self.key_prefix@, self.strategy_name@),
    {
        let key = join3_text(self.key_prefix.as_str(), "META", self.strategy_name.as_str());
        let ghost m = self.redis_connection@;
        let keys = self.redis_connection.keys();
        let mut i: usize = 0;
        while i < keys.len()
            invariant
                i <= keys@.len(),
                m == self.redis_connection@,
                key@ == join3(self.key_prefix@, "META"@, self.strategy_name@),
                forall|k: Seq<char>| texts(keys@).contains(k) <==> m.contains_key(k),
                forall|j: int| 0 <= j < i ==> !is_meta_key(#[trigger] keys@[j]@, self.key_prefix@, self.strategy_name@),
            decreases keys.len() - i,
        {
            assert(texts(keys@)[i as int] == keys@[i as int]@);
            assert(texts(keys@).contains(keys@[i as int]@));
            if meta_key_test(keys[i].as_str(), key.as_str()) {
                assert(m.contains_key(keys@[i as int]@));
                return true;
            }
            i = i + 1;
        }
        proof {
            assert forall|k: Seq<char>| #[trigger] m.contains_key(k) implies !is_meta_key(k, self.key_prefix@, self.strategy_name@) by {
                assert(texts(keys@).contains(k));
                let j = choose|j: int| 0 <= j < texts(keys@).len() && texts(keys@)[j] == k;
                assert(keys@[j]@ == k);
            }
        }
        false
    }

    /// Removes the strategy's metadata keys (`without_meta`).
    fn drop_meta(&mut self)
        ensures
            final(self).strategy_name == old(self).strategy_name,
            final(self).key_prefix == old(self).key_prefix,
            final(self).heartbeat_prefix == old(self).heartbeat_prefix,
            final(self).send_heartbeat == old(self).send_heartbeat,
            final(self).redis_connection@ == without_meta(old(self).redis_connection@, old(self).key_prefix@, old(self).strategy_name@),
    {
        let key = join3_text(self.key_prefix.as_str(), "META", self.strategy_name.as_str());
        let ghost m = self.redis_connection@;
        let ghost px = self.key_prefix@;
        let ghost nm = self.strategy_name@;
        let keys = self.redis_connection.keys();
        let mut i: usize = 0;
        while i < keys.len()
            invariant
                i <= keys@.len(),
                self.strategy_name == old(self).strategy_name,
                self.key_prefix == old(self).key_prefix,
                self.heartbeat_prefix == old(self).heartbeat_prefix,
                self.send_heartbeat == old(self).send_heartbeat,
                px == self.key_prefix@,
                nm == self.strategy_name@,
                key@ == join3(px, "META"@, nm),
                forall|k: Seq<char>| texts(keys@).contains(k) <==> m.contains_key(k),
                forall|k: Seq<char>| #[trigger] self.redis_connection@.contains_key(k) <==> m.contains_key(k) && !(is_meta_key(k, px, nm)
                    && exists|j: int| 0 <= j < i && keys@[j]@ == k),
                forall|k: Seq<char>| #[trigger] self.redis_connection@.contains_key(k) ==> self.redis_connection@[k] == m[k],
            decreases keys.len() - i,
        {
            let ghost ki = keys@[i as int]@;
            let ghost before = self.redis_connection@;
            if meta_key_test(keys[i].as_str(), key.as_str()) {
                self.redis_connection.remove(keys[i].as_str());
            }
            proof {
                assert forall|k: Seq<char>| #[trigger] self.redis_connection@.contains_key(k) <==> m.contains_key(k) && !(is_meta_key(k, px, nm)
                    && exists|j: int| 0 <= j < i + 1 && keys@[j]@ == k) by {
                    if exists|j: int| 0 <= j < i + 1 && keys@[j]@ == k {
                        let j = choose|j: int| 0 <= j < i + 1 && keys@[j]@ == k;
                        if j < i {
                            assert(exists|j: int| 0 <= j < i && keys@[j]@ == k);
                        }
                    }
                    if k == ki {
                        assert(exists|j: int| 0 <= j < i + 1 && keys@[j]@ == k);
                    }
                    if exists|j: int| 0 <= j < i && keys@[j]@ == k {
                        let j = choose|j: int| 0 <= j < i && keys@[j]@ == k;
                        assert(0 <= j < i + 1 && keys@[j]@ == k);
                    }
                }
            }
            i = i + 1;
        }
        proof {
            assert forall|k: Seq<char>| m.contains_key(k) && is_meta_key(k, px, nm) implies exists|j: int| 0 <= j < i && keys@[j]@ == k by {
                assert(texts(keys@).contains(k));
                let j = choose|j: int| 0 <= j < texts(keys@).len() && texts(keys@)[j] == k;
                assert(keys@[j]@ == k);
            }
            assert(self.redis_connection@ =~= without_meta(m, px, nm));
        }
    }

    /// Writes the strategy's metadata (`meta_written`): its name, base period,
    /// key prefix, description, author, sample-out start (`outsample_text`), the
    /// current time and the settings as JSON. When metadata of the strategy is
    /// stored (`has_meta`), the store is left unchanged unless the setting
    /// `overwrite` is `true`; then the stored metadata (and the key
    /// `prefix:META:strategy`) is removed first.
    pub fn set_metadata(&mut self, base_freq: &str, description: &str, author: &str, outsample_sdt: &str, kwargs: TextStore)
        ensures
            final(self).strategy_name == old(self).strategy_name,
            final(self).key_prefix == old(self).key_prefix,
            final(self).heartbeat_prefix == old(self).heartbeat_prefix,
            final(self).send_heartbeat == old(self).send_heartbeat,
            ({
                let m = old(self).redis_connection@;
                let px = old(self).key_prefix@;
                let nm = old(self).strategy_name@;
                let k = join3(px, "META"@, nm);
                if has_meta(m, px, nm) && !setting_is_true(kwargs@, "overwrite"@) {
                    final(self).redis_connection@ == m
                } else {
                    exists|u: Seq<char>, j: Seq<char>| #[trigger] meta_written(
                        without_meta(m, px, nm).remove(k),
                        px,
                        nm,
                        base_freq@,
                        description@,
                        author@,
                        outsample_text(outsample_sdt@),
                        u,
                        j,
                    ) == final(self).redis_connection@
                }
            }),
    {
        let key = join3_text(self.key_prefix.as_str(), "META", self.strategy_name.as_str());
        let overwrite = match kwargs.get("overwrite") {
            Some(v) => str_eq(v.as_str(), "true"),
            None => false,
        };
        let stored = self.stored_meta();
        if stored && !overwrite {
            return;
        }
        let ghost m = self.redis_connection@;
        self.drop_meta();
        self.redis_connection.remove(key.as_str());
        let outsample = match parse_naive_date(outsample_sdt, "%Y%m%d") {
            Some((secs, nanos)) => match format_utc(secs, nanos, "%Y%m%d") {
                Some(t) => t,
                None => owned(outsample_sdt),
            },
            None => owned(outsample_sdt),
        };
        let update_time = now_text();
        let settings = match settings_json(&kwargs) {
            Some(t) => t,
            None => owned("{}"),
        };
        let ghost u = update_time@;
        let ghost j = settings@;
        let name = self.strategy_name.clone();
        let prefix = self.key_prefix.clone();
        self.redis_connection.insert(field_key_text(key.as_str(), "name"), name.clone());
        self.redis_connection.insert(field_key_text(key.as_str(), "base_freq"), owned(base_freq));
        self.redis_connection.insert(field_key_text(key.as_str(), "key_prefix"), prefix.clone());
        self.redis_connection.insert(field_key_text(key.as_str(), "description"), owned(description));
        self.redis_connection.insert(field_key_text(key.as_str(), "author"), owned(author));
        self.redis_connection.insert(field_key_text(key.as_str(), "outsample_sdt"), outsample);
        self.redis_connection.insert(field_key_text(key.as_str(), "update_time"), update_time);
        self.redis_connection.insert(field_key_text(key.as_str(), "kwargs"), settings);
        let mut names = prefix;
        push_str(&mut names, ":StrategyNames");
        self.redis_connection.insert(names, name);
        proof {
            let px = old(self).key_prefix@;
            let nm = old(self).strategy_name@;
            let k = join3(px, "META"@, nm);
            assert(meta_written(
                without_meta(m, px, nm).remove(k),
                px,
                nm,
                base_freq@,
                description@,
                author@,
                outsample_text(outsample_sdt@),
                u,
                j,
            ) == self.redis_connection@);
        }
    }

    /// Records the strategy's last update (`last_written`): its name, the current
    /// time and the settings as JSON.
    pub fn update_last(&mut self, kwargs: TextStore)
        ensures
            final(self).strategy_name == old(self).strategy_name,
            final(self).key_prefix == old(self).key_prefix,
            final(self).heartbeat_prefix == old(self).heartbeat_prefix,
            final(self).send_heartbeat == old(self).send_heartbeat,
            exists|t: Seq<char>, j: Seq<char>| #[trigger] last_written(
                old(self).redis_connection@,
                old(self).key_prefix@,
                old(self).strategy_name@,
                t,
                j,
            ) == final(self).redis_connection@,
    {
        let key = join3_text(self.key_prefix.as_str(), "LAST", self.strategy_name.as_str());
        let time = now_text();
        let settings = match settings_json(&kwargs) {
            Some(t) => t,
            None => owned("{}"),
        };
        let ghost t = time@;
        let ghost j = settings@;
        let name = self.strategy_name.clone();
        self.redis_connection.insert(field_key_text(key.as_str(), "name"), name);
        self.redis_connection.insert(field_key_text(key.as_str(), "time"), time);
        self.redis_connection.insert(field_key_text(key.as_str(), "kwargs"), settings);
        assert(last_written(old(self).redis_connection@, old(self).key_prefix@, old(self).strategy_name@, t, j)
            == self.redis_connection@);
    }

    /// The time of the strategy's last heartbeat, if it is stored and reads (see
    /// `stored_instant`).
    pub fn get_heartbeat_time(&self) -> (r: Option<(i64, u32)>)
        ensures
            r == ({
                let k = join3(self.key_prefix@, self.heartbeat_prefix@, self.strategy_name@);
                if self.redis_connection@.contains_key(k) {
                    stored_instant(self.redis_connection@[k])
                } else {
                    None
                }
            }),
    {
        let key = self.heartbeat_key();
        match self.redis_connection.get(key.as_str()) {
            Some(t) => read_instant(t.as_str()),
            None => None,
        }
    }

    /// The time of the last weight of every symbol asked for (those given, else
    /// those the strategy has last weights for) whose time is stored and reads.
    pub fn get_last_times(&self, symbols: Option<Vec<String>>) -> (r: StringHashMap<(i64, u32)>)
        ensures
            forall|s: Seq<char>| #[trigger] r@.contains_key(s) <==> asked_symbol(
                opt_texts(symbols),
                self.redis_connection@,
                self.key_prefix@,
                self.strategy_name@,
                s,
            ) && last_time(self.redis_connection@, self.key_prefix@, self.strategy_name@, s) is Some,
            forall|s: Seq<char>| #[trigger] r@.contains_key(s) ==> Some(r@[s]) == last_time(
                self.redis_connection@,
                self.key_prefix@,
                self.strategy_name@,
                s,
            ),
    {
        let ghost m = self.redis_connection@;
        let ghost px = self.key_prefix@;
        let ghost nm = self.strategy_name@;
        let ghost asked = opt_texts(symbols);
        let list = match symbols {
            Some(v) => v,
            None => self.get_symbols(),
        };
        let mut out: StringHashMap<(i64, u32)> = StringHashMap::new();
        let mut i: usize = 0;
        while i < list.len()
            invariant
                i <= list@.len(),
                m == self.redis_connection@,
                px == self.key_prefix@,
                nm == self.strategy_name@,
                forall|s: Seq<char>| #[trigger] texts(list@).contains(s) <==> asked_symbol(asked, m, px, nm, s),
                forall|s: Seq<char>| #[trigger] out@.contains_key(s) <==> texts(list@).take(i as int).contains(s) && last_time(m, px, nm, s) is Some,
                forall|s: Seq<char>| #[trigger] out@.contains_key(s) ==> Some(out@[s]) == last_time(m, px, nm, s),
            decreases list.len() - i,
        {
            let sym = &list[i];
            let ghost sv = sym@;
            assert(texts(list@).take(i + 1) =~= texts(list@).take(i as int).push(sv));
            let key = field_key_text(last_key_text(self.key_prefix.as_str(), self.strategy_name.as_str(), sym.as_str()).as_str(), "dt");
            match self.redis_connection.get(key.as_str()) {
                Some(t) => match read_instant(t.as_str()) {
                    Some(x) => {
                        out.insert(sym.clone(), x);
                    },
                    None => {},
                },
                None => {},
            }
            proof {
                assert forall|s: Seq<char>| #[trigger] out@.contains_key(s) <==> texts(list@).take(i + 1).contains(s) && last_time(m, px, nm, s) is Some by {
                    if texts(list@).take(i + 1).contains(s) && s != sv {
                        let q = choose|q: int| 0 <= q < i + 1 && #[trigger] texts(list@).take(i + 1)[q] == s;
                        assert(texts(list@).take(i as int)[q] == s);
                    }
                    if s == sv {
                        assert(texts(list@).take(i + 1)[i as int] == sv);
                    }
                }
            }
            i = i + 1;
        }
        proof {
            assert(texts(list@).take(list@.len() as int) =~= texts(list@));
        }
        out
    }
}

/// Whether instant `a` is not after instant `b`.
pub open spec fn instant_le(a: (i64, u32), b: (i64, u32)) -> bool {
    a.0 < b.0 || (a.0 == b.0 && a.1 <= b.1)
}

fn instant_not_after(a: (i64, u32), b: (i64, u32)) -> (r: bool)
    ensures
        r == instant_le(a, b),
{
    a.0 < b.0 || (a.0 == b.0 && a.1 <= b.1)
}

/// Whether publishing a weight of `symbol` at `dt` is refused: without
/// `overwrite`, when the symbol's last stored time reads and `dt` is not in a
/// later second.
pub open spec fn publish_refused(
    m: Map<Seq<char>, Seq<char>>,
    prefix: Seq<char>,
    name: Seq<char>,
    symbol: Seq<char>,
    dt: (i64, u32),
    overwrite: Option<bool>,
) -> bool {
    overwrite != Some(true) && (last_time(m, prefix, name, symbol) matches Some(t) && dt.0 <= t.0)
}

/// Once a weight at `dt` (from 1970 to 9999) is published, its time reads back
/// as the symbol's last time (`publish`), so a later publication without
/// `overwrite` at `dt` again, or at any earlier second, is refused and leaves the
/// store as it is.
pub proof fn law_repeated_or_older_signal_is_refused(
    m: Map<Seq<char>, Seq<char>>,
    prefix: Seq<char>,
    name: Seq<char>,
    symbol: Seq<char>,
    dt: (i64, u32),
    dt2: (i64, u32),
    overwrite: Option<bool>,
)
    requires
        last_time(m, prefix, name, symbol) == Some((dt.0, 0u32)),
        dt2.0 <= dt.0,
        overwrite != Some(true),
    ensures
        publish_refused(m, prefix, name, symbol, dt2, overwrite),
{
}

/// The store after a weight is published: under `prefix:strategy:symbol:<time>`
/// and under the symbol's last key, its symbol, weight, date, update time, price
/// and reference data; and the time key in the symbol's ordered set.
pub open spec fn published(
    m: Map<Seq<char>, Seq<char>>,
    prefix: Seq<char>,
    name: Seq<char>,
    symbol: Seq<char>,
    time_key: Seq<char>,
    dt_text: Seq<char>,
    weight: Seq<char>,
    price: Seq<char>,
    update_time: Seq<char>,
    reference: Seq<char>,
) -> Map<Seq<char>, Seq<char>> {
    let z = join3(prefix, name, symbol);
    let k = field_key(z, time_key);
    let l = last_key(prefix, name, symbol);
    m.insert(field_key(k, "symbol"@), symbol).insert(field_key(k, "weight"@), weight).insert(field_key(k, "dt"@), dt_text).insert(
        field_key(k, "update_time"@),
        update_time,
    ).insert(field_key(k, "price"@), price).insert(field_key(k, "ref"@), reference).insert(field_key(l, "symbol"@), symbol).insert(
        field_key(l, "weight"@),
        weight,
    ).insert(field_key(l, "dt"@), dt_text).insert(field_key(l, "update_time"@), update_time).insert(field_key(l, "price"@), price).insert(
        field_key(l, "ref"@),
        reference,
    ).insert(z + ":score:"@ + time_key, time_key)
}

/// A text, or `default` when it is not given.
pub open spec fn given_or(value: Option<&str>, default: Seq<char>) -> Seq<char> {
    match value {
        Some(v) => v@,
        None => default,
    }
}

/// A field of a symbol's last weight, or `default` when it is not stored.
pub open spec fn last_field(m: Map<Seq<char>, Seq<char>>, prefix: Seq<char>, name: Seq<char>, symbol: Seq<char>, field: Seq<char>, default: Seq<char>) -> Seq<char> {
    let k = field_key(last_key(prefix, name, symbol), field);
    if m.contains_key(k) {
        m[k]
    } else {
        default
    }
}

/// The row of a symbol's last weight, with the defaults of missing fields.
pub open spec fn last_row(m: Map<Seq<char>, Seq<char>>, prefix: Seq<char>, name: Seq<char>, symbol: Seq<char>) -> Map<Seq<char>, Seq<char>> {
    Map::empty().insert("symbol"@, last_field(m, prefix, name, symbol, "symbol"@, ""@)).insert(
        "weight"@,
        last_field(m, prefix, name, symbol, "weight"@, "0"@),
    ).insert("dt"@, last_field(m, prefix, name, symbol, "dt"@, ""@)).insert(
        "update_time"@,
        last_field(m, prefix, name, symbol, "update_time"@, ""@),
    ).insert("price"@, last_field(m, prefix, name, symbol, "price"@, "0"@)).insert(
        "ref"@,
        last_field(m, prefix, name, symbol, "ref"@, "{}"@),
    )
}

/// The row of a symbol without a stored last weight.
pub open spec fn blank_row() -> Map<Seq<char>, Seq<char>> {
    Map::empty().insert("symbol"@, ""@).insert("weight"@, "0"@).insert("dt"@, ""@).insert("update_time"@, ""@).insert("price"@, "0"@).insert(
        "ref"@,
        "{}"@,
    )
}

/// Whether `syms` lists the symbols asked for: those given, in their order; or
/// else every symbol with a last weight, once each.
pub open spec fn lists_asked(syms: Seq<Seq<char>>, symbols: Option<Seq<Seq<char>>>, m: Map<Seq<char>, Seq<char>>, prefix: Seq<char>, name: Seq<char>) -> bool {
    match symbols {
        Some(v) => syms == v,
        None => {
            &&& forall|i: int, j: int| 0 <= i < j < syms.len() ==> syms[i] != syms[j]
            &&& forall|s: Seq<char>| syms.contains(s) <==> has_last_symbol(m, prefix, name, s)
        },
    }
}

/// Whether `u` are the last-weight rows of the symbols `syms`, in order.
pub open spec fn rows_of(u: Seq<Map<Seq<char>, String>>, m: Map<Seq<char>, Seq<char>>, prefix: Seq<char>, name: Seq<char>, syms: Seq<Seq<char>>) -> bool {
    u.len() == syms.len() && forall|i: int| 0 <= i < u.len() ==> text_values(#[trigger] u[i]) == last_row(m, prefix, name, syms[i])
}

/// Whether rows `r` are the rows `u` ordered by date, then symbol, rows with
/// equal keys in their order in `u`.
pub open spec fn sorted_from(r: Seq<Map<Seq<char>, String>>, u: Seq<Map<Seq<char>, String>>) -> bool {
    &&& r.len() == u.len()
    &&& sorted_by(r, "dt"@, Some("symbol"@))
    &&& forall|k: (Seq<char>, Seq<char>)| #[trigger] r.filter(key_is("dt"@, Some("symbol"@), k)) == u.filter(key_is("dt"@, Some("symbol"@), k))
}

impl RedisWeightsClient {
    fn last_field_text(&self, symbol: &str, field: &str, default: &str) -> (r: String)
        ensures
            r@ == last_field(self.redis_connection@, self.key_prefix@, self.strategy_name@, symbol@, field@, default@),
    {
        let key = field_key_text(last_key_text(self.key_prefix.as_str(), self.strategy_name.as_str(), symbol).as_str(), field);
        match self.redis_connection.get(key.as_str()) {
            Some(v) => v,
            None => owned(default),
        }
    }

    /// Publishes the weight of `symbol` at instant `dt` (seconds and nanoseconds
    /// since the epoch): `weight` and `price` (`0` by default) are the decimal
    /// texts of the values, and the reference data is written as JSON. Unless
    /// `overwrite`, a weight whose second is not after that of the symbol's last
    /// stored time is refused (`publish_refused`): times are stored to the
    /// second, so a repeated signal is refused too. Gives 1 when the weight is
    /// written (`published`, with the current time as update time), else 0 and
    /// the store is unchanged; 0 also when chrono cannot write the instant. A
    /// written time from 1970 to 9999 reads back as the symbol's last time, to the
    /// second.
    pub fn publish(
        &mut self,
        symbol: &str,
        dt: (i64, u32),
        weight: &str,
        price: Option<&str>,
        ref_data: Option<TextStore>,
        overwrite: Option<bool>,
    ) -> (r: i32)
        ensures
            final(self).strategy_name == old(self).strategy_name,
            final(self).key_prefix == old(self).key_prefix,
            final(self).heartbeat_prefix == old(self).heartbeat_prefix,
            final(self).send_heartbeat == old(self).send_heartbeat,
            r == 0 || r == 1,
            ({
                let m = old(self).redis_connection@;
                let skip = publish_refused(m, old(self).key_prefix@, old(self).strategy_name@, symbol@, dt, overwrite);
                let tk = utc_text(dt.0, dt.1, "%Y%m%d%H%M%S"@);
                let dtt = utc_text(dt.0, dt.1, "%Y-%m-%d %H:%M:%S"@);
                &&& r == 0 <==> (skip || tk is None || dtt is None)
                &&& r == 0 ==> final(self).redis_connection@ == m
                &&& r == 1 ==> exists|u: Seq<char>, j: Seq<char>| #[trigger] published(
                    m,
                    old(self).key_prefix@,
                    old(self).strategy_name@,
                    symbol@,
                    tk->0,
                    dtt->0,
                    weight@,
                    given_or(price, "0"@),
                    u,
                    j,
                ) == final(self).redis_connection@
                &&& r == 1 && 0 <= dt.0 <= 253402300799 && dt.1 < 1000000000 ==> last_time(
                    final(self).redis_connection@,
                    old(self).key_prefix@,
                    old(self).strategy_name@,
                    symbol@,
                ) == Some((dt.0, 0u32))
            }),
    {
        let ow = match overwrite {
            Some(b) => b,
            None => false,
        };
        if !ow {
            let mut one: Vec<String> = Vec::new();
            one.push(owned(symbol));
            assert(texts(one@)[0] == symbol@);
            let times = self.get_last_times(Some(one));
            assert(texts(one@).contains(symbol@));
            match times.get(symbol) {
                Some(t) => {
                    if dt.0 <= t.0 {
                        return 0;
                    }
                },
                None => {},
            }
        }
        let tk = match format_utc(dt.0, dt.1, "%Y%m%d%H%M%S") {
            Some(t) => t,
            None => {
                return 0;
            },
        };
        let dtt = match format_utc(dt.0, dt.1, "%Y-%m-%d %H:%M:%S") {
            Some(t) => t,
            None => {
                return 0;
            },
        };
        let update_time = now_text();
        let reference = match ref_data {
            Some(d) => settings_json(&d),
            None => settings_json(&TextStore::new()),
        };
        let reference = match reference {
            Some(t) => t,
            None => owned("{}"),
        };
        let price_text = match price {
            Some(p) => owned(p),
            None => owned("0"),
        };
        let ghost u = update_time@;
        let ghost j = reference@;
        let z = join3_text(self.key_prefix.as_str(), self.strategy_name.as_str(), symbol);
        let k = field_key_text(z.as_str(), tk.as_str());
        let l = last_key_text(self.key_prefix.as_str(), self.strategy_name.as_str(), symbol);
        self.redis_connection.insert(field_key_text(k.as_str(), "symbol"), owned(symbol));
        self.redis_connection.insert(field_key_text(k.as_str(), "weight"), owned(weight));
        self.redis_connection.insert(field_key_text(k.as_str(), "dt"), dtt.clone());
        self.redis_connection.insert(field_key_text(k.as_str(), "update_time"), update_time.clone());
        self.redis_connection.insert(field_key_text(k.as_str(), "price"), price_text.clone());
        self.redis_connection.insert(field_key_text(k.as_str(), "ref"), reference.clone());
        self.redis_connection.insert(field_key_text(l.as_str(), "symbol"), owned(symbol));
        self.redis_connection.insert(field_key_text(l.as_str(), "weight"), owned(weight));
        self.redis_connection.insert(field_key_text(l.as_str(), "dt"), dtt);
        self.redis_connection.insert(field_key_text(l.as_str(), "update_time"), update_time);
        self.redis_connection.insert(field_key_text(l.as_str(), "price"), price_text);
        self.redis_connection.insert(field_key_text(l.as_str(), "ref"), reference);
        let mut zk = z;
        push_str(&mut zk, ":score:");
        push_str(&mut zk, tk.as_str());
        self.redis_connection.insert(zk, tk.clone());
        proof {
            assert(published(
                old(self).redis_connection@,
                old(self).key_prefix@,
                old(self).strategy_name@,
                symbol@,
                utc_text(dt.0, dt.1, "%Y%m%d%H%M%S"@)->0,
                utc_text(dt.0, dt.1, "%Y-%m-%d %H:%M:%S"@)->0,
                weight@,
                given_or(price, "0"@),
                u,
                j,
            ) =~= self.redis_connection@);
            let z0 = join3(old(self).key_prefix@, old(self).strategy_name@, symbol@);
            let l0 = last_key(old(self).key_prefix@, old(self).strategy_name@, symbol@);
            let lk = field_key(l0, "dt"@);
            reveal_strlit("dt");
            reveal_strlit("update_time");
            reveal_strlit("price");
            reveal_strlit("ref");
            reveal_strlit(":score:");
            reveal_strlit(":LAST");
            reveal_strlit(":");
            assert("dt"@.len() == 2);
            assert("update_time"@.len() == 11);
            assert("price"@.len() == 5);
            assert(lk.len() != field_key(l0, "update_time"@).len());
            assert(lk.len() != field_key(l0, "price"@).len());
            assert(lk != field_key(l0, "ref"@));
            let zk0 = z0 + ":score:"@ + utc_text(dt.0, dt.1, "%Y%m%d%H%M%S"@)->0;
            assert(zk0[z0.len() as int + 1] == 's');
            assert(lk[z0.len() as int + 1] == 'L');
            assert(lk != zk0);
            assert(self.redis_connection@.contains_key(lk));
            assert(self.redis_connection@[lk] == utc_text(dt.0, dt.1, "%Y-%m-%d %H:%M:%S"@)->0);
        }
        1
    }

    /// The rows of the last weights of the symbols asked for (those given, else
    /// every symbol with a last weight), with defaults for missing fields
    /// (`last_row`), ordered by date, then symbol, equal keys kept in order.
    pub fn last_weight_rows(&self, symbols: Option<Vec<String>>) -> (r: Vec<StringHashMap<String>>)
        ensures
            exists|syms: Seq<Seq<char>>, u: Seq<Map<Seq<char>, String>>|
                #![trigger lists_asked(syms, opt_texts(symbols), self.redis_connection@, self.key_prefix@, self.strategy_name@), rows_of(u, self.redis_connection@, self.key_prefix@, self.strategy_name@, syms)]
                lists_asked(syms, opt_texts(symbols), self.redis_connection@, self.key_prefix@, self.strategy_name@)
                && rows_of(u, self.redis_connection@, self.key_prefix@, self.strategy_name@, syms) && sorted_from(row_views(r@), u),
    {
        let ghost m = self.redis_connection@;
        let ghost px = self.key_prefix@;
        let ghost nm = self.strategy_name@;
        let ghost asked = opt_texts(symbols);
        let list = match symbols {
            Some(v) => v,
            None => self.get_symbols(),
        };
        proof {
            assert(lists_asked(texts(list@), asked, m, px, nm)) by {
                if asked is None {
                    assert forall|i: int, j: int| 0 <= i < j < texts(list@).len() implies texts(list@)[i] != texts(list@)[j] by {
                        assert(list@[i]@ != list@[j]@);
                    }
                }
            }
        }
        let mut rows: Vec<StringHashMap<String>> = Vec::new();
        let mut i: usize = 0;
        while i < list.len()
            invariant
                i <= list@.len(),
                m == self.redis_connection@,
                px == self.key_prefix@,
                nm == self.strategy_name@,
                rows@.len() == i,
                forall|q: int| 0 <= q < i ==> text_values(#[trigger] rows@[q]@) == last_row(m, px, nm, texts(list@)[q]),
            decreases list.len() - i,
        {
            let sym = list[i].as_str();
            let mut row: StringHashMap<String> = StringHashMap::new();
            crate::text::put_string(&mut row, "symbol", self.last_field_text(sym, "symbol", ""));
            crate::text::put_string(&mut row, "weight", self.last_field_text(sym, "weight", "0"));
            crate::text::put_string(&mut row, "dt", self.last_field_text(sym, "dt", ""));
            crate::text::put_string(&mut row, "update_time", self.last_field_text(sym, "update_time", ""));
            crate::text::put_string(&mut row, "price", self.last_field_text(sym, "price", "0"));
            crate::text::put_string(&mut row, "ref", self.last_field_text(sym, "ref", "{}"));
            assert(text_values(row@) =~= last_row(m, px, nm, texts(list@)[i as int]));
            let ghost rows0 = rows@;
            rows.push(row);
            proof {
                assert forall|q: int| 0 <= q < i + 1 implies text_values(#[trigger] rows@[q]@) == last_row(m, px, nm, texts(list@)[q]) by {
                    if q < i {
                        assert(rows@[q] == rows0[q]);
                    }
                }
            }
            i = i + 1;
        }
        let ghost u = row_views(rows@);
        let sorted = sort_rows(rows, "dt", Some("symbol"));
        proof {
            assert(rows_of(u, m, px, nm, texts(list@))) by {
                assert forall|q: int| 0 <= q < u.len() implies text_values(#[trigger] u[q]) == last_row(m, px, nm, texts(list@)[q]) by {
                    assert(u[q] == rows@[q]@);
                }
            }
            assert(opt_str(Some("symbol")) == Some("symbol"@));
            assert(sorted_from(row_views(sorted@), u));
        }
        sorted
    }
}

/// The texts that serde_json reads from a JSON text, if it is a list of strings.
pub uninterp spec fn json_text_list(text: Seq<char>) -> Option<Seq<Seq<char>>>;

/// `serde_json::from_str` into a list of strings. Claimed: the list is a function
/// of the text (`json_text_list`).
#[verifier::external_body]
fn parse_text_list(text: &str) -> (r: Option<Vec<String>>)
    ensures
        match r {
            Some(v) => json_text_list(text@) == Some(texts(v@)),
            None => json_text_list(text@) is None,
        },
{
    serde_json::from_str::<Vec<String>>(text).ok()
}

/// Whether a bound of the window lets the instant `t` through: no bound, a bound
/// that does not read, or `t` on the right side of it.
pub open spec fn bound_ok(bound: Option<Seq<char>>, t: (i64, u32), lower: bool) -> bool {
    match bound {
        None => true,
        Some(b) => match offset_datetime_instant(b, "%Y-%m-%d %H:%M:%S"@) {
            None => true,
            Some(x) => if lower {
                instant_le(x, t)
            } else {
                instant_le(t, x)
            },
        },
    }
}

/// Whether a row's date lies in the window from `sdt` to `edt`; a date that does
/// not read as `%Y-%m-%d %H:%M:%S` is kept.
pub open spec fn in_window(row: Map<Seq<char>, String>, sdt: Option<Seq<char>>, edt: Option<Seq<char>>) -> bool {
    match offset_datetime_instant(col(row, "dt"@), "%Y-%m-%d %H:%M:%S"@) {
        None => true,
        Some(t) => bound_ok(sdt, t, true) && bound_ok(edt, t, false),
    }
}

/// `in_window` as a predicate.
pub open spec fn window_pred(sdt: Option<Seq<char>>, edt: Option<Seq<char>>) -> spec_fn(Map<Seq<char>, String>) -> bool {
    |row: Map<Seq<char>, String>| in_window(row, sdt, edt)
}

fn bound_lets_through(bound: Option<&str>, t: (i64, u32), lower: bool) -> (r: bool)
    ensures
        r == bound_ok(opt_str(bound), t, lower),
{
    match bound {
        None => true,
        Some(b) => match parse_offset_datetime(b, "%Y-%m-%d %H:%M:%S") {
            None => true,
            Some(x) => if lower {
                instant_not_after(x, t)
            } else {
                instant_not_after(t, x)
            },
        },
    }
}

/// The rows whose date lies in the window (see `in_window`), in order.
fn within_window(rows: Vec<StringHashMap<String>>, sdt: Option<&str>, edt: Option<&str>) -> (r: Vec<StringHashMap<String>>)
    ensures
        row_views(r@) == row_views(rows@).filter(window_pred(opt_str(sdt), opt_str(edt))),
{
    let ghost orig = rows@;
    let ghost p = window_pred(opt_str(sdt), opt_str(edt));
    let total = rows.len();
    let mut rest = rows;
    let mut out: Vec<StringHashMap<String>> = Vec::new();
    let mut i: usize = 0;
    proof {
        reveal(Seq::filter);
        assert(row_views(orig.take(0)) =~= Seq::<Map<Seq<char>, String>>::empty());
        assert(rest@ =~= orig.skip(0));
    }
    while rest.len() > 0
        invariant
            rest@ == orig.skip(i as int),
            total == orig.len(),
            i <= orig.len(),
            p == window_pred(opt_str(sdt), opt_str(edt)),
            row_views(out@) == row_views(orig.take(i as int)).filter(p),
        decreases rest.len(),
    {
        let row = rest.remove(0);
        assert(row == orig[i as int]);
        proof {
            assert(orig.take(i + 1) =~= orig.take(i as int).push(row));
            assert(row_views(orig.take(i + 1)) =~= row_views(orig.take(i as int)).push(row@));
            row_views(orig.take(i as int)).lemma_filter_push(row@, p);
        }
        let dt = match row.get("dt") {
            Some(v) => v.clone(),
            None => String::new(),
        };
        let keep = match parse_offset_datetime(dt.as_str(), "%Y-%m-%d %H:%M:%S") {
            None => true,
            Some(t) => bound_lets_through(sdt, t, true) && bound_lets_through(edt, t, false),
        };
        if keep {
            let ghost out0 = out@;
            out.push(row);
            assert(row_views(out@) =~= row_views(out0).push(row@));
        }
        i = i + 1;
        proof {
            assert(rest@ =~= orig.skip(i as int));
        }
    }
    proof {
        assert(orig.take(i as int) =~= orig);
    }
    out
}

proof fn lemma_blank_row_key()
    ensures
        blank_row().contains_key("dt"@) && blank_row()["dt"@] == ""@,
        blank_row().contains_key("symbol"@) && blank_row()["symbol"@] == ""@,
        ""@ == Seq::<char>::empty(),
{
    reveal_strlit("");
    reveal_strlit("dt");
    reveal_strlit("symbol");
    reveal_strlit("weight");
    reveal_strlit("update_time");
    reveal_strlit("price");
    reveal_strlit("ref");
    assert("symbol"@[0] != "weight"@[0]);
    assert("symbol"@.len() != "dt"@.len());
    assert("symbol"@.len() != "update_time"@.len());
    assert("symbol"@.len() != "price"@.len());
    assert("symbol"@.len() != "ref"@.len());
    assert("dt"@.len() != "update_time"@.len());
    assert("dt"@.len() != "price"@.len());
    assert("dt"@.len() != "ref"@.len());
}

/// A run whose elements all satisfy `p` is its own filter.
proof fn lemma_filter_all(s: Seq<Map<Seq<char>, String>>, p: spec_fn(Map<Seq<char>, String>) -> bool)
    requires
        forall|i: int| 0 <= i < s.len() ==> p(#[trigger] s[i]),
    ensures
        s.filter(p) == s,
    decreases s.len(),
{
    reveal(Seq::filter);
    if s.len() > 0 {
        lemma_filter_all(s.drop_last(), p);
        assert(s.drop_last().push(s.last()) =~= s);
    }
}

/// A filter as long as the run is the run itself.
proof fn lemma_filter_full(s: Seq<Map<Seq<char>, String>>, p: spec_fn(Map<Seq<char>, String>) -> bool)
    requires
        s.filter(p).len() == s.len(),
    ensures
        s.filter(p) == s,
    decreases s.len(),
{
    reveal(Seq::filter);
    if s.len() > 0 {
        s.drop_last().lemma_filter_len(p);
        assert(p(s.last()));
        lemma_filter_full(s.drop_last(), p);
        assert(s.drop_last().push(s.last()) =~= s);
    }
}

/// The weights of a strategy kept under `key_prefix` (default `Weights`), read
/// through a fresh client that sends no heartbeat, so from an empty store. The
/// setting `symbols` is a JSON list of symbols; with the setting `only_last`
/// `true`, the last-weight rows of those symbols are given (`last_weight_rows`),
/// which in an empty store are blank (`blank_row`); otherwise the weights of
/// every symbol, or none when symbols are named, filtered to the window of the
/// settings `sdt` and `edt` (`in_window`).
pub fn get_strategy_weights(
    strategy_name: &str,
    redis_url: Option<String>,
    connection_pool: Option<String>,
    key_prefix: Option<&str>,
    kwargs: StringHashMap<String>,
) -> (r: Vec<StringHashMap<String>>)
    ensures
        ({
            let asked = if kwargs@.contains_key("symbols"@) {
                json_text_list(kwargs@["symbols"@]@)
            } else {
                None
            };
            let only_last = kwargs@.contains_key("only_last"@) && kwargs@["only_last"@]@ == "true"@;
            r@.len() == if only_last && asked is Some {
                asked->0.len()
            } else {
                0
            }
        }),
        forall|i: int| 0 <= i < r@.len() ==> text_values(#[trigger] r@[i]@) == blank_row(),
{
    let prefix = match key_prefix {
        Some(p) => p,
        None => "Weights",
    };
    let symbols: Option<Vec<String>> = match kwargs.get("symbols") {
        Some(t) => parse_text_list(t.as_str()),
        None => None,
    };
    let only_last = match kwargs.get("only_last") {
        Some(v) => str_eq(v.as_str(), "true"),
        None => false,
    };
    let mut settings: StringHashMap<String> = StringHashMap::new();
    settings.insert(owned("key_prefix"), owned(prefix));
    let rwc = RedisWeightsClient::new(owned(strategy_name), redis_url, connection_pool, Some(false), settings);
    let ghost m = rwc.redis_connection@;
    let ghost px = rwc.key_prefix@;
    let ghost nm = rwc.strategy_name@;
    let ghost k0 = (Seq::<char>::empty(), Seq::<char>::empty());
    let ghost key_pred = key_is("dt"@, Some("symbol"@), k0);
    if only_last {
        let ghost asked = opt_texts(symbols);
        let rows = rwc.last_weight_rows(symbols);
        proof {
            let (syms, u) = choose|syms: Seq<Seq<char>>, u: Seq<Map<Seq<char>, String>>|
                #![trigger lists_asked(syms, asked, m, px, nm), rows_of(u, m, px, nm, syms)]
                lists_asked(syms, asked, m, px, nm) && rows_of(u, m, px, nm, syms) && sorted_from(row_views(rows@), u);
            assert forall|i: int| 0 <= i < u.len() implies text_values(#[trigger] u[i]) == blank_row() by {
                assert(last_row(m, px, nm, syms[i]) =~= blank_row());
            }
            lemma_blank_row_key();
            assert forall|i: int| 0 <= i < u.len() implies key_pred(#[trigger] u[i]) by {
                assert(text_values(u[i]) == blank_row());
                assert(text_values(u[i])["dt"@] == ""@);
                assert(text_values(u[i])["symbol"@] == ""@);
                assert(u[i].contains_key("dt"@) && u[i]["dt"@]@ == ""@);
                assert(u[i].contains_key("symbol"@) && u[i]["symbol"@]@ == ""@);
                assert(row_key(u[i], "dt"@, Some("symbol"@)).0 == k0.0);
                assert(row_key(u[i], "dt"@, Some("symbol"@)).1 == k0.1);
            }
            lemma_filter_all(u, key_pred);
            assert(row_views(rows@).filter(key_pred) == u);
            lemma_filter_full(row_views(rows@), key_pred);
            assert forall|i: int| 0 <= i < rows@.len() implies text_values(#[trigger] rows@[i]@) == blank_row() by {
                assert(row_views(rows@)[i] == u[i]);
            }
            if asked is None && syms.len() > 0 {
                assert(syms.contains(syms[0]));
            }
        }
        return rows;
    }
    let mut all: Vec<StringHashMap<String>> = Vec::new();
    match symbols {
        Some(_) => {},
        None => {
            all = rwc.last_weight_rows(None);
            proof {
                let (syms, u) = choose|syms: Seq<Seq<char>>, u: Seq<Map<Seq<char>, String>>|
                    #![trigger lists_asked(syms, None, m, px, nm), rows_of(u, m, px, nm, syms)]
                    lists_asked(syms, None, m, px, nm) && rows_of(u, m, px, nm, syms) && sorted_from(row_views(all@), u);
                if syms.len() > 0 {
                    assert(syms.contains(syms[0]));
                }
                assert(row_views(all@).len() == 0);
            }
        },
    }
    let sdt = kwargs.get("sdt");
    let edt = kwargs.get("edt");
    if sdt.is_some() || edt.is_some() {
        let s = match sdt {
            Some(t) => Some(t.as_str()),
            None => None,
        };
        let e = match edt {
            Some(t) => Some(t.as_str()),
            None => None,
        };
        let ghost before = row_views(all@);
        all = within_window(all, s, e);
        proof {
            assert(before =~= Seq::<Map<Seq<char>, String>>::empty());
            reveal(Seq::filter);
            assert(row_views(all@).len() == 0);
        }
    }
    all
}
} // verus!
