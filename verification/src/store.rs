//! An in-memory key-value store of texts that can list its keys.
use vstd::prelude::*;
use crate::text::{str_eq, texts};

verus! {

/// The map that a run of key-value entries holds: a later entry for a key
/// replaces an earlier one.
pub open spec fn entries_map(s: Seq<(String, String)>) -> Map<Seq<char>, Seq<char>>
    decreases s.len(),
{
    if s.len() == 0 {
        Map::empty()
    } else {
        entries_map(s.drop_last()).insert(s.last().0@, s.last().1@)
    }
}

/// The entries whose key is not `k`.
pub open spec fn without_key(s: Seq<(String, String)>, k: Seq<char>) -> Seq<(String, String)> {
    s.filter(|e: (String, String)| e.0@ != k)
}

proof fn lemma_without_key(s: Seq<(String, String)>, k: Seq<char>)
    ensures
        entries_map(without_key(s, k)) == entries_map(s).remove(k),
    decreases s.len(),
{
    reveal(Seq::filter);
    if s.len() == 0 {
        assert(entries_map(s).remove(k) =~= Map::empty());
    } else {
        lemma_without_key(s.drop_last(), k);
        let rest = without_key(s.drop_last(), k);
        if s.last().0@ != k {
            assert(without_key(s, k) == rest.push(s.last()));
            assert(rest.push(s.last()).drop_last() =~= rest);
            assert(entries_map(without_key(s, k)) =~= entries_map(s).remove(k));
        } else {
            assert(without_key(s, k) == rest);
            assert(entries_map(without_key(s, k)) =~= entries_map(s).remove(k));
        }
    }
}

/// An in-memory key-value store of texts.
#[derive(Debug)]
pub struct TextStore {
    pub entries: Vec<(String, String)>,
}

impl View for TextStore {
    type V = Map<Seq<char>, Seq<char>>;

    open spec fn view(&self) -> Map<Seq<char>, Seq<char>> {
        entries_map(self.entries@)
    }
}

impl TextStore {
    /// An empty store.
    pub fn new() -> (r: TextStore)
        ensures
            r@ == Map::<Seq<char>, Seq<char>>::empty(),
    {
        TextStore { entries: Vec::new() }
    }

    /// The value under `k`, if any.
    pub fn get(&self, k: &str) -> (r: Option<String>)
        ensures
            match r {
                Some(v) => self@.contains_key(k@) && self@[k@] == v@,
                None => !self@.contains_key(k@),
            },
    {
        let mut found: Option<usize> = None;
        let mut i: usize = 0;
        assert(self.entries@.take(0) =~= Seq::<(String, String)>::empty());
        while i < self.entries.len()
            invariant
                i <= self.entries@.len(),
                entries_map(self.entries@.take(i as int)).contains_key(k@) == found is Some,
                found matches Some(j) ==> j < i && entries_map(self.entries@.take(i as int))[k@]
                    == self.entries@[j as int].1@,
            decreases self.entries.len() - i,
        {
            proof {
                lemma_entries_split(self.entries@, i as int);
            }
            if str_eq(self.entries[i].0.as_str(), k) {
                found = Some(i);
            }
            i = i + 1;
        }
        assert(self.entries@.take(self.entries@.len() as int) =~= self.entries@);
        match found {
            Some(j) => Some(self.entries[j].1.clone()),
            None => None,
        }
    }

    /// Removes `k` and what it holds.
    pub fn remove(&mut self, k: &str)
        ensures
            final(self)@ == old(self)@.remove(k@),
    {
        let mut kept: Vec<(String, String)> = Vec::new();
        let mut i: usize = 0;
        while i < self.entries.len()
            invariant
                i <= self.entries@.len(),
                kept@ == without_key(self.entries@.take(i as int), k@),
            decreases self.entries.len() - i,
        {
            proof {
                reveal(Seq::filter);
                assert(self.entries@.take(i + 1).drop_last() =~= self.entries@.take(i as int));
            }
            if !str_eq(self.entries[i].0.as_str(), k) {
                kept.push((self.entries[i].0.clone(), self.entries[i].1.clone()));
            }
            i = i + 1;
        }
        proof {
            assert(self.entries@.take(self.entries@.len() as int) =~= self.entries@);
            lemma_without_key(self.entries@, k@);
        }
        self.entries = kept;
    }

    /// Stores `v` under `k`, replacing what was there.
    pub fn insert(&mut self, k: String, v: String)
        ensures
            final(self)@ == old(self)@.insert(k@, v@),
    {
        self.remove(k.as_str());
        let ghost before = self.entries@;
        self.entries.push((k, v));
        proof {
            assert(self.entries@.drop_last() =~= before);
            assert(entries_map(self.entries@) =~= old(self)@.remove(k@).insert(k@, v@));
        }
    }

    /// The keys held, each once.
    pub fn keys(&self) -> (r: Vec<String>)
        ensures
            forall|k: Seq<char>| texts(r@).contains(k) <==> self@.contains_key(k),
    {
        let mut out: Vec<String> = Vec::new();
        let mut i: usize = 0;
        while i < self.entries.len()
            invariant
                i <= self.entries@.len(),
                forall|k: Seq<char>| texts(out@).contains(k) <==> entries_map(self.entries@.take(i as int)).contains_key(k),
            decreases self.entries.len() - i,
        {
            assert(self.entries@.take(i + 1).drop_last() =~= self.entries@.take(i as int));
            let ghost before = texts(out@);
            out.push(self.entries[i].0.clone());
            assert(texts(out@) =~= before.push(self.entries@[i as int].0@));
            proof {
                lemma_entries_split(self.entries@, i as int);
                assert forall|k: Seq<char>| texts(out@).contains(k) <==> entries_map(self.entries@.take(i + 1)).contains_key(k) by {
                    let kk = self.entries@[i as int].0@;
                    if texts(out@).contains(k) && k != kk {
                        let t = choose|t: int| 0 <= t < texts(out@).len() && texts(out@)[t] == k;
                        assert(before[t] == k);
                    }
                    if k == kk {
                        assert(texts(out@)[before.len() as int] == k);
                    }
                    if before.contains(k) {
                        let t = choose|t: int| 0 <= t < before.len() && before[t] == k;
                        assert(texts(out@)[t] == k);
                    }
                }
            }
            i = i + 1;
        }
        assert(self.entries@.take(self.entries@.len() as int) =~= self.entries@);
        out
    }
}

proof fn lemma_entries_split(s: Seq<(String, String)>, i: int)
    requires
        0 <= i < s.len(),
    ensures
        entries_map(s.take(i + 1)) == entries_map(s.take(i)).insert(s[i].0@, s[i].1@),
{
    assert(s.take(i + 1).drop_last() =~= s.take(i));
}

proof fn lemma_no_key_in(s: Seq<(String, String)>, k: Seq<char>)
    requires
        forall|j: int| 0 <= j < s.len() ==> #[trigger] s[j].0@ != k,
    ensures
        !entries_map(s).contains_key(k),
    decreases s.len(),
{
    if s.len() > 0 {
        lemma_no_key_in(s.drop_last(), k);
    }
}

impl TextStore {
    /// A copy of this store.
    pub fn duplicate(&self) -> (r: TextStore)
        ensures
            r.entries@ == self.entries@,
            r@ == self@,
    {
        let mut out: Vec<(String, String)> = Vec::new();
        let mut i: usize = 0;
        while i < self.entries.len()
            invariant
                i <= self.entries@.len(),
                out@ == self.entries@.take(i as int),
            decreases self.entries.len() - i,
        {
            out.push((self.entries[i].0.clone(), self.entries[i].1.clone()));
            i = i + 1;
            assert(out@ =~= self.entries@.take(i as int));
        }
        assert(self.entries@.take(self.entries@.len() as int) =~= self.entries@);
        TextStore { entries: out }
    }
}

} // verus!
