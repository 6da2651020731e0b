//! A key-value cache held in memory; entries are named `key.suffix` and remember
//! when they were set.
use vstd::prelude::*;
use vstd::hash_map::StringHashMap;
use crate::text::{owned, push_str, opt_string_text};

verus! {

/// The user's home directory as text, from `dirs::home_dir` (lossily converted).
/// Nothing is claimed of it: it depends on the environment.
#[verifier::external_body]
fn home_dir_text() -> Option<String> {
    match dirs::home_dir() {
        Some(p) => Some(p.to_string_lossy().into_owned()),
        None => None,
    }
}

/// The seconds since the Unix epoch on the system clock, from
/// `std::time::SystemTime::now`; `None` when the clock is before the epoch.
/// Nothing is claimed of it: it depends on the time.
#[verifier::external_body]
fn now_secs() -> Option<u64> {
    match std::time::SystemTime::now().duration_since(std::time::UNIX_EPOCH) {
        Ok(d) => Some(d.as_secs()),
        Err(_) => None,
    }
}

/// The data directory under a home directory: `<home>/.czsc`, with `.` for an
/// unknown home.
pub open spec fn czsc_home_text(home: Option<Seq<char>>) -> Seq<char> {
    match home {
        Some(h) => h + "/.czsc"@,
        None => "."@ + "/.czsc"@,
    }
}

/// The data directory under `home` (see `czsc_home_text`).
pub fn czsc_home(home: Option<String>) -> (r: String)
    ensures
        r@ == czsc_home_text(opt_string_text(home)),
{
    let mut s = match home {
        Some(h) => h,
        None => owned("."),
    };
    push_str(&mut s, "/.czsc");
    s
}

/// The library's data directory: `.czsc` under the user's home directory.
pub fn home_path() -> (r: String)
    ensures
        exists|h: Option<Seq<char>>| r@ == czsc_home_text(h),
{
    let home = home_dir_text();
    let ghost h = opt_string_text(home);
    let r = czsc_home(home);
    assert(r@ == czsc_home_text(h));
    r
}

/// The name of an entry: `key.suffix`.
pub open spec fn entry_name(key: Seq<char>, suffix: Seq<char>) -> Seq<char> {
    key + "."@ + suffix
}

/// The text cached under an entry name, if any.
pub open spec fn cached_text(m: Map<Seq<char>, (String, u64)>, name: Seq<char>) -> Option<Seq<char>> {
    if m.contains_key(name) {
        Some(m[name].0@)
    } else {
        None
    }
}

/// Whether an entry set at `set_at` is still fresh at `now` for a lifetime of
/// `ttl` seconds; a lifetime of zero or less never expires.
pub open spec fn is_fresh(set_at: u64, now: u64, ttl: i64) -> bool {
    ttl <= 0 || now < set_at || now - set_at <= ttl
}

/// Whether an entry set at `set_at` is still fresh at `now` (see `is_fresh`).
pub fn fresh(set_at: u64, now: u64, ttl: i64) -> (r: bool)
    ensures
        r == is_fresh(set_at, now, ttl),
{
    if ttl <= 0 || now < set_at {
        true
    } else {
        (now - set_at) as u128 <= ttl as u128
    }
}

/// A cache of texts under entry names `key.suffix`, each with the second at which
/// it was set.
pub struct DiskCache {
    pub cache_path: String,
    pub data: StringHashMap<(String, u64)>,
}

fn entry_key(key: &str, suffix: &str) -> (r: String)
    ensures
        r@ == entry_name(key@, suffix@),
{
    let mut s = owned(key);
    push_str(&mut s, ".");
    push_str(&mut s, suffix);
    s
}

impl DiskCache {
    /// An empty cache kept under `disk_cache` in the library's data directory.
    pub fn new() -> (r: DiskCache)
        ensures
            r.data@ == Map::<Seq<char>, (String, u64)>::empty(),
    {
        let mut path = home_path();
        push_str(&mut path, "/disk_cache");
        DiskCache { cache_path: path, data: StringHashMap::new() }
    }

    /// The size of a directory; the in-memory cache takes no room on disk.
    pub fn get_dir_size(&self, dir_path: &std::path::PathBuf) -> (r: Result<u64, String>)
        ensures
            r == Ok::<u64, String>(0),
    {
        Ok(0)
    }

    /// Whether `key.suffix` is cached and, for a positive `ttl`, was set at most
    /// `ttl` seconds ago by the system clock.
    pub fn is_found(&self, key: &str, suffix: &str, ttl: i64) -> (r: bool)
        ensures
            !self.data@.contains_key(entry_name(key@, suffix@)) ==> !r,
            ttl <= 0 ==> r == self.data@.contains_key(entry_name(key@, suffix@)),
    {
        let name = entry_key(key, suffix);
        match self.data.get(name.as_str()) {
            None => false,
            Some(entry) => {
                if ttl <= 0 {
                    true
                } else {
                    match now_secs() {
                        Some(now) => fresh(entry.1, now, ttl),
                        None => true,
                    }
                }
            },
        }
    }

    /// The text cached under `key.suffix`, if any.
    pub fn get(&self, key: &str, suffix: &str) -> (r: Option<String>)
        ensures
            match r {
                Some(t) => cached_text(self.data@, entry_name(key@, suffix@)) == Some(t@),
                None => cached_text(self.data@, entry_name(key@, suffix@)) is None,
            },
    {
        let name = entry_key(key, suffix);
        match self.data.get(name.as_str()) {
            Some(entry) => Some(entry.0.clone()),
            None => None,
        }
    }

    /// Caches `value` under `key.suffix`, replacing what was there, stamped with
    /// the system clock (zero when it reads before the epoch).
    pub fn set(&mut self, key: &str, value: &str, suffix: &str) -> (r: Result<(), String>)
        ensures
            r is Ok,
            final(self).data@.dom() == old(self).data@.dom().insert(entry_name(key@, suffix@)),
            cached_text(final(self).data@, entry_name(key@, suffix@)) == Some(value@),
            forall|n: Seq<char>| n != entry_name(key@, suffix@) ==> #[trigger] final(self).data@[n] == old(self).data@[n],
            final(self).cache_path == old(self).cache_path,
    {
        let name = entry_key(key, suffix);
        let stamp = match now_secs() {
            Some(t) => t,
            None => 0,
        };
        self.data.insert(name, (owned(value), stamp));
        Ok(())
    }

    /// Drops the entry `key.suffix`, if any.
    pub fn remove(&mut self, key: &str, suffix: &str)
        ensures
            final(self).data@ == old(self).data@.remove(entry_name(key@, suffix@)),
            final(self).cache_path == old(self).cache_path,
    {
        let name = entry_key(key, suffix);
        self.data.remove(name.as_str());
    }
}

/// Reading an entry after writing it gives what was written, and writing one
/// entry leaves what every other entry reads (the contracts of `set` and `get`).
pub proof fn law_read_after_write(
    before: Map<Seq<char>, (String, u64)>,
    after: Map<Seq<char>, (String, u64)>,
    key: Seq<char>,
    suffix: Seq<char>,
    value: Seq<char>,
    other: Seq<char>,
)
    requires
        after.dom() == before.dom().insert(entry_name(key, suffix)),
        cached_text(after, entry_name(key, suffix)) == Some(value),
        forall|n: Seq<char>| n != entry_name(key, suffix) ==> #[trigger] after[n] == before[n],
    ensures
        cached_text(after, entry_name(key, suffix)) == Some(value),
        other != entry_name(key, suffix) ==> cached_text(after, other) == cached_text(before, other),
{
    if other != entry_name(key, suffix) {
        assert(after.dom().contains(other) == before.dom().contains(other));
        assert(after[other] == before[other]);
    }
}

/// Once an entry is removed, it is not found and reads as nothing.
pub proof fn law_removed_is_gone(before: Map<Seq<char>, (String, u64)>, key: Seq<char>, suffix: Seq<char>)
    ensures
        !before.remove(entry_name(key, suffix)).contains_key(entry_name(key, suffix)),
        cached_text(before.remove(entry_name(key, suffix)), entry_name(key, suffix)) is None,
{
}

/// Removing an entry leaves every other entry as it was, takes one entry away
/// when it was there and none otherwise, and removing it again changes nothing.
pub proof fn law_remove_once(before: Map<Seq<char>, (String, u64)>, key: Seq<char>, suffix: Seq<char>, other: Seq<char>)
    requires
        before.dom().finite(),
    ensures
        before.remove(entry_name(key, suffix)).len() == if before.contains_key(entry_name(key, suffix)) {
            before.len() - 1
        } else {
            before.len() as int
        },
        before.remove(entry_name(key, suffix)).remove(entry_name(key, suffix)) == before.remove(entry_name(key, suffix)),
        other != entry_name(key, suffix) ==> before.remove(entry_name(key, suffix)).contains_key(other) == before.contains_key(other)
            && cached_text(before.remove(entry_name(key, suffix)), other) == cached_text(before, other),
{
    let n = entry_name(key, suffix);
    assert(before.remove(n).dom() =~= before.dom().remove(n));
    if !before.contains_key(n) {
        assert(before.dom().remove(n) =~= before.dom());
    }
    assert(before.remove(n).remove(n) =~= before.remove(n));
}

} // verus!
