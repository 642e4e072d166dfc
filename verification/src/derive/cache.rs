//! An in-memory cache of search results with a lifetime per entry.
//!
//! Time is counted in nanoseconds since the cache was made, on the monotonic
//! clock; every operation has a form that takes that time as an argument.
use vstd::prelude::*;
use std::time::{Duration, Instant};
use crate::clock::{duration_as_nanos, duration_nanos, instant_now, nanos_between};
use crate::derive::error::DeriveError;
use crate::derive::types::{ResultView, SearchResult, StringMap, keys_of};
use crate::text::{decimal, owned, seq_lt, str_eq, str_lt, usize_to_decimal};

verus! {

/// Settings of the in-memory cache.
#[derive(Debug, Clone, Copy)]
pub struct CacheConfig {
    /// Default lifetime of entries in seconds.
    pub default_ttl_secs: u64,
    /// Most entries held.
    pub max_entries: usize,
    /// Whether the cache is on.
    pub enabled: bool,
}

impl Default for CacheConfig {
    fn default() -> (c: Self)
        ensures
            c.default_ttl_secs == 300,
            c.max_entries == 1000,
            c.enabled,
    {
        CacheConfig { default_ttl_secs: 300, max_entries: 1000, enabled: true }
    }
}

/// Nanoseconds per second.
pub const NANOS_PER_SEC: u128 = 1_000_000_000;

/// A cached result with the time it was stored and its lifetime.
#[derive(Debug, Clone)]
struct CacheEntry {
    result: SearchResult,
    created_ns: u128,
    ttl_ns: u128,
}

/// What an entry holds.
pub struct EntryView {
    /// The result.
    pub result: ResultView,
    /// When it was stored.
    pub created_ns: nat,
    /// How long it lives.
    pub ttl_ns: nat,
}

/// Whether an entry has outlived its lifetime at `now`.
pub open spec fn expired(e: EntryView, now: nat) -> bool {
    now > e.created_ns && now - e.created_ns > e.ttl_ns
}

/// The keys of the entries.
pub open spec fn entry_keys(s: Seq<(Seq<char>, EntryView)>) -> Seq<Seq<char>> {
    s.map_values(|p: (Seq<char>, EntryView)| p.0)
}

/// The result stored under `key` that is still alive at `now`.
/// The view of a result that may be absent.
pub open spec fn opt_result_view(x: Option<SearchResult>) -> Option<ResultView> {
    match x {
        Some(v) => Some(v@),
        None => None,
    }
}

pub open spec fn live_result(s: Seq<(Seq<char>, EntryView)>, key: Seq<char>, now: nat) -> Option<ResultView> {
    if entry_keys(s).contains(key) {
        let e = s[entry_keys(s).index_of(key)].1;
        if expired(e, now) { None } else { Some(e.result) }
    } else {
        None
    }
}

/// The entries still alive at `now`, in order.
pub open spec fn unexpired(s: Seq<(Seq<char>, EntryView)>, now: nat) -> Seq<(Seq<char>, EntryView)>
    decreases s.len(),
{
    if s.len() == 0 {
        s
    } else {
        unexpired(s.drop_last(), now) + (if expired(s.last().1, now) { Seq::empty() } else { seq![s.last()] })
    }
}

/// The entries with `key` set to `e`: in place when the key is there, last otherwise.
pub open spec fn put(s: Seq<(Seq<char>, EntryView)>, key: Seq<char>, e: EntryView) -> Seq<(Seq<char>, EntryView)> {
    if entry_keys(s).contains(key) {
        s.update(entry_keys(s).index_of(key), (key, e))
    } else {
        s.push((key, e))
    }
}

/// The entries left to make room for a new one when `max` are held: the expired
/// ones go, and if that is not enough, the oldest.
pub open spec fn make_room(s: Seq<(Seq<char>, EntryView)>, max: nat, now: nat) -> Seq<(Seq<char>, EntryView)> {
    if s.len() >= max {
        let t = unexpired(s, now);
        if t.len() >= max && t.len() > 0 { t.drop_first() } else { t }
    } else {
        s
    }
}

/// What an in-memory cache holds.
pub struct MemoryCacheView {
    /// Its settings.
    pub config: CacheConfig,
    /// The entries by key, oldest first.
    pub entries: Seq<(Seq<char>, EntryView)>,
}

/// An in-memory cache of search results.
pub struct MemoryCache {
    entries: Vec<(String, CacheEntry)>,
    origin: Instant,
    config: CacheConfig,
}

impl View for MemoryCache {
    type V = MemoryCacheView;

    closed spec fn view(&self) -> MemoryCacheView {
        MemoryCacheView {
            config: self.config,
            entries: self.entries@.map_values(|p: (String, CacheEntry)| (p.0@, EntryView {
                result: p.1.result@,
                created_ns: p.1.created_ns as nat,
                ttl_ns: p.1.ttl_ns as nat,
            })),
        }
    }
}

/// The view of one stored pair.
spec fn pair_view(p: (String, CacheEntry)) -> (Seq<char>, EntryView) {
    (p.0@, EntryView { result: p.1.result@, created_ns: p.1.created_ns as nat, ttl_ns: p.1.ttl_ns as nat })
}

proof fn lemma_unexpired_keys_distinct(s: Seq<(Seq<char>, EntryView)>, now: nat)
    requires
        entry_keys(s).no_duplicates(),
    ensures
        entry_keys(unexpired(s, now)).no_duplicates(),
        forall|k: Seq<char>| entry_keys(unexpired(s, now)).contains(k) ==> entry_keys(s).contains(k),
        unexpired(s, now).len() <= s.len(),
    decreases s.len(),
{
    if s.len() > 0 {
        let d = s.drop_last();
        assert(entry_keys(d) =~= entry_keys(s).drop_last());
        lemma_unexpired_keys_distinct(d, now);
        let u = unexpired(d, now);
        if !expired(s.last().1, now) {
            let w = u + seq![s.last()];
            assert(entry_keys(w) =~= entry_keys(u).push(s.last().0));
            assert forall|k: Seq<char>| entry_keys(w).contains(k) implies entry_keys(s).contains(k) by {
                if k != s.last().0 {
                    assert(entry_keys(u).contains(k));
                    assert(entry_keys(d).contains(k));
                    let i = choose|i: int| 0 <= i < entry_keys(d).len() && entry_keys(d)[i] == k;
                    assert(entry_keys(s)[i] == k);
                } else {
                    assert(entry_keys(s)[s.len() - 1] == k);
                }
            }
            assert(!entry_keys(u).contains(s.last().0)) by {
                if entry_keys(u).contains(s.last().0) {
                    assert(entry_keys(d).contains(s.last().0));
                    let i = choose|i: int| 0 <= i < entry_keys(d).len() && entry_keys(d)[i] == s.last().0;
                    assert(entry_keys(s)[i] == entry_keys(s)[s.len() - 1]);
                }
            }
        } else {
            assert(unexpired(s, now) =~= u);
            assert forall|k: Seq<char>| entry_keys(u).contains(k) implies entry_keys(s).contains(k) by {
                assert(entry_keys(d).contains(k));
                let i = choose|i: int| 0 <= i < entry_keys(d).len() && entry_keys(d)[i] == k;
                assert(entry_keys(s)[i] == k);
            }
        }
    }
}

/// The nanoseconds an entry written with `ttl` lives: those of `ttl`, or the
/// default lifetime of `default_secs` seconds when there is none.
pub open spec fn ttl_nanos(ttl: Option<Duration>, default_secs: u64) -> nat {
    match ttl {
        Some(d) => duration_as_nanos(d) as nat,
        None => (default_secs * NANOS_PER_SEC) as nat,
    }
}

impl MemoryCache {
    /// Whether no key is stored twice.
    pub closed spec fn wf(&self) -> bool {
        entry_keys(self@.entries).no_duplicates()
    }

    /// An empty cache.
    pub fn new(config: CacheConfig) -> (c: Self)
        ensures
            c.wf(),
            c@.config == config,
            c@.entries.len() == 0,
    {
        let c = MemoryCache { entries: Vec::new(), origin: instant_now(), config };
        assert(c@.entries =~= Seq::<(Seq<char>, EntryView)>::empty());
        c
    }

    /// Nanoseconds since the cache was made.
    pub fn now_ns(&self) -> (n: u128) {
        let now = instant_now();
        nanos_between(&self.origin, &now)
    }

    fn index_of_key(&self, key: &str) -> (r: Option<usize>)
        requires
            self.wf(),
        ensures
            match r {
                Some(i) => entry_keys(self@.entries).contains(key@) && i == entry_keys(self@.entries).index_of(key@)
                    && i < self.entries.len(),
                None => !entry_keys(self@.entries).contains(key@),
            },
    {
        let mut i: usize = 0;
        while i < self.entries.len()
            invariant
                i <= self.entries.len(),
                self.wf(),
                forall|j: int| 0 <= j < i ==> self.entries@[j].0@ != key@,
            decreases self.entries.len() - i,
        {
            if str_eq(self.entries[i].0.as_str(), key) {
                proof {
                    let ks = entry_keys(self@.entries);
                    assert(ks[i as int] == key@);
                    assert(ks.contains(key@));
                    let k = ks.index_of(key@);
                    assert(ks[k] == key@);
                    assert(k == i);
                }
                return Some(i);
            }
            i = i + 1;
        }
        assert(!entry_keys(self@.entries).contains(key@)) by {
            if entry_keys(self@.entries).contains(key@) {
                let k = choose|k: int| 0 <= k < entry_keys(self@.entries).len() && entry_keys(self@.entries)[k] == key@;
                assert(self.entries@[k].0@ == key@);
            }
        }
        None
    }

    /// The result stored under `key` if it is alive at `now`; nothing when the
    /// cache is off.
    pub fn get_at(&self, key: &str, now: u128) -> (r: Result<Option<SearchResult>, DeriveError>)
        requires
            self.wf(),
        ensures
            match r {
                Ok(Some(v)) => self@.config.enabled && live_result(self@.entries, key@, now as nat) == Some(v@),
                Ok(None) => !self@.config.enabled || live_result(self@.entries, key@, now as nat) is None,
                Err(_) => false,
            },
    {
        if !self.config.enabled {
            return Ok(None);
        }
        match self.index_of_key(key) {
            Some(i) => {
                let e = &self.entries[i].1;
                let is_expired = now > e.created_ns && now - e.created_ns > e.ttl_ns;
                if is_expired {
                    Ok(None)
                } else {
                    Ok(Some(e.result.duplicate()))
                }
            },
            None => Ok(None),
        }
    }

    /// The result stored under `key` if it is alive now.
    pub fn get(&self, key: &str) -> (r: Result<Option<SearchResult>, DeriveError>)
        requires
            self.wf(),
        ensures
            r is Ok,
            !self@.config.enabled ==> r == Ok::<Option<SearchResult>, DeriveError>(None),
            r matches Ok(Some(v)) ==> exists|now: nat| #[trigger] live_result(self@.entries, key@, now) == Some(v@),
            self@.config.enabled ==> (r matches Ok(x) ==> exists|now: nat| #[trigger] live_result(self@.entries, key@, now)
                == opt_result_view(x)),
            !entry_keys(self@.entries).contains(key@) ==> r == Ok::<Option<SearchResult>, DeriveError>(None),
    {
        let now = self.now_ns();
        let r = self.get_at(key, now);
        proof {
            if self@.config.enabled {
                if r is Ok {
                    assert(live_result(self@.entries, key@, now as nat) == opt_result_view(r->Ok_0));
                }
            }
        }
        r
    }

    /// Drops the entries expired at `now`; tells how many went.
    fn evict_expired(&mut self, now: u128) -> (n: usize)
        requires
            old(self).wf(),
        ensures
            final(self).wf(),
            final(self)@.config == old(self)@.config,
            final(self)@.entries == unexpired(old(self)@.entries, now as nat),
            n == old(self)@.entries.len() - final(self)@.entries.len(),
    {
        let ghost orig = self.entries@;
        let ghost origv = self@.entries;
        let initial = self.entries.len();
        let mut rest: Vec<(String, CacheEntry)> = Vec::new();
        std::mem::swap(&mut rest, &mut self.entries);
        let mut kept: Vec<(String, CacheEntry)> = Vec::new();
        let ghost mut i: int = 0;
        assert(origv.take(0) =~= Seq::<(Seq<char>, EntryView)>::empty());
        assert(kept@.map_values(|p: (String, CacheEntry)| pair_view(p)) =~= unexpired(origv.take(0), now as nat));
        assert(rest@ =~= orig.skip(0));
        while rest.len() > 0
            invariant
                0 <= i <= orig.len(),
                orig.len() == origv.len(),
                origv == orig.map_values(|p: (String, CacheEntry)| pair_view(p)),
                rest@ == orig.skip(i),
                kept@.map_values(|p: (String, CacheEntry)| pair_view(p)) == unexpired(origv.take(i), now as nat),
            decreases rest.len(),
        {
            let p = rest.remove(0);
            assert(p == orig[i]);
            assert(origv.take(i + 1).drop_last() =~= origv.take(i));
            assert(origv.take(i + 1).last() == pair_view(p));
            let is_expired = now > p.1.created_ns && now - p.1.created_ns > p.1.ttl_ns;
            if !is_expired {
                let ghost before = kept@;
                kept.push(p);
                assert(kept@.map_values(|p: (String, CacheEntry)| pair_view(p))
                    =~= before.map_values(|p: (String, CacheEntry)| pair_view(p)).push(pair_view(p)));
            }
            proof { i = i + 1; }
            assert(rest@ =~= orig.skip(i));
        }
        assert(origv.take(i) =~= origv);
        self.entries = kept;
        proof {
            assert(self@.entries =~= unexpired(origv, now as nat));
            lemma_unexpired_keys_distinct(origv, now as nat);
        }
        initial - self.entries.len()
    }

    /// Stores `result` under `key` at `now`, to live `ttl_ns` nanoseconds (the
    /// default lifetime when `None`). When the cache holds its most entries, the
    /// expired ones are dropped first and, if that is not enough, the oldest.
    /// Nothing changes when the cache is off.
    pub fn set_at(&mut self, key: String, result: SearchResult, ttl_ns: Option<u128>, now: u128)
        -> (r: Result<(), DeriveError>)
        requires
            old(self).wf(),
        ensures
            final(self).wf(),
            r is Ok,
            final(self)@.config == old(self)@.config,
            !old(self)@.config.enabled ==> final(self)@.entries == old(self)@.entries,
            old(self)@.config.enabled ==> final(self)@.entries == put(
                make_room(old(self)@.entries, old(self)@.config.max_entries as nat, now as nat),
                key@,
                EntryView {
                    result: result@,
                    created_ns: now as nat,
                    ttl_ns: match ttl_ns {
                        Some(t) => t as nat,
                        None => (old(self)@.config.default_ttl_secs * NANOS_PER_SEC) as nat,
                    },
                },
            ),
    {
        if !self.config.enabled {
            return Ok(());
        }
        let ghost s0 = self@.entries;
        if self.entries.len() >= self.config.max_entries {
            self.evict_expired(now);
            if self.entries.len() >= self.config.max_entries && self.entries.len() > 0 {
                let ghost s1 = self@.entries;
                let ghost raw = self.entries@;
                self.entries.remove(0);
                proof {
                    assert(self.entries@ =~= raw.drop_first());
                    assert(self@.entries =~= s1.drop_first());
                    assert(entry_keys(self@.entries) =~= entry_keys(s1).drop_first());
                    assert(entry_keys(s1).drop_first().no_duplicates()) by {
                        let ks = entry_keys(s1);
                        assert forall|a: int, b: int| 0 <= a < b < ks.drop_first().len() implies
                            ks.drop_first()[a] != ks.drop_first()[b] by {
                            assert(ks.drop_first()[a] == ks[a + 1]);
                            assert(ks.drop_first()[b] == ks[b + 1]);
                        }
                    }
                }
            }
        }
        let ghost s2 = self@.entries;
        assert(s2 == make_room(s0, self.config.max_entries as nat, now as nat));
        let ttl = match ttl_ns {
            Some(t) => t,
            None => self.config.default_ttl_secs as u128 * NANOS_PER_SEC,
        };
        let entry = CacheEntry { result, created_ns: now, ttl_ns: ttl };
        let ghost ev = EntryView { result: entry.result@, created_ns: now as nat, ttl_ns: ttl as nat };
        match self.index_of_key(key.as_str()) {
            Some(i) => {
                let ghost raw = self.entries@;
                self.entries.set(i, (key, entry));
                proof {
                    assert(self@.entries =~= s2.update(i as int, (key@, ev)));
                    assert(entry_keys(self@.entries) =~= entry_keys(s2));
                }
            },
            None => {
                let ghost raw = self.entries@;
                self.entries.push((key, entry));
                proof {
                    assert(self@.entries =~= s2.push((key@, ev)));
                    assert(entry_keys(self@.entries) =~= entry_keys(s2).push(key@));
                }
            },
        }
        Ok(())
    }

    /// Stores `result` under `key` now, to live `ttl` (the default lifetime when
    /// `None`).
    pub fn set(&mut self, key: String, result: SearchResult, ttl: Option<Duration>) -> (r: Result<(), DeriveError>)
        requires
            old(self).wf(),
        ensures
            final(self).wf(),
            r is Ok,
            final(self)@.config == old(self)@.config,
            !old(self)@.config.enabled ==> final(self)@.entries == old(self)@.entries,
            old(self)@.config.enabled ==> exists|now: nat| final(self)@.entries == #[trigger] put(
                make_room(old(self)@.entries, old(self)@.config.max_entries as nat, now),
                key@,
                EntryView { result: result@, created_ns: now, ttl_ns: ttl_nanos(ttl, old(self)@.config.default_ttl_secs) },
            ),
    {
        let now = self.now_ns();
        let ttl_ns = match ttl {
            Some(d) => Some(duration_nanos(&d)),
            None => None,
        };
        let ghost k = key@;
        let ghost v = result@;
        let ghost before = self@;
        let r = self.set_at(key, result, ttl_ns, now);
        proof {
            if before.config.enabled {
                assert(ttl_nanos(ttl, before.config.default_ttl_secs) == match ttl_ns {
                    Some(x) => x as nat,
                    None => (before.config.default_ttl_secs * NANOS_PER_SEC) as nat,
                });
                assert(self@.entries == put(make_room(before.entries, before.config.max_entries as nat, now as nat), k,
                    EntryView { result: v, created_ns: now as nat, ttl_ns: ttl_nanos(ttl, before.config.default_ttl_secs) }));
            }
        }
        r
    }

    /// Drops the entry of `key`, if any.
    pub fn remove(&mut self, key: &str) -> (r: Result<(), DeriveError>)
        requires
            old(self).wf(),
        ensures
            final(self).wf(),
            r is Ok,
            final(self)@.config == old(self)@.config,
            !entry_keys(final(self)@.entries).contains(key@),
            match entry_keys(old(self)@.entries).contains(key@) {
                true => final(self)@.entries == old(self)@.entries.remove(entry_keys(old(self)@.entries).index_of(key@)),
                false => final(self)@.entries == old(self)@.entries,
            },
    {
        match self.index_of_key(key) {
            Some(i) => {
                let ghost s = self@.entries;
                let ghost raw = self.entries@;
                self.entries.remove(i);
                proof {
                    assert(self@.entries =~= s.remove(i as int));
                    let ks = entry_keys(s);
                    assert(entry_keys(self@.entries) =~= ks.remove(i as int));
                    assert forall|a: int, b: int| 0 <= a < b < ks.remove(i as int).len() implies
                        ks.remove(i as int)[a] != ks.remove(i as int)[b] by {
                        let a2 = if a < i { a } else { a + 1 };
                        let b2 = if b < i { b } else { b + 1 };
                        assert(ks.remove(i as int)[a] == ks[a2]);
                        assert(ks.remove(i as int)[b] == ks[b2]);
                    }
                    assert(!ks.remove(i as int).contains(key@)) by {
                        if ks.remove(i as int).contains(key@) {
                            let j = choose|j: int| 0 <= j < ks.remove(i as int).len() && ks.remove(i as int)[j] == key@;
                            let j2 = if j < i { j } else { j + 1 };
                            assert(ks[j2] == ks[i as int]);
                        }
                    }
                }
            },
            None => {},
        }
        Ok(())
    }

    /// Drops every entry.
    pub fn clear(&mut self) -> (r: Result<(), DeriveError>)
        ensures
            final(self).wf(),
            r is Ok,
            final(self)@.config == old(self)@.config,
            final(self)@.entries.len() == 0,
    {
        self.entries.clear();
        assert(self@.entries =~= Seq::<(Seq<char>, EntryView)>::empty());
        Ok(())
    }

    /// The number of entries, expired ones included.
    pub fn len(&self) -> (r: Result<usize, DeriveError>)
        ensures
            r matches Ok(n) && n == self@.entries.len(),
    {
        Ok(self.entries.len())
    }

    /// Whether there is no entry.
    pub fn is_empty(&self) -> (r: Result<bool, DeriveError>)
        ensures
            r matches Ok(b) && b == (self@.entries.len() == 0),
    {
        Ok(self.entries.len() == 0)
    }

    /// Drops the entries expired at `now`; tells how many went.
    pub fn cleanup_at(&mut self, now: u128) -> (r: Result<usize, DeriveError>)
        requires
            old(self).wf(),
        ensures
            final(self).wf(),
            final(self)@.config == old(self)@.config,
            final(self)@.entries == unexpired(old(self)@.entries, now as nat),
            r matches Ok(n) && n == old(self)@.entries.len() - final(self)@.entries.len(),
    {
        let n = self.evict_expired(now);
        Ok(n)
    }

    /// Drops the entries expired now; tells how many went.
    pub fn cleanup(&mut self) -> (r: Result<usize, DeriveError>)
        requires
            old(self).wf(),
        ensures
            final(self).wf(),
            final(self)@.config == old(self)@.config,
            exists|now: nat| final(self)@.entries == #[trigger] unexpired(old(self)@.entries, now),
            r matches Ok(n) && n == old(self)@.entries.len() - final(self)@.entries.len(),
    {
        let now = self.now_ns();
        self.cleanup_at(now)
    }
}

/// A result stored at `now` is read back until its lifetime has passed, whatever
/// room had to be made for it.
pub proof fn law_set_then_get(s: Seq<(Seq<char>, EntryView)>, max: nat, now: nat, key: Seq<char>, e: EntryView, later: nat)
    requires
        e.created_ns == now,
        later <= now + e.ttl_ns,
    ensures
        live_result(put(make_room(s, max, now), key, e), key, later) == Some(e.result),
{
    let s1 = make_room(s, max, now);
    let s2 = put(s1, key, e);
    if entry_keys(s1).contains(key) {
        let i = entry_keys(s1).index_of(key);
        assert(entry_keys(s2) =~= entry_keys(s1));
        assert(s2[i] == (key, e));
    } else {
        assert(entry_keys(s2) =~= entry_keys(s1).push(key));
        assert(entry_keys(s2)[s1.len() as int] == key);
        assert(entry_keys(s2).contains(key));
        let i = entry_keys(s2).index_of(key);
        assert(i == s1.len()) by {
            if i < s1.len() {
                assert(entry_keys(s1)[i] == key);
            }
        }
    }
}

/// What a cache `c0` holds after storing `result` under `key` at `now` for
/// `ttl_ns` nanoseconds, when it is on.
pub open spec fn stored_in(c0: MemoryCacheView, key: Seq<char>, result: ResultView, ttl_ns: nat, now: nat) -> MemoryCacheView {
    MemoryCacheView {
        entries: put(make_room(c0.entries, c0.config.max_entries as nat, now), key,
            EntryView { result, created_ns: now, ttl_ns }),
        ..c0
    }
}

/// A result stored in a cache that is on is read back by every read until its
/// lifetime has passed, whatever room had to be made for it.
pub proof fn law_memory_set_then_get(
    c0: MemoryCacheView,
    key: Seq<char>,
    result: ResultView,
    ttl_ns: nat,
    now: nat,
    later: nat,
)
    requires
        c0.config.enabled,
        later <= now + ttl_ns,
    ensures
        stored_in(c0, key, result, ttl_ns, now).config.enabled,
        live_result(stored_in(c0, key, result, ttl_ns, now).entries, key, later) == Some(result),
{
    law_set_then_get(c0.entries, c0.config.max_entries as nat, now, key,
        EntryView { result, created_ns: now, ttl_ns }, later);
}

proof fn lemma_unexpired_all(s: Seq<(Seq<char>, EntryView)>, now: nat)
    requires
        forall|i: int| 0 <= i < s.len() ==> !expired(#[trigger] s[i].1, now),
    ensures
        unexpired(s, now) == s,
    decreases s.len(),
{
    if s.len() > 0 {
        lemma_unexpired_all(s.drop_last(), now);
        assert(!expired(s[s.len() - 1].1, now));
        assert(s.drop_last().push(s.last()) =~= s);
    }
}

/// When a full cache holds no expired entry, storing a new key drops the
/// oldest entry and appends the new one.
pub proof fn law_full_cache_evicts_oldest(
    c0: MemoryCacheView,
    key: Seq<char>,
    result: ResultView,
    ttl_ns: nat,
    now: nat,
)
    requires
        c0.entries.len() >= c0.config.max_entries >= 1,
        forall|i: int| 0 <= i < c0.entries.len() ==> !expired(#[trigger] c0.entries[i].1, now),
        !entry_keys(c0.entries.drop_first()).contains(key),
    ensures
        stored_in(c0, key, result, ttl_ns, now).entries
            == c0.entries.drop_first().push((key, EntryView { result, created_ns: now, ttl_ns })),
{
    lemma_unexpired_all(c0.entries, now);
}

proof fn lemma_unexpired_shorter(s: Seq<(Seq<char>, EntryView)>, now: nat, i: int)
    requires
        0 <= i < s.len(),
        expired(s[i].1, now),
    ensures
        unexpired(s, now).len() < s.len(),
    decreases s.len(),
{
    let d = s.drop_last();
    lemma_unexpired_not_longer(d, now);
    if i < s.len() - 1 {
        assert(d[i] == s[i]);
        lemma_unexpired_shorter(d, now, i);
    }
}

proof fn lemma_unexpired_not_longer(s: Seq<(Seq<char>, EntryView)>, now: nat)
    ensures
        unexpired(s, now).len() <= s.len(),
    decreases s.len(),
{
    if s.len() > 0 {
        lemma_unexpired_not_longer(s.drop_last(), now);
    }
}

proof fn lemma_live_at(s: Seq<(Seq<char>, EntryView)>, i: int, now: nat)
    requires
        entry_keys(s).no_duplicates(),
        0 <= i < s.len(),
    ensures
        live_result(s, s[i].0, now) == (if expired(s[i].1, now) { None } else { Some(s[i].1.result) }),
{
    let ks = entry_keys(s);
    assert(ks[i] == s[i].0);
    assert(ks.contains(s[i].0));
    let j = ks.index_of(s[i].0);
    assert(ks[j] == s[i].0);
}

proof fn lemma_put_keeps_other(u: Seq<(Seq<char>, EntryView)>, key: Seq<char>, e: EntryView, j: int)
    requires
        entry_keys(u).no_duplicates(),
        0 <= j < u.len(),
        u[j].0 != key,
    ensures
        entry_keys(put(u, key, e)).no_duplicates(),
        j < put(u, key, e).len(),
        put(u, key, e)[j] == u[j],
{
    let ks = entry_keys(u);
    if ks.contains(key) {
        let m = ks.index_of(key);
        assert(ks[m] == key);
        assert(entry_keys(put(u, key, e)) =~= ks);
        assert(m != j) by {
            assert(ks[j] == u[j].0);
        }
    } else {
        assert(entry_keys(put(u, key, e)) =~= ks.push(key));
    }
}

/// Making room never costs a live entry while an expired one can go: storing a
/// key in a cache that is not full, or that holds an expired entry, keeps every
/// entry under another key that is alive at the store readable right after it.
pub proof fn law_store_keeps_live_entries(
    c0: MemoryCacheView,
    key: Seq<char>,
    result: ResultView,
    ttl_ns: nat,
    now: nat,
    k: Seq<char>,
)
    requires
        entry_keys(c0.entries).no_duplicates(),
        c0.entries.len() <= c0.config.max_entries,
        c0.entries.len() < c0.config.max_entries
            || exists|i: int| 0 <= i < c0.entries.len() && expired(#[trigger] c0.entries[i].1, now),
        k != key,
        live_result(c0.entries, k, now) is Some,
    ensures
        live_result(stored_in(c0, key, result, ttl_ns, now).entries, k, now) == live_result(c0.entries, k, now),
{
    let s = c0.entries;
    let max = c0.config.max_entries as nat;
    let t = unexpired(s, now);
    let ks = entry_keys(s);
    let i = ks.index_of(k);
    assert(ks[i] == k);
    assert(s[i].0 == k);
    lemma_live_at(s, i, now);
    assert(!expired(s[i].1, now));
    lemma_unexpired_keys_distinct(s, now);
    law_cleanup_keeps_live(s, now);
    let u = make_room(s, max, now);
    if s.len() >= max {
        let x = choose|x: int| 0 <= x < s.len() && expired(#[trigger] s[x].1, now);
        lemma_unexpired_shorter(s, now, x);
        assert(u == t);
    } else {
        assert(u == s);
    }
    assert(u.contains(s[i]));
    let j = choose|j: int| 0 <= j < u.len() && u[j] == s[i];
    assert(entry_keys(u).no_duplicates());
    lemma_put_keeps_other(u, key, EntryView { result, created_ns: now, ttl_ns }, j);
    let u2 = put(u, key, EntryView { result, created_ns: now, ttl_ns });
    lemma_live_at(u2, j, now);
}

/// After its entry is removed, a key reads as missing at any time.
pub proof fn law_removed_is_missing(s: Seq<(Seq<char>, EntryView)>, key: Seq<char>, later: nat)
    requires
        !entry_keys(s).contains(key),
    ensures
        live_result(s, key, later) is None,
{
}

/// What cleaning up at `now` keeps is alive at `now`, and nothing alive is lost.
pub proof fn law_cleanup_keeps_live(s: Seq<(Seq<char>, EntryView)>, now: nat)
    ensures
        forall|i: int| 0 <= i < unexpired(s, now).len() ==> !expired(#[trigger] unexpired(s, now)[i].1, now),
        forall|i: int| 0 <= i < s.len() && !expired(#[trigger] s[i].1, now) ==> unexpired(s, now).contains(s[i]),
    decreases s.len(),
{
    if s.len() > 0 {
        let d = s.drop_last();
        law_cleanup_keeps_live(d, now);
        let u = unexpired(d, now);
        assert forall|i: int| 0 <= i < s.len() && !expired(#[trigger] s[i].1, now) implies unexpired(s, now).contains(s[i]) by {
            if i < s.len() - 1 {
                assert(s[i] == d[i]);
                assert(u.contains(d[i]));
                let j = choose|j: int| 0 <= j < u.len() && u[j] == d[i];
                assert(unexpired(s, now)[j] == u[j]);
            } else {
                assert(unexpired(s, now)[u.len() as int] == s.last());
            }
        }
    }
}

/// A cache that holds at most `max` entries (with `max` at least 1) still does
/// after a store.
pub proof fn law_set_keeps_bound(s: Seq<(Seq<char>, EntryView)>, max: nat, now: nat, key: Seq<char>, e: EntryView)
    requires
        entry_keys(s).no_duplicates(),
        s.len() <= max,
        max >= 1,
    ensures
        put(make_room(s, max, now), key, e).len() <= max,
{
    lemma_unexpired_keys_distinct(s, now);
}

/// `s` with `x` placed before the first pair whose key comes after its own.
pub open spec fn insert_sorted(s: Seq<(Seq<char>, Seq<char>)>, x: (Seq<char>, Seq<char>)) -> Seq<(Seq<char>, Seq<char>)>
    decreases s.len(),
{
    if s.len() == 0 {
        seq![x]
    } else if seq_lt(x.0, s[0].0) {
        seq![x] + s
    } else {
        seq![s[0]] + insert_sorted(s.drop_first(), x)
    }
}

/// The pairs ordered by key (a stable insertion sort).
pub open spec fn sort_by_key(s: Seq<(Seq<char>, Seq<char>)>) -> Seq<(Seq<char>, Seq<char>)>
    decreases s.len(),
{
    if s.len() == 0 {
        s
    } else {
        insert_sorted(sort_by_key(s.drop_last()), s.last())
    }
}

/// `:key=value` for each pair, in order.
pub open spec fn params_suffix(s: Seq<(Seq<char>, Seq<char>)>) -> Seq<char>
    decreases s.len(),
{
    if s.len() == 0 {
        Seq::empty()
    } else {
        params_suffix(s.drop_last()) + ":"@ + s.last().0 + "="@ + s.last().1
    }
}

/// The cache key of a search: `engine:query:page`, then `:key=value` for each
/// parameter in order of keys.
pub open spec fn cache_key(engine: Seq<char>, query: Seq<char>, page: nat,
    params: Option<Seq<(Seq<char>, Seq<char>)>>) -> Seq<char> {
    engine + ":"@ + query + ":"@ + decimal(page) + match params {
        Some(p) => params_suffix(sort_by_key(p)),
        None => Seq::empty(),
    }
}

proof fn lemma_insert_sorted_at(s: Seq<(Seq<char>, Seq<char>)>, x: (Seq<char>, Seq<char>), p: int)
    requires
        0 <= p <= s.len(),
        forall|j: int| 0 <= j < p ==> !seq_lt(x.0, #[trigger] s[j].0),
        p < s.len() ==> seq_lt(x.0, s[p].0),
    ensures
        insert_sorted(s, x) == s.insert(p, x),
    decreases s.len(),
{
    if s.len() == 0 {
        assert(s.insert(p, x) =~= seq![x]);
    } else if p == 0 {
        assert(s.insert(0, x) =~= seq![x] + s);
    } else {
        assert(!seq_lt(x.0, s[0].0));
        let t = s.drop_first();
        assert forall|j: int| 0 <= j < p - 1 implies !seq_lt(x.0, #[trigger] t[j].0) by {
            assert(t[j] == s[j + 1]);
        }
        lemma_insert_sorted_at(t, x, p - 1);
        assert(seq![s[0]] + t.insert(p - 1, x) =~= s.insert(p, x));
    }
}

/// The pairs of `m` ordered by key.
fn sorted_pairs(m: &StringMap) -> (r: Vec<(String, String)>)
    ensures
        r@.map_values(|e: (String, String)| (e.0@, e.1@)) == sort_by_key(m@),
{
    let mut r: Vec<(String, String)> = Vec::new();
    let n = m.len();
    let mut i: usize = 0;
    assert(m@.take(0) =~= Seq::<(Seq<char>, Seq<char>)>::empty());
    while i < n
        invariant
            n == m@.len(),
            i <= n,
            r@.map_values(|e: (String, String)| (e.0@, e.1@)) == sort_by_key(m@.take(i as int)),
        decreases n - i,
    {
        let (k, v) = m.entry(i);
        let ghost sv = r@.map_values(|e: (String, String)| (e.0@, e.1@));
        let ghost x = (k@, v@);
        let mut p: usize = 0;
        while p < r.len() && !str_lt(k.as_str(), r[p].0.as_str())
            invariant
                p <= r.len(),
                x == (k@, v@),
                sv == r@.map_values(|e: (String, String)| (e.0@, e.1@)),
                forall|j: int| 0 <= j < p ==> !seq_lt(x.0, #[trigger] sv[j].0),
            decreases r.len() - p,
        {
            p = p + 1;
        }
        proof {
            lemma_insert_sorted_at(sv, x, p as int);
            assert(m@.take(i + 1).drop_last() =~= m@.take(i as int));
            assert(m@.take(i + 1).last() == x);
        }
        let ghost raw = r@;
        r.insert(p, (owned(k.as_str()), owned(v.as_str())));
        assert(r@.map_values(|e: (String, String)| (e.0@, e.1@)) =~= sv.insert(p as int, x));
        i = i + 1;
    }
    assert(m@.take(i as int) =~= m@);
    r
}

impl MemoryCache {
    /// The cache key of a search: `engine_name:query:page`, then `:key=value` for
    /// each parameter in order of keys.
    pub fn generate_key(engine_name: &str, query: &str, page: usize, params: Option<&StringMap>) -> (k: String)
        ensures
            k@ == cache_key(engine_name@, query@, page as nat, match params {
                Some(p) => Some(p@),
                None => None,
            }),
    {
        let mut key = owned(engine_name);
        key.append(":");
        key.append(query);
        key.append(":");
        let d = usize_to_decimal(page);
        key.append(d.as_str());
        let ghost head = key@;
        match params {
            Some(p) => {
                let sorted = sorted_pairs(p);
                let ghost sv = sorted@.map_values(|e: (String, String)| (e.0@, e.1@));
                let mut i: usize = 0;
                assert(sv.take(0) =~= Seq::<(Seq<char>, Seq<char>)>::empty());
                while i < sorted.len()
                    invariant
                        i <= sorted.len(),
                        sv == sorted@.map_values(|e: (String, String)| (e.0@, e.1@)),
                        key@ == head + params_suffix(sv.take(i as int)),
                    decreases sorted.len() - i,
                {
                    key.append(":");
                    key.append(sorted[i].0.as_str());
                    key.append("=");
                    key.append(sorted[i].1.as_str());
                    assert(sv.take(i + 1).drop_last() =~= sv.take(i as int));
                    i = i + 1;
                }
                assert(sv.take(i as int) =~= sv);
            },
            None => {
                assert(key@ =~= head + Seq::<char>::empty());
            },
        }
        key
    }
}

impl Default for MemoryCache {
    fn default() -> (c: Self)
        ensures
            c.wf(),
            c@.config.default_ttl_secs == 300,
            c@.config.max_entries == 1000,
            c@.config.enabled,
            c@.entries.len() == 0,
    {
        Self::new(CacheConfig::default())
    }
}

} // verus!
