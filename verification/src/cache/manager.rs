//! The persistent cache over `sled`: values by scope and key, with metadata
//! (lifetime, accesses, size, scope) kept beside them, counters and latencies.
//!
//! A scope `top.a.b` stores key `k` in the tree `top` under `a.b.k` (a scope
//! without a dot stores `k` itself); the metadata of every entry lives in the
//! tree `cache_metadata`, under the same stored key.
use vstd::prelude::*;
use std::time::{Duration, Instant};
use crate::cache::codec::{StoredMeta, StoredMetaView, decode_meta, decoding, encode_meta, encoding, law_metadata_roundtrip};
use crate::cache::stats::{HotKeys, LatencyCounter, bumped, forgotten, wrap_add};
use crate::cache::store::{db_flush, db_len, db_size_on_disk, open_db, open_tree, tree_clear, tree_contents,
    tree_entries, tree_get, tree_insert, tree_prefix_keys, tree_remove};
use crate::cache::types::{CacheEntryMetadata, CacheImplConfig, CacheMode, CacheStats, expiry};
use crate::clock::{clamped_secs, duration_as_nanos, duration_secs, instant_now, nanos_between, unix_secs};
use crate::text::{concat2, concat3, owned, str_eq};

verus! {

/// An error of the persistent cache.
#[derive(Debug, Clone)]
pub enum CacheError {
    /// The database failed.
    DatabaseError(String),
    /// Stored data could not be read back.
    SerializationError(String),
    /// No such key.
    KeyNotFound(String),
    /// The cache is switched off.
    CacheDisabled,
    /// The cache is full.
    CacheFull,
    /// The entry has expired.
    EntryExpired,
}

impl CacheError {
    /// The message of the error.
    pub open spec fn message(&self) -> Seq<char> {
        match self {
            CacheError::DatabaseError(m) => "数据库错误: "@ + m@,
            CacheError::SerializationError(m) => "序列化错误: "@ + m@,
            CacheError::KeyNotFound(m) => "键不存在: "@ + m@,
            CacheError::CacheDisabled => "缓存已禁用"@,
            CacheError::CacheFull => "缓存已满，无法写入新数据"@,
            CacheError::EntryExpired => "缓存条目已过期"@,
        }
    }

    /// The message of the error.
    pub fn to_string(&self) -> (s: String)
        ensures
            s@ == self.message(),
    {
        match self {
            CacheError::DatabaseError(m) => concat2("数据库错误: ", m.as_str()),
            CacheError::SerializationError(m) => concat2("序列化错误: ", m.as_str()),
            CacheError::KeyNotFound(m) => concat2("键不存在: ", m.as_str()),
            CacheError::CacheDisabled => owned("缓存已禁用"),
            CacheError::CacheFull => owned("缓存已满，无法写入新数据"),
            CacheError::EntryExpired => owned("缓存条目已过期"),
        }
    }
}

/// The name of the tree that holds metadata.
pub open spec fn meta_tree() -> Seq<char> {
    "cache_metadata"@
}

/// The page cache size and flush interval (ms) of the database for a mode.
pub open spec fn db_settings(mode: CacheMode) -> (u64, u64) {
    match mode {
        CacheMode::LowLatency => (134217728u64, 1000u64),
        CacheMode::HighThroughput => (67108864u64, 5000u64),
        CacheMode::LowMemory => (16777216u64, 10000u64),
    }
}

/// The page cache size and flush interval (ms) of the database for a mode: more
/// cache and frequent flushes for low latency, less of both for low memory.
pub fn database_settings(mode: CacheMode) -> (r: (u64, u64))
    ensures
        r == db_settings(mode),
{
    match mode {
        CacheMode::LowLatency => (134217728u64, 1000u64),
        CacheMode::HighThroughput => (67108864u64, 5000u64),
        CacheMode::LowMemory => (16777216u64, 10000u64),
    }
}

/// The tree and stored key of `key` in `scope`.
pub open spec fn scope_parts(scope: Seq<char>, key: Seq<char>) -> (Seq<char>, Seq<char>) {
    if scope.contains('.') {
        let i = scope.index_of_first('.')->0;
        (scope.subrange(0, i), scope.subrange(i + 1, scope.len() as int) + "."@ + key)
    } else {
        (scope, key)
    }
}

/// The tree of a scope and the prefix of the stored keys of the scope.
pub open spec fn scope_prefix(scope: Seq<char>) -> (Seq<char>, Seq<char>) {
    if scope.contains('.') {
        let i = scope.index_of_first('.')->0;
        (scope.subrange(0, i), scope.subrange(i + 1, scope.len() as int) + "."@)
    } else {
        (scope, Seq::empty())
    }
}

/// The bytes of a key.
pub open spec fn key_bytes(s: Seq<char>) -> Seq<u8> {
    vstd::utf8::encode_utf8(s)
}

/// The position of the first `.` of `s`, if any.
fn first_dot(s: &str) -> (r: Option<usize>)
    ensures
        match r {
            Some(i) => s@.contains('.') && i == s@.index_of_first('.')->0 && i < s@.len(),
            None => !s@.contains('.'),
        },
{
    let n = s.unicode_len();
    let mut i: usize = 0;
    while i < n
        invariant
            n == s@.len(),
            i <= n,
            forall|j: int| 0 <= j < i ==> s@[j] != '.',
        decreases n - i,
    {
        if s.get_char(i) == '.' {
            proof {
                s@.index_of_first_ensures('.');
                assert(s@.contains('.'));
                let f = s@.index_of_first('.')->0;
                assert(f == i) by {
                    if f < i {} else if f > i {}
                }
            }
            return Some(i);
        }
        i = i + 1;
    }
    assert(!s@.contains('.'));
    None
}

/// The tree and stored key of `key` in `scope`.
pub fn parse_scope(scope: &str, key: &str) -> (r: (String, String))
    ensures
        r.0@ == scope_parts(scope@, key@).0,
        r.1@ == scope_parts(scope@, key@).1,
{
    match first_dot(scope) {
        Some(i) => {
            let n = scope.unicode_len();
            let top = owned(scope.substring_char(0, i));
            let mut full = owned(scope.substring_char(i + 1, n));
            full.append(".");
            full.append(key);
            (top, full)
        },
        None => (owned(scope), owned(key)),
    }
}

/// The tree of a scope and the prefix of its stored keys.
pub fn parse_scope_prefix(scope: &str) -> (r: (String, String))
    ensures
        r.0@ == scope_prefix(scope@).0,
        r.1@ == scope_prefix(scope@).1,
{
    match first_dot(scope) {
        Some(i) => {
            let n = scope.unicode_len();
            let top = owned(scope.substring_char(0, i));
            let mut prefix = owned(scope.substring_char(i + 1, n));
            prefix.append(".");
            (top, prefix)
        },
        None => (owned(scope), String::new()),
    }
}

/// The names of held trees.
pub open spec fn tree_names(v: Seq<(String, sled::Tree)>) -> Seq<Seq<char>> {
    v.map_values(|e: (String, sled::Tree)| e.0@)
}

/// The decoded metadata under `k` in the metadata tree `meta`, if any.
pub open spec fn decoding_at(meta: Map<Seq<u8>, Seq<u8>>, k: Seq<u8>) -> Option<StoredMetaView> {
    if meta.contains_key(k) { decoding(meta[k]) } else { None }
}

/// The held trees by name.
pub open spec fn trees_map(v: Seq<(String, sled::Tree)>) -> Map<Seq<char>, Map<Seq<u8>, Seq<u8>>> {
    Map::new(|n: Seq<char>| tree_names(v).contains(n), |n: Seq<char>| tree_contents(v[tree_names(v).index_of(n)].1))
}

proof fn lemma_trees_index(v: Seq<(String, sled::Tree)>, i: int)
    requires
        tree_names(v).no_duplicates(),
        0 <= i < v.len(),
    ensures
        trees_map(v).contains_key(v[i].0@),
        trees_map(v)[v[i].0@] == tree_contents(v[i].1),
{
    let ns = tree_names(v);
    assert(ns[i] == v[i].0@);
    assert(ns.contains(v[i].0@));
    let k = ns.index_of(v[i].0@);
    assert(ns[k] == v[i].0@);
}

proof fn lemma_trees_update(v: Seq<(String, sled::Tree)>, i: int, t: sled::Tree)
    requires
        tree_names(v).no_duplicates(),
        0 <= i < v.len(),
    ensures
        tree_names(v.update(i, (v[i].0, t))) == tree_names(v),
        trees_map(v.update(i, (v[i].0, t))) == trees_map(v).insert(v[i].0@, tree_contents(t)),
{
    let w = v.update(i, (v[i].0, t));
    assert(tree_names(w) =~= tree_names(v));
    let ns = tree_names(v);
    assert forall|n: Seq<char>| #[trigger] trees_map(w).contains_key(n) == trees_map(v).insert(v[i].0@, tree_contents(t)).contains_key(n) by {
        if n == v[i].0@ {
            assert(ns[i] == n);
        }
    }
    assert forall|n: Seq<char>| trees_map(w).contains_key(n) implies
        #[trigger] trees_map(w)[n] == trees_map(v).insert(v[i].0@, tree_contents(t))[n] by {
        let k = ns.index_of(n);
        assert(ns[k] == n);
        if n == v[i].0@ {
            assert(ns[i] == n);
            assert(k == i);
        } else {
            assert(k != i);
        }
    }
    assert(trees_map(w) =~= trees_map(v).insert(v[i].0@, tree_contents(t)));
}

proof fn lemma_trees_push(v: Seq<(String, sled::Tree)>, name: String, t: sled::Tree)
    requires
        tree_names(v).no_duplicates(),
        !tree_names(v).contains(name@),
    ensures
        tree_names(v.push((name, t))) == tree_names(v).push(name@),
        tree_names(v.push((name, t))).no_duplicates(),
        trees_map(v.push((name, t))) == trees_map(v).insert(name@, tree_contents(t)),
{
    let w = v.push((name, t));
    let ns = tree_names(v);
    assert(tree_names(w) =~= ns.push(name@));
    let nw = tree_names(w);
    assert forall|a: int, b: int| 0 <= a < b < nw.len() implies nw[a] != nw[b] by {
        if b == nw.len() - 1 {
            assert(nw[a] == ns[a]);
        } else {
            assert(nw[a] == ns[a]);
            assert(nw[b] == ns[b]);
        }
    }
    assert forall|n: Seq<char>| #[trigger] trees_map(w).contains_key(n) == trees_map(v).insert(name@, tree_contents(t)).contains_key(n) by {
        if n == name@ {
            assert(nw[v.len() as int] == n);
        } else if nw.contains(n) {
            let k = choose|k: int| 0 <= k < nw.len() && nw[k] == n;
            assert(ns[k] == n);
        } else if ns.contains(n) {
            let k = choose|k: int| 0 <= k < ns.len() && ns[k] == n;
            assert(nw[k] == n);
        }
    }
    assert forall|n: Seq<char>| trees_map(w).contains_key(n) implies
        #[trigger] trees_map(w)[n] == trees_map(v).insert(name@, tree_contents(t))[n] by {
        let k = nw.index_of(n);
        assert(nw[k] == n);
        if n == name@ {
            assert(nw[v.len() as int] == n);
            assert(k == v.len());
        } else {
            assert(k < v.len());
            assert(ns[k] == n);
            let k2 = ns.index_of(n);
            assert(ns[k2] == n);
            assert(k2 == k);
        }
    }
    assert(trees_map(w) =~= trees_map(v).insert(name@, tree_contents(t)));
}

/// `new` holds the trees of `old` unchanged and `name` besides, opened when it
/// was not held before.
pub open spec fn opened(old: Map<Seq<char>, Map<Seq<u8>, Seq<u8>>>, new: Map<Seq<char>, Map<Seq<u8>, Seq<u8>>>, name: Seq<char>) -> bool {
    &&& new.contains_key(name)
    &&& forall|n: Seq<char>| #[trigger] old.contains_key(n) ==> new.contains_key(n) && new[n] == old[n]
    &&& forall|n: Seq<char>| #[trigger] new.contains_key(n) ==> old.contains_key(n) || n == name
}

/// `new` is `old` with at most the held tree `name` changed.
pub open spec fn retouched(old: Map<Seq<char>, Map<Seq<u8>, Seq<u8>>>, new: Map<Seq<char>, Map<Seq<u8>, Seq<u8>>>, name: Seq<char>) -> bool {
    &&& old.contains_key(name)
    &&& new == old.insert(name, new[name])
}

/// The stored key of `key` in `scope`, as bytes.
pub open spec fn stored_key(scope: Seq<char>, key: Seq<char>) -> Seq<u8> {
    key_bytes(scope_parts(scope, key).1)
}

/// The tree that holds `key` of `scope`.
pub open spec fn stored_tree(scope: Seq<char>, key: Seq<char>) -> Seq<char> {
    scope_parts(scope, key).0
}

/// The name under which accesses of `key` in `scope` are counted.
pub open spec fn hot_name(scope: Seq<char>, key: Seq<char>) -> Seq<char> {
    scope + ":"@ + key
}

/// Whether metadata has expired at `now`.
pub open spec fn expired_at(m: CacheEntryMetadata, now: u64) -> bool {
    m.expires_at matches Some(e) && now >= e
}

/// The value of `k` in tree `name` of the trees `t`, if the tree is held and has it.
pub open spec fn value_in(t: Map<Seq<char>, Map<Seq<u8>, Seq<u8>>>, name: Seq<char>, k: Seq<u8>) -> Option<Seq<u8>> {
    if t.contains_key(name) && t[name].contains_key(k) { Some(t[name][k]) } else { None }
}

/// Metadata after a read at `now`: one more access (the count stops at its
/// largest value), read at `now`.
pub open spec fn touched(m: StoredMetaView, now: u64) -> StoredMetaView {
    StoredMetaView {
        meta: CacheEntryMetadata {
            access_count: if m.meta.access_count < u64::MAX { (m.meta.access_count + 1) as u64 } else { u64::MAX },
            last_accessed_at: now,
            ..m.meta
        },
        ..m
    }
}

proof fn lemma_retouched_same(t: Map<Seq<char>, Map<Seq<u8>, Seq<u8>>>, n: Seq<char>)
    requires
        t.contains_key(n),
    ensures
        retouched(t, t, n),
{
    assert(t =~= t.insert(n, t[n]));
}

/// What a successful read of `key` in `scope` at `now` gives: nothing without
/// metadata or once expired, else the stored value in the trees `data`.
pub open spec fn read_outcome(before: ManagerView, data: Map<Seq<char>, Map<Seq<u8>, Seq<u8>>>, scope: Seq<char>, key: Seq<char>, now: u64) -> Option<Seq<u8>> {
    let k = stored_key(scope, key);
    match decoding_at(before.meta(), k) {
        Some(m) => if expired_at(m.meta, now) { None } else { value_in(data, stored_tree(scope, key), k) },
        None => None,
    }
}

/// The trees a read of `key` in `scope` takes its value from: those before the
/// read when the value lives in the metadata tree (which the read itself may
/// change), else those after it (where a tree opened by the read is held).
pub open spec fn read_data(before: ManagerView, after: ManagerView, scope: Seq<char>, key: Seq<char>) -> Map<Seq<char>, Map<Seq<u8>, Seq<u8>>> {
    if stored_tree(scope, key) == meta_tree() { before.trees } else { after.trees }
}

/// The held trees `new` keep those of `old` (the metadata tree aside, which
/// may change) and add at most the tree `top`.
pub open spec fn keeps_data(old: Map<Seq<char>, Map<Seq<u8>, Seq<u8>>>, new: Map<Seq<char>, Map<Seq<u8>, Seq<u8>>>, top: Seq<char>) -> bool {
    &&& forall|n: Seq<char>| #[trigger] old.contains_key(n) ==> new.contains_key(n)
    &&& forall|n: Seq<char>| #[trigger] old.contains_key(n) && n != meta_tree() ==> new[n] == old[n]
    &&& forall|n: Seq<char>| #[trigger] new.contains_key(n) ==> old.contains_key(n) || n == top
}

/// The view of bytes that may be absent.
pub open spec fn opt_bytes(v: Option<Vec<u8>>) -> Option<Seq<u8>> {
    match v {
        Some(x) => Some(x@),
        None => None,
    }
}

/// The settings of `b` are those of `a`.
pub open spec fn same_settings(a: ManagerView, b: ManagerView) -> bool {
    &&& b.db_path == a.db_path
    &&& b.mode == a.mode
    &&& b.compression == a.compression
    &&& b.enabled == a.enabled
    &&& b.default_ttl_secs == a.default_ttl_secs
    &&& b.max_size_bytes == a.max_size_bytes
}

/// The nanoseconds since `start`, cut to 64 bits.
fn since(start: &Instant) -> (r: u64) {
    let n = nanos_between(start, &instant_now());
    n as u64
}

/// Whether the cleanup at `now` removes key `k` of tree `n`: the metadata under
/// `k` has expired and names a scope whose top tree is `n`.
pub open spec fn doomed(before: ManagerView, n: Seq<char>, k: Seq<u8>, now: u64) -> bool {
    decoding_at(before.meta(), k) matches Some(m) && expired_at(m.meta, now) && scope_prefix(m.scope).0 == n
}

/// The data trees of `after` (all but the metadata tree) hold what those of
/// `before` held, less keys for which `gone` holds.
pub open spec fn data_kept_but(before: ManagerView, after: ManagerView, gone: spec_fn(Seq<char>, Seq<u8>) -> bool) -> bool {
    &&& forall|n: Seq<char>| #[trigger] before.trees.contains_key(n) ==> after.trees.contains_key(n)
    &&& forall|n: Seq<char>, k: Seq<u8>| before.trees.contains_key(n) && n != meta_tree() && !gone(n, k)
        ==> #[trigger] value_in(after.trees, n, k) == value_in(before.trees, n, k)
    &&& forall|n: Seq<char>, k: Seq<u8>| before.trees.contains_key(n) && n != meta_tree() && #[trigger] value_in(after.trees, n, k) is Some
        ==> value_in(after.trees, n, k) == value_in(before.trees, n, k)
}

/// The counters and counts of `b` are those of `a`, evictions aside.
pub open spec fn same_counts(a: ManagerView, b: ManagerView) -> bool {
    &&& b.hits == a.hits
    &&& b.misses == a.misses
    &&& b.writes == a.writes
    &&& b.deletes == a.deletes
    &&& b.hot_keys == a.hot_keys
    &&& b.get_latency == a.get_latency
    &&& b.set_latency == a.set_latency
    &&& b.delete_latency == a.delete_latency
}

proof fn lemma_wrap_step(a: u64, c: u64)
    requires
        c < u64::MAX,
    ensures
        wrap_add(wrap_add(a, c), 1) == wrap_add(a, (c + 1) as u64),
{
}

/// The metadata a write at `now` of `size` bytes to `scope` stores, for an
/// entry that lives `ttl_secs` seconds.
pub open spec fn entry_meta(scope: Seq<char>, size: usize, ttl_secs: u64, now: u64) -> StoredMetaView {
    StoredMetaView {
        meta: CacheEntryMetadata {
            created_at: now,
            expires_at: expiry(now, Some(ttl_secs)),
            access_count: 0,
            last_accessed_at: now,
            size_bytes: size,
        },
        scope,
    }
}

/// The cache `v` holds `value` under `key` of `scope`, written at `now` to live
/// `ttl_secs` seconds: its metadata, and the value itself unless the scope's
/// top tree is the metadata tree (where the metadata takes the value's place).
pub open spec fn written(v: ManagerView, scope: Seq<char>, key: Seq<char>, value: Seq<u8>, ttl_secs: u64, now: u64) -> bool {
    let k = stored_key(scope, key);
    &&& v.trees.contains_key(meta_tree())
    &&& v.meta().contains_key(k)
    &&& v.meta()[k] == encoding(entry_meta(scope, value.len() as usize, ttl_secs, now))
    &&& stored_tree(scope, key) != meta_tree() ==> value_in(v.trees, stored_tree(scope, key), k) == Some(value)
}

/// The data trees of `after` hold no entry that those of `before` did not
/// hold, the entry `k` of tree `top` aside.
pub open spec fn adds_at_most(before: ManagerView, after: ManagerView, top: Seq<char>, k: Seq<u8>) -> bool {
    &&& forall|n: Seq<char>| #[trigger] before.trees.contains_key(n) ==> after.trees.contains_key(n)
    &&& forall|n: Seq<char>, k0: Seq<u8>| before.trees.contains_key(n) && n != meta_tree() && !(n == top && k0 == k)
        && #[trigger] value_in(after.trees, n, k0) is Some ==> value_in(after.trees, n, k0) == value_in(before.trees, n, k0)
}

/// The data trees of `after` hold what those of `before` held, the entry `k`
/// of tree `top` aside.
pub open spec fn data_same_but(before: ManagerView, after: ManagerView, top: Seq<char>, k: Seq<u8>) -> bool {
    &&& forall|n: Seq<char>| #[trigger] before.trees.contains_key(n) ==> after.trees.contains_key(n)
    &&& forall|n: Seq<char>, k0: Seq<u8>| before.trees.contains_key(n) && n != meta_tree() && !(n == top && k0 == k)
        ==> #[trigger] value_in(after.trees, n, k0) == value_in(before.trees, n, k0)
}

/// The texts of `keys`.
pub open spec fn str_views(keys: Seq<&str>) -> Seq<Seq<char>> {
    keys.map_values(|k: &str| k@)
}

/// The stored keys of `keys` in `scope`.
pub open spec fn stored_keys(scope: Seq<char>, keys: Seq<Seq<char>>) -> Set<Seq<u8>> {
    keys.map_values(|k: Seq<char>| stored_key(scope, k)).to_set()
}

/// The stored keys of `keys` in `scope` that the tree `t` holds, each once.
pub open spec fn held_keys(t: Map<Seq<u8>, Seq<u8>>, scope: Seq<char>, keys: Seq<Seq<char>>) -> Set<Seq<u8>> {
    stored_keys(scope, keys).filter(|k: Seq<u8>| t.contains_key(k))
}

proof fn lemma_held_step(t: Map<Seq<u8>, Seq<u8>>, scope: Seq<char>, pre: Seq<Seq<char>>, key: Seq<char>)
    ensures
        stored_keys(scope, pre.push(key)) == stored_keys(scope, pre).insert(stored_key(scope, key)),
        held_keys(t, scope, pre).finite(),
        held_keys(t, scope, pre.push(key)).len() == held_keys(t, scope, pre).len() + (
            if t.contains_key(stored_key(scope, key)) && !stored_keys(scope, pre).contains(stored_key(scope, key)) { 1int } else { 0int }),
{
    let f = |k: Seq<char>| stored_key(scope, k);
    let sk = stored_key(scope, key);
    assert(pre.push(key).map_values(f) =~= pre.map_values(f).push(sk));
    pre.map_values(f).lemma_push_to_set_commute(sk);
    vstd::seq_lib::seq_to_set_is_finite(pre.map_values(f));
    let s = stored_keys(scope, pre);
    s.lemma_len_filter(|k: Seq<u8>| t.contains_key(k));
    let h = held_keys(t, scope, pre);
    if t.contains_key(sk) && !s.contains(sk) {
        assert(held_keys(t, scope, pre.push(key)) =~= h.insert(sk));
        vstd::set::axiom_set_insert_len(h, sk);
    } else {
        assert(held_keys(t, scope, pre.push(key)) =~= h);
    }
}

/// Whether removing the keys of tree `top` under `prefix` from `before`, leaving
/// `after`, listed and removed the keys `ks`: `ks` are keys under `prefix`, each
/// once, of the tree (as it was held before, when it was), every key under
/// `prefix` of the tree held before is among them, and the tree is left with no
/// key under `prefix`.
pub open spec fn scope_swept(
    before: ManagerView,
    after: ManagerView,
    top: Seq<char>,
    prefix: Seq<u8>,
    ks: Seq<Seq<u8>>,
) -> bool {
    &&& ks.no_duplicates()
    &&& forall|a: int| 0 <= a < ks.len() ==> prefix.is_prefix_of(#[trigger] ks[a])
        && (before.trees.contains_key(top) ==> before.trees[top].contains_key(ks[a]))
    &&& before.trees.contains_key(top) ==> forall|k: Seq<u8>| #[trigger] before.trees[top].contains_key(k)
        && prefix.is_prefix_of(k) ==> ks.contains(k)
    &&& forall|k: Seq<u8>| prefix.is_prefix_of(k) ==> !#[trigger] after.trees[top].contains_key(k)
}

/// The lifetime `ttl_secs`, or `default` when there is none.
pub open spec fn ttl_or(ttl_secs: Option<u64>, default: u64) -> u64 {
    match ttl_secs {
        Some(t) => t,
        None => default,
    }
}

/// Whether `trace` holds, for each of `items` in order, the cache right after
/// that item was written to `scope` at `now` to live `ttl_secs` seconds.
pub open spec fn batch_written(
    trace: Seq<ManagerView>,
    scope: Seq<char>,
    items: Seq<(String, Vec<u8>)>,
    ttl_secs: u64,
    now: u64,
) -> bool {
    &&& trace.len() == items.len()
    &&& forall|i: int| 0 <= i < trace.len() ==> written(#[trigger] trace[i], scope, items[i].0@, items[i].1@, ttl_secs, now)
}

/// Whether the read of `key` in `scope` at `now` that a conditional write makes
/// on `before` gave the value `c` and the metadata `m`, leaving the cache as
/// `mid`: `c` is what `get_at` reads, `m` the stored metadata of the key, and the
/// read changed no counter but hits and misses, no latency but that of reads,
/// and no data tree but by opening the key's tree.
pub open spec fn consulted(
    before: ManagerView,
    mid: ManagerView,
    scope: Seq<char>,
    key: Seq<char>,
    now: u64,
    c: Option<Vec<u8>>,
    m: Option<StoredMeta>,
) -> bool {
    &&& opt_bytes(c) == read_outcome(before, read_data(before, mid, scope, key), scope, key, now)
    &&& match m {
        Some(x) => decoding_at(mid.meta(), stored_key(scope, key)) == Some(x@),
        None => !mid.meta().contains_key(stored_key(scope, key)),
    }
    &&& same_settings(before, mid)
    &&& mid.writes == before.writes
    &&& mid.deletes == before.deletes
    &&& mid.evictions == before.evictions
    &&& mid.set_latency == before.set_latency
    &&& mid.delete_latency == before.delete_latency
    &&& keeps_data(before.trees, mid.trees, stored_tree(scope, key))
}

/// A value written is read back until it expires: after a write at `now` that
/// lives `ttl_secs` seconds, a read at any `later` moment before the expiry
/// gives the value, whatever the read itself opened. (A scope whose top tree is
/// the metadata tree is left out: there the metadata takes the value's place.)
pub proof fn law_set_then_get(
    after_set: ManagerView,
    after_get: ManagerView,
    scope: Seq<char>,
    key: Seq<char>,
    value: Seq<u8>,
    ttl_secs: u64,
    now: u64,
    later: u64,
)
    requires
        written(after_set, scope, key, value, ttl_secs, now),
        keeps_data(after_set.trees, after_get.trees, stored_tree(scope, key)),
        stored_tree(scope, key) != meta_tree(),
        later < now + ttl_secs,
        later < u64::MAX,
    ensures
        read_outcome(after_set, read_data(after_set, after_get, scope, key), scope, key, later) == Some(value),
{
    let k = stored_key(scope, key);
    let m = entry_meta(scope, value.len() as usize, ttl_secs, now);
    law_metadata_roundtrip(m);
    assert(decoding_at(after_set.meta(), k) == Some(m));
    assert(!expired_at(m.meta, later));
    let top = stored_tree(scope, key);
    assert(after_set.trees.contains_key(top));
    assert(after_get.trees[top] == after_set.trees[top]);
}

/// A value written stops being read once it has expired: after a write at `now`
/// that lives `ttl_secs` seconds, a read at any `later` moment from `now +
/// ttl_secs` on finds nothing, whatever trees it reads from.
pub proof fn law_written_expires(
    after_set: ManagerView,
    data: Map<Seq<char>, Map<Seq<u8>, Seq<u8>>>,
    scope: Seq<char>,
    key: Seq<char>,
    value: Seq<u8>,
    ttl_secs: u64,
    now: u64,
    later: u64,
)
    requires
        written(after_set, scope, key, value, ttl_secs, now),
        now + ttl_secs <= later,
    ensures
        read_outcome(after_set, data, scope, key, later) is None,
{
    let m = entry_meta(scope, value.len() as usize, ttl_secs, now);
    law_metadata_roundtrip(m);
    assert(decoding_at(after_set.meta(), stored_key(scope, key)) == Some(m));
    assert(expired_at(m.meta, later));
}

/// Every item of a batch written at `now` to live `ttl_secs` seconds was
/// stored with that lifetime: right after its write, a read of it at any moment
/// from `now + ttl_secs` on finds nothing.
pub proof fn law_batch_items_expire(
    trace: Seq<ManagerView>,
    data: Map<Seq<char>, Map<Seq<u8>, Seq<u8>>>,
    scope: Seq<char>,
    items: Seq<(String, Vec<u8>)>,
    ttl_secs: u64,
    now: u64,
    i: int,
    later: u64,
)
    requires
        batch_written(trace, scope, items, ttl_secs, now),
        0 <= i < items.len(),
        now + ttl_secs <= later,
    ensures
        read_outcome(trace[i], data, scope, items[i].0@, later) is None,
{
    law_written_expires(trace[i], data, scope, items[i].0@, items[i].1@, ttl_secs, now, later);
}

/// A removed entry is not read back: after `delete` succeeded, a read finds
/// nothing, whatever the metadata says.
pub proof fn law_delete_then_get(
    after_delete: ManagerView,
    after_get: ManagerView,
    scope: Seq<char>,
    key: Seq<char>,
    later: u64,
)
    requires
        after_delete.trees.contains_key(stored_tree(scope, key)),
        value_in(after_delete.trees, stored_tree(scope, key), stored_key(scope, key)) is None,
        keeps_data(after_delete.trees, after_get.trees, stored_tree(scope, key)),
    ensures
        read_outcome(after_delete, read_data(after_delete, after_get, scope, key), scope, key, later) is None,
{
    let top = stored_tree(scope, key);
    if top != meta_tree() {
        assert(after_get.trees[top] == after_delete.trees[top]);
    }
}

proof fn lemma_encode_append(a: Seq<char>, b: Seq<char>)
    ensures
        key_bytes(a + b) == key_bytes(a) + key_bytes(b),
    decreases a.len(),
{
    if a.len() == 0 {
        assert(a + b =~= b);
        assert(key_bytes(a) =~= Seq::<u8>::empty());
        assert(key_bytes(a) + key_bytes(b) =~= key_bytes(b));
    } else {
        assert((a + b).drop_first() =~= a.drop_first() + b);
        assert((a + b)[0] == a[0]);
        lemma_encode_append(a.drop_first(), b);
        assert(key_bytes(a + b) =~= key_bytes(a) + key_bytes(b));
    }
}

/// The stored key of every key of a scope begins with the prefix of the scope.
proof fn lemma_stored_key_prefixed(scope: Seq<char>, key: Seq<char>)
    ensures
        stored_tree(scope, key) == scope_prefix(scope).0,
        key_bytes(scope_prefix(scope).1).is_prefix_of(stored_key(scope, key)),
{
    let p = scope_prefix(scope).1;
    if scope.contains('.') {
        assert(scope_parts(scope, key).1 == p + key);
        lemma_encode_append(p, key);
        assert((key_bytes(p) + key_bytes(key)).subrange(0, key_bytes(p).len() as int) =~= key_bytes(p));
    } else {
        assert(key_bytes(p) =~= Seq::<u8>::empty());
        assert(stored_key(scope, key).subrange(0, 0) =~= Seq::<u8>::empty());
    }
}

/// After a scope was removed, no key of the scope is read back, at any later
/// time and whatever the read opens.
pub proof fn law_swept_scope_reads_nothing(
    before: ManagerView,
    after: ManagerView,
    after_get: ManagerView,
    scope: Seq<char>,
    key: Seq<char>,
    ks: Seq<Seq<u8>>,
    later: u64,
)
    requires
        after.trees.contains_key(scope_prefix(scope).0),
        scope_swept(before, after, scope_prefix(scope).0, key_bytes(scope_prefix(scope).1), ks),
        keeps_data(after.trees, after_get.trees, stored_tree(scope, key)),
    ensures
        read_outcome(after, read_data(after, after_get, scope, key), scope, key, later) is None,
{
    lemma_stored_key_prefixed(scope, key);
    let top = stored_tree(scope, key);
    assert(!after.trees[top].contains_key(stored_key(scope, key)));
    if top != meta_tree() {
        assert(after_get.trees[top] == after.trees[top]);
    }
}

/// After the cache is cleared, every read misses: without metadata no value is
/// read, whatever the trees still hold.
pub proof fn law_clear_then_get(
    after_clear: ManagerView,
    data: Map<Seq<char>, Map<Seq<u8>, Seq<u8>>>,
    scope: Seq<char>,
    key: Seq<char>,
    later: u64,
)
    requires
        after_clear.meta().dom() == Set::<Seq<u8>>::empty(),
    ensures
        read_outcome(after_clear, data, scope, key, later) is None,
        stale_outcome(after_clear, data, scope, key, later) is None,
{
    assert(!after_clear.meta().dom().contains(stored_key(scope, key)));
}

/// What a successful read of `key` in `scope` at `now` that keeps expired
/// entries gives: nothing without metadata or value, else the stored value in
/// the trees `data` and whether it has expired.
pub open spec fn stale_outcome(before: ManagerView, data: Map<Seq<char>, Map<Seq<u8>, Seq<u8>>>, scope: Seq<char>, key: Seq<char>, now: u64) -> Option<(Seq<u8>, bool)> {
    let k = stored_key(scope, key);
    match decoding_at(before.meta(), k) {
        Some(m) => match value_in(data, stored_tree(scope, key), k) {
            Some(v) => Some((v, expired_at(m.meta, now))),
            None => None,
        },
        None => None,
    }
}

/// The view of a value that may be absent, with its flag.
pub open spec fn opt_flagged(v: Option<(Vec<u8>, bool)>) -> Option<(Seq<u8>, bool)> {
    match v {
        Some((x, b)) => Some((x@, b)),
        None => None,
    }
}

/// Whether `k` of tree `t` lies in the scope whose top tree is `top` and whose
/// stored keys begin with `prefix`.
pub open spec fn in_scope(top: Seq<char>, prefix: Seq<u8>, t: Seq<char>, k: Seq<u8>) -> bool {
    t == top && prefix.is_prefix_of(k)
}

/// Whether the cleanup of `scope` at `now` removes key `k` of tree `n`: it
/// removes what `doomed` names, of entries stored for exactly that scope.
pub open spec fn doomed_in(before: ManagerView, scope: Seq<char>, n: Seq<char>, k: Seq<u8>, now: u64) -> bool {
    doomed(before, n, k, now) && (decoding_at(before.meta(), k) matches Some(m) && m.scope == scope)
}

/// Every tree held in `a` is held in `b`, without any key that it lacked in `a`.
pub open spec fn shrunk(a: ManagerView, b: ManagerView) -> bool {
    forall|n: Seq<char>| #[trigger] a.trees.contains_key(n) ==> b.trees.contains_key(n)
        && forall|k: Seq<u8>| #[trigger] b.trees[n].contains_key(k) ==> a.trees[n].contains_key(k)
}

/// Whether, when the metadata under `k` in `before` has expired at `now`, the
/// tree its scope names is held in `after` without `k`.
pub open spec fn swept(before: ManagerView, after: ManagerView, k: Seq<u8>, now: u64) -> bool {
    match decoding_at(before.meta(), k) {
        Some(m) => expired_at(m.meta, now) ==> gone_from(after, scope_prefix(m.scope).0, k),
        None => true,
    }
}

/// Whether tree `t` is held in `after` without `k`.
pub open spec fn gone_from(after: ManagerView, t: Seq<char>, k: Seq<u8>) -> bool {
    after.trees.contains_key(t) && !after.trees[t].contains_key(k)
}

/// Whether, when the metadata under `k` in `before` has expired at `now` and
/// names exactly `scope`, the top tree of `scope` is held in `after` without `k`.
pub open spec fn swept_in(before: ManagerView, after: ManagerView, scope: Seq<char>, k: Seq<u8>, now: u64) -> bool {
    match decoding_at(before.meta(), k) {
        Some(m) => m.scope == scope && expired_at(m.meta, now) ==> gone_from(after, scope_prefix(scope).0, k),
        None => true,
    }
}

proof fn lemma_shrunk_trans(a: ManagerView, b: ManagerView, c: ManagerView)
    requires
        shrunk(a, b),
        shrunk(b, c),
    ensures
        shrunk(a, c),
{
    assert forall|n: Seq<char>| #[trigger] a.trees.contains_key(n) implies c.trees.contains_key(n)
        && forall|k: Seq<u8>| #[trigger] c.trees[n].contains_key(k) ==> a.trees[n].contains_key(k) by {
        assert(b.trees.contains_key(n));
        assert forall|k: Seq<u8>| #[trigger] c.trees[n].contains_key(k) implies a.trees[n].contains_key(k) by {
            assert(b.trees[n].contains_key(k));
        }
    }
}

proof fn lemma_shrunk_refl(a: ManagerView)
    ensures
        shrunk(a, a),
{
}

proof fn lemma_opened_shrunk(a: ManagerView, b: ManagerView, name: Seq<char>)
    requires
        opened(a.trees, b.trees, name),
    ensures
        shrunk(a, b),
{
    assert forall|n: Seq<char>| #[trigger] a.trees.contains_key(n) implies b.trees.contains_key(n)
        && forall|k: Seq<u8>| #[trigger] b.trees[n].contains_key(k) ==> a.trees[n].contains_key(k) by {
        assert(b.trees[n] == a.trees[n]);
    }
}

proof fn lemma_removed_shrunk(a: ManagerView, b: ManagerView, name: Seq<char>, key: Seq<u8>)
    requires
        retouched(a.trees, b.trees, name),
        b.trees[name] == a.trees[name] || b.trees[name] == a.trees[name].remove(key),
    ensures
        shrunk(a, b),
{
    assert forall|n: Seq<char>| #[trigger] a.trees.contains_key(n) implies b.trees.contains_key(n)
        && forall|k: Seq<u8>| #[trigger] b.trees[n].contains_key(k) ==> a.trees[n].contains_key(k) by {
        if n != name {
            assert(b.trees[n] == a.trees[n]);
        }
    }
}

proof fn lemma_swept_kept(before: ManagerView, a: ManagerView, b: ManagerView, k: Seq<u8>, now: u64)
    requires
        swept(before, a, k, now),
        shrunk(a, b),
    ensures
        swept(before, b, k, now),
{
    if let Some(m) = decoding_at(before.meta(), k) {
        let t = scope_prefix(m.scope).0;
        if expired_at(m.meta, now) {
            assert(a.trees.contains_key(t));
            if b.trees[t].contains_key(k) {
                assert(a.trees[t].contains_key(k));
            }
        }
    }
}

proof fn lemma_swept_in_kept(before: ManagerView, a: ManagerView, b: ManagerView, scope: Seq<char>, k: Seq<u8>, now: u64)
    requires
        swept_in(before, a, scope, k, now),
        shrunk(a, b),
    ensures
        swept_in(before, b, scope, k, now),
{
    if let Some(m) = decoding_at(before.meta(), k) {
        let t = scope_prefix(scope).0;
        if m.scope == scope && expired_at(m.meta, now) {
            assert(a.trees.contains_key(t));
            if b.trees[t].contains_key(k) {
                assert(a.trees[t].contains_key(k));
            }
        }
    }
}

/// The whole seconds of a lifetime, if there is one.
fn ttl_secs_of(ttl: Option<Duration>) -> (r: Option<u64>)
    ensures
        r == ttl_secs_spec(ttl),
{
    match ttl {
        Some(d) => Some(duration_secs(&d)),
        None => None,
    }
}

/// The whole seconds of a lifetime, if there is one, clamped to `u64`.
pub open spec fn ttl_secs_spec(ttl: Option<Duration>) -> Option<u64> {
    match ttl {
        Some(d) => Some(clamped_secs(duration_as_nanos(d))),
        None => None,
    }
}

/// The seconds an entry written with `ttl` lives: those of `ttl`, or `default`
/// when there is none.
pub open spec fn lifetime(ttl: Option<Duration>, default: u64) -> u64 {
    match ttl_secs_spec(ttl) {
        Some(t) => t,
        None => default,
    }
}

/// `after` is `before` cleaned at `now`: the data trees lost at most entries
/// whose metadata had expired.
pub open spec fn cleaned(before: ManagerView, after: ManagerView, now: u64) -> bool {
    data_kept_but(before, after, |t: Seq<char>, k: Seq<u8>| doomed(before, t, k, now))
}

/// `after` is `before` with the expired entries of exactly `scope` cleaned at
/// `now`.
pub open spec fn scope_cleaned(before: ManagerView, after: ManagerView, scope: Seq<char>, now: u64) -> bool {
    data_kept_but(before, after, |t: Seq<char>, k: Seq<u8>| doomed_in(before, scope, t, k, now))
}

/// The cleanup never removes a live entry: an entry whose metadata has not
/// expired at `now` (or that has none) holds the same value after a cleanup at
/// `now`.
pub proof fn law_cleanup_keeps_live(before: ManagerView, after: ManagerView, scope: Seq<char>, key: Seq<char>, now: u64)
    requires
        cleaned(before, after, now),
        before.trees.contains_key(stored_tree(scope, key)),
        stored_tree(scope, key) != meta_tree(),
        decoding_at(before.meta(), stored_key(scope, key)) matches Some(m) ==> !expired_at(m.meta, now),
    ensures
        value_in(after.trees, stored_tree(scope, key), stored_key(scope, key))
            == value_in(before.trees, stored_tree(scope, key), stored_key(scope, key)),
{
    assert(!doomed(before, stored_tree(scope, key), stored_key(scope, key), now));
}

/// What the persistent cache holds.
pub struct ManagerView {
    /// The path of the database.
    pub db_path: Seq<char>,
    /// The trade-off of memory and speed it was opened for.
    pub mode: CacheMode,
    /// Whether data is compressed.
    pub compression: bool,
    /// Whether it is on.
    pub enabled: bool,
    /// Default lifetime in seconds.
    pub default_ttl_secs: u64,
    /// Largest size in bytes.
    pub max_size_bytes: u64,
    /// The open trees by name, `cache_metadata` among them.
    pub trees: Map<Seq<char>, Map<Seq<u8>, Seq<u8>>>,
    /// Hits.
    pub hits: u64,
    /// Misses.
    pub misses: u64,
    /// Writes.
    pub writes: u64,
    /// Deletions.
    pub deletes: u64,
    /// Entries removed on expiry.
    pub evictions: u64,
    /// Access counts of `scope:key`.
    pub hot_keys: Seq<(Seq<char>, u64)>,
    /// Latency of reads.
    pub get_latency: LatencyCounter,
    /// Latency of writes.
    pub set_latency: LatencyCounter,
    /// Latency of deletions.
    pub delete_latency: LatencyCounter,
}

impl ManagerView {
    /// The metadata tree.
    pub open spec fn meta(self) -> Map<Seq<u8>, Seq<u8>> {
        self.trees[meta_tree()]
    }
}

/// The persistent cache.
pub struct CacheManager {
    db: sled::Db,
    trees: Vec<(String, sled::Tree)>,
    config: CacheImplConfig,
    hits: u64,
    misses: u64,
    writes: u64,
    deletes: u64,
    evictions: u64,
    get_latency: LatencyCounter,
    set_latency: LatencyCounter,
    delete_latency: LatencyCounter,
    get_batch_latency: LatencyCounter,
    set_batch_latency: LatencyCounter,
    delete_batch_latency: LatencyCounter,
    hot_keys: HotKeys,
    opened: Ghost<(Seq<char>, (u64, u64))>,
}

impl View for CacheManager {
    type V = ManagerView;

    closed spec fn view(&self) -> ManagerView {
        ManagerView {
            db_path: self.config.db_path@,
            mode: self.config.mode,
            compression: self.config.compression,
            enabled: self.config.enabled,
            default_ttl_secs: self.config.default_ttl_secs,
            max_size_bytes: self.config.max_size_bytes,
            trees: trees_map(self.trees@),
            hits: self.hits,
            misses: self.misses,
            writes: self.writes,
            deletes: self.deletes,
            evictions: self.evictions,
            hot_keys: self.hot_keys@,
            get_latency: self.get_latency,
            set_latency: self.set_latency,
            delete_latency: self.delete_latency,
        }
    }
}

impl CacheManager {
    /// What the database was opened with: its path, and its page cache size and
    /// flush interval.
    pub closed spec fn opened_with(&self) -> (Seq<char>, (u64, u64)) {
        self.opened@
    }

    /// Whether each tree is held once, the metadata tree first.
    pub closed spec fn wf(&self) -> bool {
        &&& tree_names(self.trees@).no_duplicates()
        &&& self.trees@.len() > 0
        &&& self.trees@[0].0@ == meta_tree()
        &&& self.hot_keys.wf()
        &&& self.get_batch_latency == LatencyCounter::fresh()
        &&& self.set_batch_latency == LatencyCounter::fresh()
        &&& self.delete_batch_latency == LatencyCounter::fresh()
    }

    /// Opens the cache: the database at the configured path with the settings of
    /// the configured mode, and its metadata tree.
    pub fn new(config: CacheImplConfig) -> (r: Result<Self, CacheError>)
        ensures
            r matches Ok(m) ==> {
                &&& m.wf()
                &&& m@.db_path == config.db_path@
                &&& m@.mode == config.mode
                &&& m@.compression == config.compression
                &&& m@.enabled == config.enabled
                &&& m@.default_ttl_secs == config.default_ttl_secs
                &&& m@.max_size_bytes == config.max_size_bytes
                &&& m@.trees.dom() == set![meta_tree()]
                &&& m@.hits == 0 && m@.misses == 0 && m@.writes == 0 && m@.deletes == 0 && m@.evictions == 0
                &&& m@.hot_keys.len() == 0
                &&& m@.get_latency == LatencyCounter::fresh()
                &&& m@.set_latency == LatencyCounter::fresh()
                &&& m@.delete_latency == LatencyCounter::fresh()
                &&& m.opened_with() == (config.db_path@, db_settings(config.mode))
            },
            r matches Err(e) ==> e is DatabaseError,
    {
        let (capacity, flush_ms) = database_settings(config.mode);
        let path = config.db_path.as_str();
        let ghost opened = (path@, (capacity, flush_ms));
        let db = match open_db(path, capacity, flush_ms) {
            Ok(db) => db,
            Err(e) => return Err(CacheError::DatabaseError(concat2("打开数据库失败: ", e.as_str()))),
        };
        let meta = match open_tree(&db, "cache_metadata") {
            Ok(t) => t,
            Err(e) => return Err(CacheError::DatabaseError(concat2("打开元数据树失败: ", e.as_str()))),
        };
        let mut trees: Vec<(String, sled::Tree)> = Vec::new();
        proof {
            assert(tree_names(trees@) =~= Seq::<Seq<char>>::empty());
        }
        let name = owned("cache_metadata");
        proof { lemma_trees_push(trees@, name, meta); }
        trees.push((name, meta));
        let m = CacheManager {
            db,
            trees,
            config,
            hits: 0,
            misses: 0,
            writes: 0,
            deletes: 0,
            evictions: 0,
            get_latency: LatencyCounter::new(),
            set_latency: LatencyCounter::new(),
            delete_latency: LatencyCounter::new(),
            get_batch_latency: LatencyCounter::new(),
            set_batch_latency: LatencyCounter::new(),
            delete_batch_latency: LatencyCounter::new(),
            hot_keys: HotKeys::new(),
            opened: Ghost(opened),
        };
        proof {
            assert(m@.trees.dom() =~= set![meta_tree()]);
        }
        Ok(m)
    }

    /// Opens the cache as `new` does. Each call opens its own handle: one
    /// database at a path can be open once at a time.
    pub fn instance(config: CacheImplConfig) -> (r: Result<Self, CacheError>)
        ensures
            r matches Ok(m) ==> {
                &&& m.wf()
                &&& m@.db_path == config.db_path@
                &&& m@.mode == config.mode
                &&& m@.compression == config.compression
                &&& m@.enabled == config.enabled
                &&& m@.default_ttl_secs == config.default_ttl_secs
                &&& m@.max_size_bytes == config.max_size_bytes
                &&& m@.trees.dom() == set![meta_tree()]
                &&& m.opened_with() == (config.db_path@, db_settings(config.mode))
            },
            r matches Err(e) ==> e is DatabaseError,
    {
        Self::new(config)
    }

    /// The position of the handle of tree `top`, opening the tree when no handle
    /// is held yet.
    fn tree_index(&mut self, top: &str) -> (r: Result<usize, CacheError>)
        requires
            old(self).wf(),
        ensures
            final(self).wf(),
            final(self)@ == (ManagerView { trees: final(self)@.trees, ..old(self)@ }),
            match r {
                Ok(i) => {
                    &&& i < final(self).trees@.len()
                    &&& final(self).trees@[i as int].0@ == top@
                    &&& opened(old(self)@.trees, final(self)@.trees, top@)
                },
                Err(e) => final(self)@ == old(self)@ && e is DatabaseError,
            },
            old(self)@.trees.contains_key(top@) ==> r is Ok,
    {
        let mut i: usize = 0;
        while i < self.trees.len()
            invariant
                self.wf(),
                i <= self.trees@.len(),
                forall|j: int| 0 <= j < i ==> self.trees@[j].0@ != top@,
            decreases self.trees@.len() - i,
        {
            if str_eq(self.trees[i].0.as_str(), top) {
                proof { lemma_trees_index(self.trees@, i as int); }
                return Ok(i);
            }
            i = i + 1;
        }
        assert(!tree_names(self.trees@).contains(top@)) by {
            if tree_names(self.trees@).contains(top@) {
                let k = choose|k: int| 0 <= k < tree_names(self.trees@).len() && tree_names(self.trees@)[k] == top@;
                assert(self.trees@[k].0@ == top@);
            }
        }
        match open_tree(&self.db, top) {
            Ok(t) => {
                let name = owned(top);
                proof { lemma_trees_push(self.trees@, name, t); }
                self.trees.push((name, t));
                Ok(self.trees.len() - 1)
            },
            Err(e) => Err(CacheError::DatabaseError(concat2("打开 tree 失败: ", e.as_str()))),
        }
    }

    /// Sets `key` to `value` in the tree at position `i`.
    fn insert_in(&mut self, i: usize, key: &[u8], value: &[u8]) -> (r: Result<(), String>)
        requires
            old(self).wf(),
            i < old(self).trees@.len(),
        ensures
            final(self).wf(),
            tree_names(final(self).trees@) == tree_names(old(self).trees@),
            final(self)@ == (ManagerView { trees: final(self)@.trees, ..old(self)@ }),
            retouched(old(self)@.trees, final(self)@.trees, old(self).trees@[i as int].0@),
            r is Ok ==> final(self)@.trees[old(self).trees@[i as int].0@]
                == old(self)@.trees[old(self).trees@[i as int].0@].insert(key@, value@),
            final(self)@.trees[old(self).trees@[i as int].0@] == old(self)@.trees[old(self).trees@[i as int].0@]
                || final(self)@.trees[old(self).trees@[i as int].0@]
                == old(self)@.trees[old(self).trees@[i as int].0@].insert(key@, value@),
    {
        let ghost v = self.trees@;
        proof { lemma_trees_index(v, i as int); }
        let (name, mut t) = self.trees.remove(i);
        let r = tree_insert(&mut t, key, value);
        self.trees.insert(i, (name, t));
        proof {
            assert(self.trees@ =~= v.update(i as int, (v[i as int].0, t)));
            lemma_trees_update(v, i as int, t);
        }
        r
    }

    /// Removes `key` from the tree at position `i`; tells whether it was there.
    fn remove_in(&mut self, i: usize, key: &[u8]) -> (r: Result<bool, String>)
        requires
            old(self).wf(),
            i < old(self).trees@.len(),
        ensures
            final(self).wf(),
            tree_names(final(self).trees@) == tree_names(old(self).trees@),
            final(self)@ == (ManagerView { trees: final(self)@.trees, ..old(self)@ }),
            retouched(old(self)@.trees, final(self)@.trees, old(self).trees@[i as int].0@),
            r matches Ok(b) ==> {
                let n = old(self).trees@[i as int].0@;
                &&& b == old(self)@.trees[n].contains_key(key@)
                &&& final(self)@.trees[n] == old(self)@.trees[n].remove(key@)
            },
            final(self)@.trees[old(self).trees@[i as int].0@] == old(self)@.trees[old(self).trees@[i as int].0@]
                || final(self)@.trees[old(self).trees@[i as int].0@]
                == old(self)@.trees[old(self).trees@[i as int].0@].remove(key@),
    {
        let ghost v = self.trees@;
        proof { lemma_trees_index(v, i as int); }
        let (name, mut t) = self.trees.remove(i);
        let r = tree_remove(&mut t, key);
        self.trees.insert(i, (name, t));
        proof {
            assert(self.trees@ =~= v.update(i as int, (v[i as int].0, t)));
            lemma_trees_update(v, i as int, t);
        }
        r
    }

    /// Reads `key` of `scope` at `now` (seconds since the Unix epoch): its value
    /// while its metadata says it is live, `None` when there is no metadata, it
    /// has expired or the value is gone. Counts the access of `scope:key`, a hit
    /// or a miss, and the latency; a hit records the access in the metadata.
    pub fn get_at(&mut self, scope: &str, key: &str, now: u64) -> (r: Result<Option<Vec<u8>>, CacheError>)
        requires
            old(self).wf(),
        ensures
            final(self).wf(),
            same_settings(old(self)@, final(self)@),
            !old(self)@.enabled ==> (r matches Err(CacheError::CacheDisabled) && final(self)@ == old(self)@),
            old(self)@.enabled ==> !(r matches Err(CacheError::CacheDisabled)),
            old(self)@.enabled ==> final(self)@.hot_keys == bumped(old(self)@.hot_keys, hot_name(scope@, key@)),
            final(self)@.writes == old(self)@.writes,
            final(self)@.deletes == old(self)@.deletes,
            final(self)@.evictions == old(self)@.evictions,
            final(self)@.set_latency == old(self)@.set_latency,
            final(self)@.delete_latency == old(self)@.delete_latency,
            keeps_data(old(self)@.trees, final(self)@.trees, stored_tree(scope@, key@)),
            r matches Ok(v) ==> {
                &&& opt_bytes(v) == read_outcome(old(self)@, read_data(old(self)@, final(self)@, scope@, key@), scope@, key@, now)
                &&& v is Some ==> final(self)@.hits == wrap_add(old(self)@.hits, 1) && final(self)@.misses == old(self)@.misses
                &&& v is None ==> final(self)@.misses == wrap_add(old(self)@.misses, 1) && final(self)@.hits == old(self)@.hits
                &&& v is None ==> final(self)@.meta() == old(self)@.meta()
                &&& exists|e: u64| final(self)@.get_latency == old(self)@.get_latency.recorded(e)
            },
            r is Err ==> final(self)@.hits == old(self)@.hits && final(self)@.misses == old(self)@.misses
                && final(self)@.meta() == old(self)@.meta(),
            r matches Err(CacheError::SerializationError(_)) ==> old(self)@.meta().contains_key(stored_key(scope@, key@))
                && decoding(old(self)@.meta()[stored_key(scope@, key@)]) is None,
    {
        let start = instant_now();
        if !self.config.enabled {
            return Err(CacheError::CacheDisabled);
        }
        let (top, full) = parse_scope(scope, key);
        let kb = full.as_str().as_bytes();
        self.hot_keys.bump(concat3(scope, ":", key));
        let ghost before = self@;
        proof { lemma_trees_index(self.trees@, 0); lemma_retouched_same(before.trees, meta_tree()); }
        let meta = match self.read_meta(kb) {
            Ok(Some(m)) => m,
            Ok(None) => {
                self.misses = self.misses.wrapping_add(1);
                let e = since(&start);
                self.get_latency.record(e);
                assert(self@.get_latency == old(self)@.get_latency.recorded(e));
                return Ok(None);
            },
            Err(e) => return Err(e),
        };
        if meta.meta.is_expired_at(now) {
            self.misses = self.misses.wrapping_add(1);
            let e = since(&start);
            self.get_latency.record(e);
            assert(self@.get_latency == old(self)@.get_latency.recorded(e));
            return Ok(None);
        }
        let i = self.tree_index(top.as_str())?;
        let ghost opened_view = self@;
        proof { lemma_trees_index(self.trees@, i as int); }
        match tree_get(&self.trees[i].1, kb) {
            Ok(Some(v)) => {
                self.hits = self.hits.wrapping_add(1);
                let _ = self.touch_meta(kb, now);
                let e = since(&start);
                self.get_latency.record(e);
                assert(self@.get_latency == old(self)@.get_latency.recorded(e));
                Ok(Some(v))
            },
            Ok(None) => {
                self.misses = self.misses.wrapping_add(1);
                let e = since(&start);
                self.get_latency.record(e);
                assert(self@.get_latency == old(self)@.get_latency.recorded(e));
                Ok(None)
            },
            Err(e) => {
                self.get_latency.record(since(&start));
                Err(CacheError::DatabaseError(concat2("读取缓存失败: ", e.as_str())))
            },
        }
    }

    /// Reads `key` of `scope` now; see `get_at`.
    pub fn get(&mut self, scope: &str, key: &str) -> (r: Result<Option<Vec<u8>>, CacheError>)
        requires
            old(self).wf(),
        ensures
            final(self).wf(),
            same_settings(old(self)@, final(self)@),
            !old(self)@.enabled ==> (r matches Err(CacheError::CacheDisabled) && final(self)@ == old(self)@),
            old(self)@.enabled ==> !(r matches Err(CacheError::CacheDisabled)),
            old(self)@.enabled ==> final(self)@.hot_keys == bumped(old(self)@.hot_keys, hot_name(scope@, key@)),
            final(self)@.writes == old(self)@.writes,
            final(self)@.deletes == old(self)@.deletes,
            final(self)@.evictions == old(self)@.evictions,
            final(self)@.set_latency == old(self)@.set_latency,
            final(self)@.delete_latency == old(self)@.delete_latency,
            keeps_data(old(self)@.trees, final(self)@.trees, stored_tree(scope@, key@)),
            r matches Ok(v) ==> {
                &&& exists|now: u64| opt_bytes(v) == #[trigger] read_outcome(old(self)@, read_data(old(self)@, final(self)@, scope@, key@), scope@, key@, now)
                &&& v is Some ==> final(self)@.hits == wrap_add(old(self)@.hits, 1) && final(self)@.misses == old(self)@.misses
                &&& v is None ==> final(self)@.misses == wrap_add(old(self)@.misses, 1) && final(self)@.hits == old(self)@.hits
                &&& v is None ==> final(self)@.meta() == old(self)@.meta()
                &&& exists|e: u64| final(self)@.get_latency == old(self)@.get_latency.recorded(e)
            },
            r is Err ==> final(self)@.hits == old(self)@.hits && final(self)@.misses == old(self)@.misses
                && final(self)@.meta() == old(self)@.meta(),
    {
        let now = unix_secs();
        let ghost before = self@;
        let r = self.get_at(scope, key, now);
        proof {
            assert(r matches Ok(v) ==> opt_bytes(v) == read_outcome(before, read_data(before, self@, scope@, key@), scope@, key@, now));
        }
        r
    }

    /// Removes entries whose metadata has expired at `now`, at most `max_items`
    /// of them (all when `None`), walking the metadata in key order; each entry
    /// is removed from the top tree of the scope its metadata names, and counted
    /// as an eviction. Live entries stay.
    pub fn cleanup_expired_at(&mut self, max_items: Option<usize>, now: u64) -> (r: Result<usize, CacheError>)
        requires
            old(self).wf(),
        ensures
            final(self).wf(),
            same_settings(old(self)@, final(self)@),
            same_counts(old(self)@, final(self)@),
            r matches Ok(n) ==> {
                &&& max_items matches Some(m) ==> n <= m
                &&& final(self)@.evictions == wrap_add(old(self)@.evictions, n as u64)
                &&& cleaned(old(self)@, final(self)@, now)
            },
            r matches Ok(n) ==> ((match max_items { Some(m) => n < m, None => true })
                ==> forall|k: Seq<u8>| #[trigger] swept(old(self)@, final(self)@, k, now)),
            r matches Err(CacheError::SerializationError(_)) ==> exists|k: Seq<u8>| old(self)@.meta().contains_key(k)
                && #[trigger] decoding(old(self)@.meta()[k]) is None,
            r matches Err(e) ==> e is DatabaseError || e is SerializationError,
    {
        let max = match max_items {
            Some(m) => m,
            None => usize::MAX,
        };
        proof { lemma_trees_index(self.trees@, 0); }
        let entries = match tree_entries(&self.trees[0].1) {
            Ok(es) => es,
            Err(e) => return Err(CacheError::DatabaseError(concat2("遍历元数据失败: ", e.as_str()))),
        };
        let ghost before = self@;
        let ghost gone = |t: Seq<char>, k: Seq<u8>| doomed(before, t, k, now);
        let mut count: usize = 0;
        let mut j: usize = 0;
        while j < entries.len() && count < max
            invariant
                self.wf(),
                old(self)@ == before,
                gone == (|t: Seq<char>, k: Seq<u8>| doomed(before, t, k, now)),
                j <= entries@.len(),
                count <= max,
                count <= j,
                max_items matches Some(m) ==> max == m,
                same_settings(before, self@),
                same_counts(before, self@),
                self@.evictions == wrap_add(before.evictions, count as u64),
                data_kept_but(before, self@, gone),
                before.trees.contains_key(meta_tree()),
                forall|i: int| 0 <= i < entries@.len() ==> before.meta().contains_key(#[trigger] entries@[i].0@)
                    && before.meta()[entries@[i].0@] == entries@[i].1@,
                forall|i: int| 0 <= i < j ==> #[trigger] swept(before, self@, entries@[i].0@, now),
            decreases entries@.len() - j,
        {
            let ghost start = self@;
            let k = entries[j].0.as_slice();
            let m = match decode_meta(entries[j].1.as_slice()) {
                Some(m) => m,
                None => {
                    assert(decoding(before.meta()[entries@[j as int].0@]) is None);
                    return Err(CacheError::SerializationError(owned("反序列化元数据失败: 数据格式无效")));
                },
            };
            assert(before.meta().contains_key(entries@[j as int].0@));
            assert(decoding_at(before.meta(), k@) == Some(m@));
            if m.meta.is_expired_at(now) {
                let (top, _) = parse_scope_prefix(m.scope.as_str());
                let ghost prev = self@;
                let i = self.tree_index(top.as_str())?;
                let ghost mid = self@;
                proof { lemma_trees_index(self.trees@, i as int); lemma_opened_shrunk(prev, mid, top@); }
                match self.remove_in(i, k) {
                    Ok(existed) => {
                        let ghost mid2 = self@;
                        proof {
                            lemma_removed_shrunk(mid, mid2, top@, k@);
                            lemma_shrunk_trans(prev, mid, mid2);
                            assert(gone_from(mid2, top@, k@));
                            assert(swept(before, mid2, k@, now));
                        }
                        assert(expired_at(m@.meta, now));
                        assert(doomed(before, top@, k@, now));
                        assert(gone(top@, k@));
                        assert forall|n: Seq<char>, k0: Seq<u8>| before.trees.contains_key(n) && n != meta_tree() && !gone(n, k0)
                            implies #[trigger] value_in(mid2.trees, n, k0) == value_in(before.trees, n, k0) by {
                            assert(value_in(mid.trees, n, k0) == value_in(prev.trees, n, k0));
                        }
                        assert forall|n: Seq<char>, k0: Seq<u8>| before.trees.contains_key(n) && n != meta_tree()
                            && #[trigger] value_in(mid2.trees, n, k0) is Some implies value_in(mid2.trees, n, k0) == value_in(before.trees, n, k0) by {
                            assert(value_in(mid.trees, n, k0) == value_in(prev.trees, n, k0));
                        }
                        if existed {
                            let _ = self.remove_in(0, k);
                            let ghost mid3 = self@;
                            proof {
                                lemma_removed_shrunk(mid2, mid3, meta_tree(), k@);
                                lemma_swept_kept(before, mid2, mid3, k@, now);
                                lemma_shrunk_trans(prev, mid2, mid3);
                            }
                            assert forall|n: Seq<char>, k0: Seq<u8>| before.trees.contains_key(n) && n != meta_tree()
                                implies #[trigger] value_in(mid3.trees, n, k0) == value_in(mid2.trees, n, k0) by {
                                assert(mid2.trees.contains_key(n));
                            }
                            proof { lemma_wrap_step(before.evictions, count as u64); }
                            count = count + 1;
                            self.evictions = self.evictions.wrapping_add(1);
                        }
                    },
                    Err(e) => return Err(CacheError::DatabaseError(concat2("删除过期条目失败: ", e.as_str()))),
                }
            }
            proof {
                lemma_shrunk_refl(self@);
                assert(shrunk(start, self@)) by {
                    if !(m.meta.expires_at matches Some(e) && now >= e) {
                        assert(self@ == start);
                    }
                }
                assert forall|i: int| 0 <= i < j + 1 implies #[trigger] swept(before, self@, entries@[i].0@, now) by {
                    if i < j {
                        lemma_swept_kept(before, start, self@, entries@[i].0@, now);
                    }
                }
            }
            j = j + 1;
        }
        proof {
            if max_items is None || count < max {
                assert(j == entries@.len());
                assert forall|k0: Seq<u8>| #[trigger] swept(before, self@, k0, now) by {
                    if before.meta().contains_key(k0) {
                        let i = choose|i: int| 0 <= i < entries@.len() && #[trigger] entries@[i].0@ == k0;
                        assert(swept(before, self@, entries@[i].0@, now));
                    }
                }
            }
        }
        Ok(count)
    }

    /// Whether `new_size` more bytes would take the database past the largest
    /// size; an unknown size on disk counts as 0.
    fn is_cache_full(&self, new_size: usize) -> (r: bool)
        ensures
            new_size > self@.max_size_bytes ==> r,
    {
        let current = match db_size_on_disk(&self.db) {
            Ok(n) => n,
            Err(_) => 0,
        };
        (current as u128) + (new_size as u128) > (self.config.max_size_bytes as u128)
    }

    /// Writes `value` under `key` of `scope` at `now`, to live `ttl_secs`
    /// seconds: makes room by removing up to 100 expired entries when the size
    /// limit would be passed, and fails with `CacheFull` when that is not enough.
    fn store(&mut self, scope: &str, key: &str, value: &[u8], ttl_secs: u64, now: u64) -> (r: Result<(), CacheError>)
        requires
            old(self).wf(),
        ensures
            final(self).wf(),
            same_settings(old(self)@, final(self)@),
            final(self)@.hits == old(self)@.hits,
            final(self)@.misses == old(self)@.misses,
            final(self)@.deletes == old(self)@.deletes,
            final(self)@.hot_keys == old(self)@.hot_keys,
            final(self)@.get_latency == old(self)@.get_latency,
            final(self)@.set_latency == old(self)@.set_latency,
            final(self)@.delete_latency == old(self)@.delete_latency,
            r is Ok ==> adds_at_most(old(self)@, final(self)@, stored_tree(scope@, key@), stored_key(scope@, key@)),
            r is Ok ==> written(final(self)@, scope@, key@, value@, ttl_secs, now),
            r is Ok ==> final(self)@.writes == wrap_add(old(self)@.writes, 1),
            r is Err ==> final(self)@.writes == old(self)@.writes,
            value@.len() > old(self)@.max_size_bytes ==> r is Err,
            !(r matches Err(CacheError::CacheDisabled)),
    {
        let (top, full) = parse_scope(scope, key);
        let kb = full.as_str().as_bytes();
        let size = value.len();
        let ghost before = self@;
        if self.is_cache_full(size) {
            let _ = self.cleanup_expired_at(Some(100), now)?;
            if self.is_cache_full(size) {
                return Err(CacheError::CacheFull);
            }
        }
        let ghost mid = self@;
        assert(adds_at_most(before, mid, top@, kb@));
        let i = self.tree_index(top.as_str())?;
        let ghost mid2 = self@;
        proof { lemma_trees_index(self.trees@, i as int); }
        match self.insert_in(i, kb, value) {
            Ok(()) => {},
            Err(e) => return Err(CacheError::DatabaseError(concat2("写入缓存失败: ", e.as_str()))),
        }
        let ghost mid3 = self@;
        let meta = StoredMeta { meta: CacheEntryMetadata::new_at(now, Some(ttl_secs), size), scope: owned(scope) };
        assert(meta@ == entry_meta(scope@, size, ttl_secs, now));
        self.write_meta(kb, &meta)?;
        self.writes = self.writes.wrapping_add(1);
        proof {
            lemma_trees_index(self.trees@, 0);
            assert forall|n: Seq<char>, k0: Seq<u8>| before.trees.contains_key(n) && n != meta_tree() && !(n == top@ && k0 == kb@)
                && #[trigger] value_in(self@.trees, n, k0) is Some implies value_in(self@.trees, n, k0) == value_in(before.trees, n, k0) by {
                assert(mid.trees.contains_key(n));
                assert(value_in(self@.trees, n, k0) == value_in(mid3.trees, n, k0));
                assert(value_in(mid3.trees, n, k0) == value_in(mid2.trees, n, k0));
                assert(value_in(mid2.trees, n, k0) == value_in(mid.trees, n, k0));
            }
        }
        Ok(())
    }

    /// Writes `value` under `key` of `scope` at `now` when `condition`, given
    /// the current value (as `get_at` reads it) and the current metadata,
    /// allows it. The entry lives `ttl_secs` seconds, the default lifetime when
    /// `None`. Counts the access of `scope:key` (twice: the write and the read),
    /// the write and its latency.
    pub fn set_with_condition_at<F: Fn(&Option<Vec<u8>>, &Option<StoredMeta>) -> bool>(
        &mut self,
        scope: &str,
        key: String,
        value: Vec<u8>,
        ttl_secs: Option<u64>,
        now: u64,
        condition: F,
    ) -> (r: Result<(), CacheError>)
        requires
            old(self).wf(),
            forall|c: &Option<Vec<u8>>, m: &Option<StoredMeta>| #[trigger] condition.requires((c, m)),
        ensures
            final(self).wf(),
            same_settings(old(self)@, final(self)@),
            !old(self)@.enabled ==> (r matches Err(CacheError::CacheDisabled) && final(self)@ == old(self)@),
            old(self)@.enabled ==> !(r matches Err(CacheError::CacheDisabled)),
            old(self)@.enabled ==> final(self)@.hot_keys
                == bumped(bumped(old(self)@.hot_keys, hot_name(scope@, key@)), hot_name(scope@, key@)),
            r is Ok ==> exists|c: Option<Vec<u8>>, m: Option<StoredMeta>, mid: ManagerView|
                #[trigger] consulted(old(self)@, mid, scope@, key@, now, c, m) && {
                let ttl = match ttl_secs { Some(t) => t, None => old(self)@.default_ttl_secs };
                ||| condition.ensures((&c, &m), false) && final(self)@ == mid
                ||| condition.ensures((&c, &m), true)
                    && written(final(self)@, scope@, key@, value@, ttl, now)
                    && final(self)@.writes == wrap_add(old(self)@.writes, 1)
                    && adds_at_most(old(self)@, final(self)@, stored_tree(scope@, key@), stored_key(scope@, key@))
            },
    {
        let start = instant_now();
        if !self.config.enabled {
            return Err(CacheError::CacheDisabled);
        }
        let (_top, full) = parse_scope(scope, key.as_str());
        self.hot_keys.bump(concat3(scope, ":", key.as_str()));
        let ghost before = self@;
        let current = self.get_at(scope, key.as_str(), now)?;
        let current_meta = self.get_metadata(full.as_str())?;
        let ghost after_get = self@;
        let allowed = condition(&current, &current_meta);
        proof {
            assert(consulted(old(self)@, after_get, scope@, key@, now, current, current_meta));
        }
        if !allowed {
            return Ok(());
        }
        let ttl = match ttl_secs {
            Some(t) => t,
            None => self.config.default_ttl_secs,
        };
        self.store(scope, key.as_str(), value.as_slice(), ttl, now)?;
        let e = since(&start);
        self.set_latency.record(e);
        proof {
            assert forall|n: Seq<char>, k0: Seq<u8>| old(self)@.trees.contains_key(n) && n != meta_tree()
                && !(n == stored_tree(scope@, key@) && k0 == stored_key(scope@, key@))
                && #[trigger] value_in(self@.trees, n, k0) is Some
                implies value_in(self@.trees, n, k0) == value_in(old(self)@.trees, n, k0) by {
                assert(after_get.trees.contains_key(n));
                assert(value_in(after_get.trees, n, k0) == value_in(before.trees, n, k0));
            }
        }
        Ok(())
    }

    /// Writes `value` under `key` of `scope` at `now`, to live `ttl_secs` seconds
    /// (the default lifetime when `None`).
    pub fn set_at(&mut self, scope: &str, key: String, value: Vec<u8>, ttl_secs: Option<u64>, now: u64) -> (r: Result<(), CacheError>)
        requires
            old(self).wf(),
        ensures
            final(self).wf(),
            same_settings(old(self)@, final(self)@),
            !old(self)@.enabled ==> (r matches Err(CacheError::CacheDisabled) && final(self)@ == old(self)@),
            old(self)@.enabled ==> !(r matches Err(CacheError::CacheDisabled)),
            old(self)@.enabled ==> final(self)@.hot_keys
                == bumped(bumped(old(self)@.hot_keys, hot_name(scope@, key@)), hot_name(scope@, key@)),
            r is Ok ==> ({
                let ttl = match ttl_secs { Some(t) => t, None => old(self)@.default_ttl_secs };
                &&& written(final(self)@, scope@, key@, value@, ttl, now)
                &&& final(self)@.writes == wrap_add(old(self)@.writes, 1)
                &&& adds_at_most(old(self)@, final(self)@, stored_tree(scope@, key@), stored_key(scope@, key@))
            }),
    {
        let always = |c: &Option<Vec<u8>>, m: &Option<StoredMeta>| -> (b: bool)
            ensures
                b,
        { true };
        self.set_with_condition_at(scope, key, value, ttl_secs, now, always)
    }

    /// Removes `key` of `scope`; tells whether it was there. When it was, its
    /// metadata goes too (a failure to remove the metadata is ignored), the
    /// deletion is counted and `scope:key` is no longer counted as used.
    pub fn delete(&mut self, scope: &str, key: &str) -> (r: Result<bool, CacheError>)
        requires
            old(self).wf(),
        ensures
            final(self).wf(),
            same_settings(old(self)@, final(self)@),
            !old(self)@.enabled ==> (r matches Err(CacheError::CacheDisabled) && final(self)@ == old(self)@),
            old(self)@.enabled ==> !(r matches Err(CacheError::CacheDisabled)),
            final(self)@.hits == old(self)@.hits,
            final(self)@.misses == old(self)@.misses,
            final(self)@.writes == old(self)@.writes,
            final(self)@.evictions == old(self)@.evictions,
            final(self)@.get_latency == old(self)@.get_latency,
            final(self)@.set_latency == old(self)@.set_latency,
            r matches Ok(b) ==> {
                let top = stored_tree(scope@, key@);
                let k = stored_key(scope@, key@);
                &&& final(self)@.trees.contains_key(top)
                &&& value_in(final(self)@.trees, top, k) is None
                &&& old(self)@.trees.contains_key(top) ==> b == (value_in(old(self)@.trees, top, k) is Some)
                &&& b ==> final(self)@.deletes == wrap_add(old(self)@.deletes, 1)
                    && final(self)@.hot_keys == forgotten(old(self)@.hot_keys, hot_name(scope@, key@))
                    && (final(self)@.meta() == old(self)@.meta().remove(k) || final(self)@.meta() == old(self)@.meta())
                &&& !b ==> final(self)@.deletes == old(self)@.deletes && final(self)@.hot_keys == old(self)@.hot_keys
                    && final(self)@.meta() == old(self)@.meta()
                &&& data_same_but(old(self)@, final(self)@, top, k)
                &&& exists|e: u64| final(self)@.delete_latency == old(self)@.delete_latency.recorded(e)
            },
            r is Err ==> final(self)@.deletes == old(self)@.deletes && final(self)@.hot_keys == old(self)@.hot_keys
                && final(self)@.delete_latency == old(self)@.delete_latency,
    {
        let start = instant_now();
        if !self.config.enabled {
            return Err(CacheError::CacheDisabled);
        }
        let (top, full) = parse_scope(scope, key);
        let kb = full.as_str().as_bytes();
        proof { lemma_trees_index(self.trees@, 0); }
        let i = self.tree_index(top.as_str())?;
        let ghost mid = self@;
        proof { lemma_trees_index(self.trees@, i as int); lemma_trees_index(self.trees@, 0); }
        let existed = match self.remove_in(i, kb) {
            Ok(b) => b,
            Err(e) => return Err(CacheError::DatabaseError(concat2("删除缓存失败: ", e.as_str()))),
        };
        let ghost mid2 = self@;
        assert(mid.meta() == old(self)@.meta());
        assert(top@ != meta_tree() ==> mid2.meta() == mid.meta());
        if existed {
            proof { lemma_trees_index(self.trees@, 0); }
            let _ = self.remove_in(0, kb);
            self.deletes = self.deletes.wrapping_add(1);
            let name = concat3(scope, ":", key);
            self.hot_keys.forget(name.as_str());
            proof {
                if top@ == meta_tree() {
                    assert(mid2.meta().remove(kb@) =~= mid2.meta());
                }
            }
        } else {
            proof {
                if top@ == meta_tree() {
                    assert(mid2.meta() =~= mid.meta());
                }
            }
        }
        let e = since(&start);
        self.delete_latency.record(e);
        assert(self@.delete_latency == old(self)@.delete_latency.recorded(e));
        proof {
            lemma_trees_index(self.trees@, 0);
            assert forall|n: Seq<char>, k0: Seq<u8>| old(self)@.trees.contains_key(n) && n != meta_tree() && !(n == top@ && k0 == kb@)
                implies #[trigger] value_in(self@.trees, n, k0) == value_in(old(self)@.trees, n, k0) by {
                assert(mid.trees.contains_key(n));
                assert(value_in(mid2.trees, n, k0) == value_in(mid.trees, n, k0));
            }
        }
        Ok(existed)
    }

    /// Reads `key` of `scope` at `now`, expired or not: the stored value and
    /// whether it has expired, `None` when there is no metadata or no value.
    /// Counts a hit for a live value and a miss otherwise; a value found records
    /// the access in the metadata.
    pub fn get_include_stale_at(&mut self, scope: &str, key: &str, now: u64) -> (r: Result<Option<(Vec<u8>, bool)>, CacheError>)
        requires
            old(self).wf(),
        ensures
            final(self).wf(),
            same_settings(old(self)@, final(self)@),
            !old(self)@.enabled ==> (r matches Err(CacheError::CacheDisabled) && final(self)@ == old(self)@),
            old(self)@.enabled ==> !(r matches Err(CacheError::CacheDisabled)),
            final(self)@.hot_keys == old(self)@.hot_keys,
            final(self)@.writes == old(self)@.writes,
            final(self)@.deletes == old(self)@.deletes,
            final(self)@.evictions == old(self)@.evictions,
            final(self)@.get_latency == old(self)@.get_latency,
            final(self)@.set_latency == old(self)@.set_latency,
            final(self)@.delete_latency == old(self)@.delete_latency,
            keeps_data(old(self)@.trees, final(self)@.trees, stored_tree(scope@, key@)),
            r matches Ok(x) ==> {
                &&& opt_flagged(x) == stale_outcome(old(self)@, read_data(old(self)@, final(self)@, scope@, key@), scope@, key@, now)
                &&& (x matches Some((_, false))) ==> final(self)@.hits == wrap_add(old(self)@.hits, 1)
                    && final(self)@.misses == old(self)@.misses
                &&& !(x matches Some((_, false))) ==> final(self)@.misses == wrap_add(old(self)@.misses, 1)
                    && final(self)@.hits == old(self)@.hits
            },
            r is Err ==> final(self)@.hits == old(self)@.hits && final(self)@.misses == old(self)@.misses
                && final(self)@.meta() == old(self)@.meta(),
    {
        if !self.config.enabled {
            return Err(CacheError::CacheDisabled);
        }
        let (top, full) = parse_scope(scope, key);
        let kb = full.as_str().as_bytes();
        proof { lemma_trees_index(self.trees@, 0); lemma_retouched_same(self@.trees, meta_tree()); }
        let meta = match self.read_meta(kb) {
            Ok(Some(m)) => m,
            Ok(None) => {
                self.misses = self.misses.wrapping_add(1);
                return Ok(None);
            },
            Err(e) => return Err(e),
        };
        let stale = meta.meta.is_expired_at(now);
        let i = self.tree_index(top.as_str())?;
        proof { lemma_trees_index(self.trees@, i as int); }
        match tree_get(&self.trees[i].1, kb) {
            Ok(Some(v)) => {
                if stale {
                    self.misses = self.misses.wrapping_add(1);
                } else {
                    self.hits = self.hits.wrapping_add(1);
                }
                let _ = self.touch_meta(kb, now);
                Ok(Some((v, stale)))
            },
            Ok(None) => {
                self.misses = self.misses.wrapping_add(1);
                Ok(None)
            },
            Err(e) => Err(CacheError::DatabaseError(concat2("读取缓存失败: ", e.as_str()))),
        }
    }

    /// Reads `key` of `scope` now, expired or not; see `get_include_stale_at`.
    pub fn get_include_stale(&mut self, scope: &str, key: &str) -> (r: Result<Option<(Vec<u8>, bool)>, CacheError>)
        requires
            old(self).wf(),
        ensures
            final(self).wf(),
            same_settings(old(self)@, final(self)@),
            !old(self)@.enabled ==> (r matches Err(CacheError::CacheDisabled) && final(self)@ == old(self)@),
            old(self)@.enabled ==> !(r matches Err(CacheError::CacheDisabled)),
            keeps_data(old(self)@.trees, final(self)@.trees, stored_tree(scope@, key@)),
            r matches Ok(x) ==> exists|now: u64| opt_flagged(x)
                == #[trigger] stale_outcome(old(self)@, read_data(old(self)@, final(self)@, scope@, key@), scope@, key@, now),
    {
        let now = unix_secs();
        let ghost before = self@;
        let r = self.get_include_stale_at(scope, key, now);
        assert(r matches Ok(x) ==> opt_flagged(x) == stale_outcome(before, read_data(before, self@, scope@, key@), scope@, key@, now));
        r
    }

    /// Makes sure the tree `top` is open.
    pub fn get_or_create_tree(&mut self, top: &str) -> (r: Result<(), CacheError>)
        requires
            old(self).wf(),
        ensures
            final(self).wf(),
            final(self)@ == (ManagerView { trees: final(self)@.trees, ..old(self)@ }),
            r is Ok ==> opened(old(self)@.trees, final(self)@.trees, top@),
            r is Err ==> final(self)@ == old(self)@,
            r matches Err(e) ==> e is DatabaseError,
            old(self)@.trees.contains_key(top@) ==> r is Ok && final(self)@ == old(self)@,
    {
        let ghost before = self@;
        self.tree_index(top)?;
        proof {
            if before.trees.contains_key(top@) {
                assert(self@.trees =~= before.trees);
            }
        }
        Ok(())
    }

    /// Writes buffered data to disk.
    pub fn flush(&self) -> (r: Result<(), CacheError>)
        ensures
            r matches Err(e) ==> e is DatabaseError,
    {
        match db_flush(&self.db) {
            Ok(()) => Ok(()),
            Err(e) => Err(CacheError::DatabaseError(concat2("刷新缓存失败: ", e.as_str()))),
        }
    }

    /// The counters: hits, misses, writes, deletions and evictions, latency
    /// summaries (batch operations have none), the 20 most used keys, and the
    /// key count and size on disk as the database reports them (0 for a size it
    /// cannot tell).
    pub fn stats(&self) -> (s: CacheStats)
        requires
            self.wf(),
        ensures
            s.hits == self@.hits,
            s.misses == self@.misses,
            s.writes == self@.writes,
            s.deletes == self@.deletes,
            s.evictions == self@.evictions,
            s.get_latency == self@.get_latency.summarized(),
            s.set_latency == self@.set_latency.summarized(),
            s.delete_latency == self@.delete_latency.summarized(),
            s.get_batch_latency == LatencyCounter::fresh().batch_summarized(),
            s.set_batch_latency == LatencyCounter::fresh().batch_summarized(),
            s.delete_batch_latency == LatencyCounter::fresh().batch_summarized(),
            HotKeys::top_of(self@.hot_keys, 20, s.hot_keys@),
    {
        let size = match db_size_on_disk(&self.db) {
            Ok(n) => n,
            Err(_) => 0,
        };
        let keys = db_len(&self.db);
        CacheStats {
            hits: self.hits,
            misses: self.misses,
            writes: self.writes,
            deletes: self.deletes,
            total_keys: keys as u64,
            estimated_size_bytes: size,
            evictions: self.evictions,
            get_latency: self.get_latency.summary(),
            set_latency: self.set_latency.summary(),
            delete_latency: self.delete_latency.summary(),
            get_batch_latency: self.get_batch_latency.batch_summary(),
            set_batch_latency: self.set_batch_latency.batch_summary(),
            delete_batch_latency: self.delete_batch_latency.batch_summary(),
            hot_keys: self.hot_keys.top(20),
        }
    }

    /// Reads each key of `keys` in `scope` at `now` as `get_at` does, in order;
    /// the first error ends the batch.
    pub fn get_batch_at(&mut self, scope: &str, keys: &[&str], now: u64) -> (r: Result<Vec<Option<Vec<u8>>>, CacheError>)
        requires
            old(self).wf(),
        ensures
            final(self).wf(),
            same_settings(old(self)@, final(self)@),
            !old(self)@.enabled ==> (r matches Err(CacheError::CacheDisabled) && final(self)@ == old(self)@),
            r matches Ok(rs) ==> {
                &&& rs@.len() == keys@.len()
                &&& forall|i: int| 0 <= i < rs@.len() && stored_tree(scope@, keys@[i]@) != meta_tree()
                    && (#[trigger] rs@[i]) is Some ==> value_in(final(self)@.trees, stored_tree(scope@, keys@[i]@),
                        stored_key(scope@, keys@[i]@)) == opt_bytes(rs@[i])
            },
    {
        if !self.config.enabled {
            return Err(CacheError::CacheDisabled);
        }
        let mut out: Vec<Option<Vec<u8>>> = Vec::new();
        let mut i: usize = 0;
        while i < keys.len()
            invariant
                self.wf(),
                self@.enabled,
                same_settings(old(self)@, self@),
                i <= keys@.len(),
                out@.len() == i,
                forall|j: int| 0 <= j < i && stored_tree(scope@, keys@[j]@) != meta_tree() && (#[trigger] out@[j]) is Some
                    ==> value_in(self@.trees, stored_tree(scope@, keys@[j]@), stored_key(scope@, keys@[j]@)) == opt_bytes(out@[j]),
            decreases keys@.len() - i,
        {
            let ghost prev = self@;
            let v = self.get_at(scope, keys[i], now)?;
            proof {
                assert forall|j: int| 0 <= j < i && stored_tree(scope@, keys@[j]@) != meta_tree() && (#[trigger] out@[j]) is Some
                    implies value_in(self@.trees, stored_tree(scope@, keys@[j]@), stored_key(scope@, keys@[j]@)) == opt_bytes(out@[j]) by {
                    let t = stored_tree(scope@, keys@[j]@);
                    assert(prev.trees.contains_key(t));
                }
            }
            out.push(v);
            i = i + 1;
        }
        Ok(out)
    }

    /// Reads each key of `keys` in `scope` now; see `get_batch_at`.
    pub fn get_batch(&mut self, scope: &str, keys: &[&str]) -> (r: Result<Vec<Option<Vec<u8>>>, CacheError>)
        requires
            old(self).wf(),
        ensures
            final(self).wf(),
            same_settings(old(self)@, final(self)@),
            !old(self)@.enabled ==> (r matches Err(CacheError::CacheDisabled) && final(self)@ == old(self)@),
            r matches Ok(rs) ==> {
                &&& rs@.len() == keys@.len()
                &&& forall|i: int| 0 <= i < rs@.len() && stored_tree(scope@, keys@[i]@) != meta_tree()
                    && (#[trigger] rs@[i]) is Some ==> value_in(final(self)@.trees, stored_tree(scope@, keys@[i]@),
                        stored_key(scope@, keys@[i]@)) == opt_bytes(rs@[i])
            },
    {
        let now = unix_secs();
        self.get_batch_at(scope, keys, now)
    }

    /// Writes each pair of `items` to `scope` at `now` as `set_at` does, in
    /// order; the first error ends the batch.
    pub fn set_batch_at(&mut self, scope: &str, items: &[(String, Vec<u8>)], ttl_secs: Option<u64>, now: u64) -> (r: Result<(), CacheError>)
        requires
            old(self).wf(),
        ensures
            final(self).wf(),
            same_settings(old(self)@, final(self)@),
            !old(self)@.enabled ==> (r matches Err(CacheError::CacheDisabled) && final(self)@ == old(self)@),
            r is Ok ==> final(self)@.writes == wrap_add(old(self)@.writes, items@.len() as u64),
            r is Ok ==> exists|trace: Seq<ManagerView>| #[trigger] batch_written(trace, scope@, items@,
                ttl_or(ttl_secs, old(self)@.default_ttl_secs), now)
                && (items@.len() > 0 ==> trace.last() == final(self)@),
            r is Ok ==> forall|i: int| 0 <= i < items@.len() && stored_tree(scope@, (#[trigger] items@[i]).0@) != meta_tree()
                && (forall|j: int| i < j < items@.len() ==> stored_key(scope@, items@[j].0@) != stored_key(scope@, items@[i].0@))
                && value_in(final(self)@.trees, stored_tree(scope@, items@[i].0@), stored_key(scope@, items@[i].0@)) is Some
                ==> value_in(final(self)@.trees, stored_tree(scope@, items@[i].0@), stored_key(scope@, items@[i].0@)) == Some(items@[i].1@),
    {
        if !self.config.enabled {
            return Err(CacheError::CacheDisabled);
        }
        let ghost ttl = ttl_or(ttl_secs, old(self)@.default_ttl_secs);
        let ghost mut trace: Seq<ManagerView> = Seq::empty();
        let mut i: usize = 0;
        while i < items.len()
            invariant
                self.wf(),
                self@.enabled,
                same_settings(old(self)@, self@),
                i <= items@.len(),
                self@.writes == wrap_add(old(self)@.writes, i as u64),
                ttl == ttl_or(ttl_secs, old(self)@.default_ttl_secs),
                batch_written(trace, scope@, items@.take(i as int), ttl, now),
                i > 0 ==> trace.last() == self@,
                forall|a: int| 0 <= a < i ==> self@.trees.contains_key(stored_tree(scope@, (#[trigger] items@[a]).0@)),
                forall|a: int| 0 <= a < i && stored_tree(scope@, (#[trigger] items@[a]).0@) != meta_tree()
                    && (forall|j: int| a < j < i ==> stored_key(scope@, items@[j].0@) != stored_key(scope@, items@[a].0@))
                    && value_in(self@.trees, stored_tree(scope@, items@[a].0@), stored_key(scope@, items@[a].0@)) is Some
                    ==> value_in(self@.trees, stored_tree(scope@, items@[a].0@), stored_key(scope@, items@[a].0@)) == Some(items@[a].1@),
            decreases items@.len() - i,
        {
            let ghost prev = self@;
            let key = items[i].0.clone();
            let value = items[i].1.clone();
            assert(key@ == items@[i as int].0@);
            assert(value@ =~= items@[i as int].1@);
            proof { lemma_wrap_step(old(self)@.writes, i as u64); }
            self.set_at(scope, key, value, ttl_secs, now)?;
            proof {
                let ghost before_trace = trace;
                trace = trace.push(self@);
                assert(items@.take(i + 1).drop_last() =~= items@.take(i as int));
                assert(items@.take(i + 1).last() == items@[i as int]);
                assert forall|a: int| 0 <= a < trace.len() implies written(#[trigger] trace[a], scope@,
                    items@.take(i + 1)[a].0@, items@.take(i + 1)[a].1@, ttl, now) by {
                    if a < i {
                        assert(trace[a] == before_trace[a]);
                        assert(items@.take(i + 1)[a] == items@.take(i as int)[a]);
                    }
                }
                lemma_trees_index(self.trees@, 0);
                assert forall|a: int| 0 <= a < i + 1 implies self@.trees.contains_key(stored_tree(scope@, (#[trigger] items@[a]).0@)) by {
                    if a < i {
                        assert(prev.trees.contains_key(stored_tree(scope@, items@[a].0@)));
                    }
                }
                assert forall|a: int| 0 <= a < i + 1 && stored_tree(scope@, (#[trigger] items@[a]).0@) != meta_tree()
                    && (forall|j: int| a < j < i + 1 ==> stored_key(scope@, items@[j].0@) != stored_key(scope@, items@[a].0@))
                    && value_in(self@.trees, stored_tree(scope@, items@[a].0@), stored_key(scope@, items@[a].0@)) is Some
                    implies value_in(self@.trees, stored_tree(scope@, items@[a].0@), stored_key(scope@, items@[a].0@)) == Some(items@[a].1@) by {
                    if a < i {
                        let t = stored_tree(scope@, items@[a].0@);
                        assert(stored_key(scope@, items@[i as int].0@) != stored_key(scope@, items@[a].0@));
                        if prev.trees.contains_key(t) {
                        } else {
                            assert(value_in(prev.trees, t, stored_key(scope@, items@[a].0@)) is None);
                        }
                    }
                }
            }
            i = i + 1;
        }
        assert(items@.take(i as int) =~= items@);
        Ok(())
    }

    /// Removes each key of `keys` in `scope` as `delete` does; the number of
    /// keys that were there. The first error ends the batch.
    pub fn delete_batch(&mut self, scope: &str, keys: &[&str]) -> (r: Result<usize, CacheError>)
        requires
            old(self).wf(),
        ensures
            final(self).wf(),
            same_settings(old(self)@, final(self)@),
            !old(self)@.enabled ==> (r matches Err(CacheError::CacheDisabled) && final(self)@ == old(self)@),
            r matches Ok(n) ==> {
                &&& n <= keys@.len()
                &&& final(self)@.deletes == wrap_add(old(self)@.deletes, n as u64)
                &&& forall|i: int| 0 <= i < keys@.len() ==> #[trigger] value_in(final(self)@.trees,
                    stored_tree(scope@, keys@[i]@), stored_key(scope@, keys@[i]@)) is None
                &&& exists|t0: Map<Seq<u8>, Seq<u8>>| #[trigger] held_keys(t0, scope@, str_views(keys@)).len() == n
                    && (old(self)@.trees.contains_key(scope_prefix(scope@).0) ==> t0 == old(self)@.trees[scope_prefix(scope@).0])
                    && (keys@.len() > 0 ==> forall|k: Seq<u8>| !stored_keys(scope@, str_views(keys@)).contains(k)
                        ==> (#[trigger] final(self)@.trees[scope_prefix(scope@).0].contains_key(k) == t0.contains_key(k)))
            },
    {
        if !self.config.enabled {
            return Err(CacheError::CacheDisabled);
        }
        let ghost kv = str_views(keys@);
        if keys.len() == 0 {
            proof {
                let t0 = Map::<Seq<u8>, Seq<u8>>::empty();
                assert(kv =~= Seq::<Seq<char>>::empty());
                assert(kv.map_values(|k: Seq<char>| stored_key(scope@, k)) =~= Seq::<Seq<u8>>::empty());
                assert(held_keys(t0, scope@, kv) =~= Set::<Seq<u8>>::empty());
                let t1 = if old(self)@.trees.contains_key(scope_prefix(scope@).0) { old(self)@.trees[scope_prefix(scope@).0] } else { t0 };
                assert(held_keys(t1, scope@, kv) =~= Set::<Seq<u8>>::empty());
                assert(held_keys(t1, scope@, kv).len() == 0);
            }
            return Ok(0);
        }
        let (top, _prefix) = parse_scope_prefix(scope);
        proof { lemma_trees_index(self.trees@, 0); }
        let _ = self.tree_index(top.as_str())?;
        let ghost t0 = self@.trees[top@];
        proof {
            assert(kv.subrange(0, 0) =~= Seq::<Seq<char>>::empty());
            assert(kv.subrange(0, 0).map_values(|k: Seq<char>| stored_key(scope@, k)) =~= Seq::<Seq<u8>>::empty());
            assert(stored_keys(scope@, kv.subrange(0, 0)) =~= Set::<Seq<u8>>::empty());
            assert(held_keys(t0, scope@, kv.subrange(0, 0)) =~= Set::<Seq<u8>>::empty());
        }
        let mut deleted: usize = 0;
        let mut i: usize = 0;
        while i < keys.len()
            invariant
                self.wf(),
                self@.enabled,
                same_settings(old(self)@, self@),
                i <= keys@.len(),
                deleted <= i,
                self@.deletes == wrap_add(old(self)@.deletes, deleted as u64),
                forall|a: int| 0 <= a < i ==> self@.trees.contains_key(stored_tree(scope@, #[trigger] keys@[a]@)),
                forall|a: int| 0 <= a < i ==> #[trigger] value_in(self@.trees,
                    stored_tree(scope@, keys@[a]@), stored_key(scope@, keys@[a]@)) is None,
                kv == str_views(keys@),
                top@ == scope_prefix(scope@).0,
                self@.trees.contains_key(top@),
                old(self)@.trees.contains_key(top@) ==> t0 == old(self)@.trees[top@],
                deleted == held_keys(t0, scope@, kv.subrange(0, i as int)).len(),
                forall|k: Seq<u8>| #[trigger] stored_keys(scope@, kv.subrange(0, i as int)).contains(k)
                    ==> !self@.trees[top@].contains_key(k),
                forall|k: Seq<u8>| !stored_keys(scope@, kv.subrange(0, i as int)).contains(k)
                    ==> (#[trigger] self@.trees[top@].contains_key(k) == t0.contains_key(k)),
            decreases keys@.len() - i,
        {
            let ghost prev = self@;
            let ghost pre = kv.subrange(0, i as int);
            let ghost sk = stored_key(scope@, keys@[i as int]@);
            proof {
                lemma_trees_index(self.trees@, 0);
                lemma_held_step(t0, scope@, pre, kv[i as int]);
                assert(kv.subrange(0, i + 1) =~= pre.push(kv[i as int]));
                assert(kv[i as int] == keys@[i as int]@);
                assert(stored_tree(scope@, keys@[i as int]@) == top@);
            }
            let existed = self.delete(scope, keys[i])?;
            proof {
                assert(existed == prev.trees[top@].contains_key(sk));
                assert forall|k: Seq<u8>| k != sk implies
                    (#[trigger] self@.trees[top@].contains_key(k) == prev.trees[top@].contains_key(k)) by {
                    if top@ != meta_tree() {
                        assert(value_in(self@.trees, top@, k) == value_in(prev.trees, top@, k));
                    } else {
                        assert(self@.meta() == prev.meta().remove(sk) || self@.meta() == prev.meta());
                    }
                }
                assert(!self@.trees[top@].contains_key(sk));
                assert(existed == (t0.contains_key(sk) && !stored_keys(scope@, pre).contains(sk)));
            }
            proof {
                assert forall|a: int| 0 <= a < i + 1 implies self@.trees.contains_key(stored_tree(scope@, #[trigger] keys@[a]@)) by {
                    if a < i {
                        assert(prev.trees.contains_key(stored_tree(scope@, keys@[a]@)));
                    }
                }
                assert forall|a: int| 0 <= a < i + 1 implies #[trigger] value_in(self@.trees,
                    stored_tree(scope@, keys@[a]@), stored_key(scope@, keys@[a]@)) is None by {
                    if a < i {
                        let t = stored_tree(scope@, keys@[a]@);
                        let k = stored_key(scope@, keys@[a]@);
                        assert(value_in(prev.trees, t, k) is None);
                        if t == meta_tree() {
                            assert(!prev.meta().contains_key(k));
                            lemma_trees_index(self.trees@, 0);
                            assert(!self@.meta().contains_key(k));
                        } else if !(t == stored_tree(scope@, keys@[i as int]@) && k == stored_key(scope@, keys@[i as int]@)) {
                            if prev.trees.contains_key(t) {
                                assert(value_in(self@.trees, t, k) == value_in(prev.trees, t, k));
                            }
                        }
                    }
                }
            }
            if existed {
                proof { lemma_wrap_step(old(self)@.deletes, deleted as u64); }
                deleted = deleted + 1;
            }
            i = i + 1;
        }
        proof {
            assert(kv.subrange(0, i as int) =~= kv);
            assert(held_keys(t0, scope@, str_views(keys@)).len() == deleted);
            assert(forall|k: Seq<u8>| !stored_keys(scope@, str_views(keys@)).contains(k)
                ==> (#[trigger] self@.trees[scope_prefix(scope@).0].contains_key(k) == t0.contains_key(k)));
        }
        Ok(deleted)
    }

    /// Removes the keys of `scope` (all keys of its top tree under its prefix)
    /// with their metadata; the number removed, each counted as a deletion. A
    /// failure of the listing of the keys or of a removal is a `DatabaseError`;
    /// the keys removed until then stay removed.
    pub fn delete_scope(&mut self, scope: &str) -> (r: Result<usize, CacheError>)
        requires
            old(self).wf(),
        ensures
            final(self).wf(),
            same_settings(old(self)@, final(self)@),
            !old(self)@.enabled ==> (r matches Err(CacheError::CacheDisabled) && final(self)@ == old(self)@),
            old(self)@.enabled ==> !(r matches Err(CacheError::CacheDisabled)),
            final(self)@.hits == old(self)@.hits,
            final(self)@.misses == old(self)@.misses,
            final(self)@.writes == old(self)@.writes,
            final(self)@.evictions == old(self)@.evictions,
            final(self)@.hot_keys == old(self)@.hot_keys,
            r matches Ok(n) ==> {
                let (top, prefix) = scope_prefix(scope@);
                &&& final(self)@.deletes == wrap_add(old(self)@.deletes, n as u64)
                &&& final(self)@.trees.contains_key(top)
                &&& data_kept_but(old(self)@, final(self)@, |t: Seq<char>, k: Seq<u8>| in_scope(top, key_bytes(prefix), t, k))
                &&& exists|ks: Seq<Seq<u8>>|
                    #[trigger] scope_swept(old(self)@, final(self)@, top, key_bytes(prefix), ks) && n == ks.len()
            },
    {
        if !self.config.enabled {
            return Err(CacheError::CacheDisabled);
        }
        self.remove_scope(scope, true)
    }

    /// Removes the keys of `scope` with their metadata, as `delete_scope` does,
    /// without counting them.
    pub fn clear_scope(&mut self, scope: &str) -> (r: Result<(), CacheError>)
        requires
            old(self).wf(),
        ensures
            final(self).wf(),
            same_settings(old(self)@, final(self)@),
            !old(self)@.enabled ==> (r matches Err(CacheError::CacheDisabled) && final(self)@ == old(self)@),
            old(self)@.enabled ==> !(r matches Err(CacheError::CacheDisabled)),
            final(self)@.hits == old(self)@.hits,
            final(self)@.misses == old(self)@.misses,
            final(self)@.writes == old(self)@.writes,
            final(self)@.deletes == old(self)@.deletes,
            final(self)@.evictions == old(self)@.evictions,
            final(self)@.hot_keys == old(self)@.hot_keys,
            r is Ok ==> {
                let (top, prefix) = scope_prefix(scope@);
                &&& final(self)@.trees.contains_key(top)
                &&& data_kept_but(old(self)@, final(self)@, |t: Seq<char>, k: Seq<u8>| in_scope(top, key_bytes(prefix), t, k))
                &&& exists|ks: Seq<Seq<u8>>|
                    #[trigger] scope_swept(old(self)@, final(self)@, top, key_bytes(prefix), ks)
            },
    {
        if !self.config.enabled {
            return Err(CacheError::CacheDisabled);
        }
        match self.remove_scope(scope, false) {
            Ok(_) => Ok(()),
            Err(e) => Err(e),
        }
    }

    /// Removes the keys of `scope` with their metadata; counts removals as
    /// deletions when `counted`.
    fn remove_scope(&mut self, scope: &str, counted: bool) -> (r: Result<usize, CacheError>)
        requires
            old(self).wf(),
        ensures
            final(self).wf(),
            same_settings(old(self)@, final(self)@),
            final(self)@.hits == old(self)@.hits,
            final(self)@.misses == old(self)@.misses,
            final(self)@.writes == old(self)@.writes,
            final(self)@.evictions == old(self)@.evictions,
            final(self)@.hot_keys == old(self)@.hot_keys,
            !counted ==> final(self)@.deletes == old(self)@.deletes,
            !(r matches Err(CacheError::CacheDisabled)),
            r matches Ok(n) ==> {
                let (top, prefix) = scope_prefix(scope@);
                &&& counted ==> final(self)@.deletes == wrap_add(old(self)@.deletes, n as u64)
                &&& final(self)@.trees.contains_key(top)
                &&& data_kept_but(old(self)@, final(self)@, |t: Seq<char>, k: Seq<u8>| in_scope(top, key_bytes(prefix), t, k))
                &&& exists|ks: Seq<Seq<u8>>|
                    #[trigger] scope_swept(old(self)@, final(self)@, top, key_bytes(prefix), ks) && n == ks.len()
            },
    {
        let (top, prefix) = parse_scope_prefix(scope);
        let pb = prefix.as_str().as_bytes();
        proof { lemma_trees_index(self.trees@, 0); }
        let i = self.tree_index(top.as_str())?;
        proof { lemma_trees_index(self.trees@, i as int); }
        let ghost start = self@;
        let ghost gone = |t: Seq<char>, k: Seq<u8>| in_scope(top@, pb@, t, k);
        let keys = match tree_prefix_keys(&self.trees[i].1, pb) {
            Ok(ks) => ks,
            Err(e) => {
                let msg = if counted { "删除缓存失败: " } else { "清空作用域失败: " };
                proof { lemma_opened_shrunk(old(self)@, self@, top@); }
                return Err(CacheError::DatabaseError(concat2(msg, e.as_str())));
            },
        };
        let ghost ks = keys@.map_values(|v: Vec<u8>| v@);
        proof {
            lemma_shrunk_refl(start);
            assert forall|a: int, b: int| 0 <= a < ks.len() && 0 <= b < ks.len() && a != b implies ks[a] != ks[b] by {
                if a < b {
                    assert(keys@[a]@ != keys@[b]@);
                } else {
                    assert(keys@[b]@ != keys@[a]@);
                }
            }
            assert forall|a: int| 0 <= a < keys@.len() implies start.trees[top@].contains_key(#[trigger] ks[a]) by {
                assert(tree_contents(self.trees@[i as int].1).contains_key(keys@[a]@));
            }
            assert forall|k: Seq<u8>| start.trees[top@].contains_key(k) && pb@.is_prefix_of(k) implies ks.contains(k) by {
                assert(tree_contents(self.trees@[i as int].1).contains_key(k));
                let a = choose|a: int| 0 <= a < keys@.len() && #[trigger] keys@[a]@ == k;
                assert(ks[a] == k);
            }
        }
        let mut count: usize = 0;
        let mut j: usize = 0;
        while j < keys.len()
            invariant
                self.wf(),
                gone == (|t: Seq<char>, k: Seq<u8>| in_scope(top@, pb@, t, k)),
                i < self.trees@.len(),
                self.trees@[i as int].0@ == top@,
                j <= keys@.len(),
                count <= j,
                same_settings(old(self)@, self@),
                self@.hits == old(self)@.hits,
                self@.misses == old(self)@.misses,
                self@.writes == old(self)@.writes,
                self@.evictions == old(self)@.evictions,
                self@.hot_keys == old(self)@.hot_keys,
                counted ==> self@.deletes == wrap_add(old(self)@.deletes, count as u64),
                !counted ==> self@.deletes == old(self)@.deletes,
                self@.trees.contains_key(top@),
                data_kept_but(start, self@, gone),
                forall|a: int| 0 <= a < keys@.len() ==> pb@.is_prefix_of(#[trigger] keys@[a]@),
                ks == keys@.map_values(|v: Vec<u8>| v@),
                ks.no_duplicates(),
                count == j,
                shrunk(start, self@),
                start.trees.contains_key(top@),
                forall|a: int| 0 <= a < keys@.len() ==> start.trees[top@].contains_key(#[trigger] ks[a]),
                forall|a: int| 0 <= a < j ==> !self@.trees[top@].contains_key(#[trigger] ks[a]),
                forall|a: int| j <= a < keys@.len() ==> self@.trees[top@].contains_key(#[trigger] ks[a]),
                forall|k: Seq<u8>| start.trees[top@].contains_key(k) && pb@.is_prefix_of(k)
                    ==> ks.contains(k),
                old(self)@.trees.contains_key(top@) ==> start.trees[top@] == old(self)@.trees[top@],
            decreases keys@.len() - j,
        {
            let k = keys[j].as_slice();
            let ghost prev = self@;
            let ghost pt = self.trees@;
            proof { lemma_trees_index(self.trees@, i as int); lemma_trees_index(self.trees@, 0); }
            match self.remove_in(i, k) {
                Ok(existed) => {
                    let ghost mid = self@;
                    proof {
                        assert(k@ == ks[j as int]);
                        assert(existed);
                        lemma_removed_shrunk(prev, mid, top@, k@);
                        lemma_shrunk_trans(start, prev, mid);
                    }
                    if existed {
                        proof { lemma_trees_index(self.trees@, 0); }
                        let _ = self.remove_in(0, k);
                        proof {
                            lemma_removed_shrunk(mid, self@, meta_tree(), k@);
                            lemma_shrunk_trans(start, mid, self@);
                        }
                        if counted {
                            proof { lemma_wrap_step(old(self)@.deletes, count as u64); }
                            self.deletes = self.deletes.wrapping_add(1);
                        }
                        count = count + 1;
                    }
                    proof {
                        assert forall|a: int| 0 <= a < j + 1 implies !self@.trees[top@].contains_key(#[trigger] ks[a]) by {
                            if a < j {
                                assert(!prev.trees[top@].contains_key(ks[a]));
                            }
                        }
                        assert forall|a: int| j + 1 <= a < keys@.len() implies self@.trees[top@].contains_key(#[trigger] ks[a]) by {
                            assert(prev.trees[top@].contains_key(ks[a]));
                            assert(ks[a] != ks[j as int]);
                        }
                        assert(gone(top@, k@));
                        assert forall|n: Seq<char>, k0: Seq<u8>| start.trees.contains_key(n) && n != meta_tree() && !gone(n, k0)
                            implies #[trigger] value_in(self@.trees, n, k0) == value_in(start.trees, n, k0) by {
                            assert(prev.trees.contains_key(n));
                            assert(value_in(mid.trees, n, k0) == value_in(prev.trees, n, k0));
                        }
                        assert forall|n: Seq<char>, k0: Seq<u8>| start.trees.contains_key(n) && n != meta_tree()
                            && #[trigger] value_in(self@.trees, n, k0) is Some implies value_in(self@.trees, n, k0) == value_in(start.trees, n, k0) by {
                            assert(prev.trees.contains_key(n));
                            assert(value_in(mid.trees, n, k0) == value_in(prev.trees, n, k0) || (n == top@ && k0 == k@));
                        }
                        assert(tree_names(pt)[i as int] == pt[i as int].0@);
                        assert(tree_names(self.trees@)[i as int] == self.trees@[i as int].0@);
                    }
                },
                Err(e) => {
                    let msg = if counted { "删除缓存失败: " } else { "清空作用域失败: " };
                    return Err(CacheError::DatabaseError(concat2(msg, e.as_str())));
                },
            }
            j = j + 1;
        }
        proof {
            assert(scope_swept(old(self)@, self@, top@, pb@, ks)) by {
                assert forall|a: int| 0 <= a < ks.len() implies pb@.is_prefix_of(#[trigger] ks[a])
                    && (old(self)@.trees.contains_key(top@) ==> old(self)@.trees[top@].contains_key(ks[a])) by {
                    assert(pb@.is_prefix_of(keys@[a]@));
                }
                assert forall|k: Seq<u8>| pb@.is_prefix_of(k) implies !#[trigger] self@.trees[top@].contains_key(k) by {
                    if self@.trees[top@].contains_key(k) {
                        assert(start.trees.contains_key(top@));
                        assert(start.trees[top@].contains_key(k));
                        assert(ks.contains(k));
                        let a = choose|a: int| 0 <= a < ks.len() && ks[a] == k;
                        assert(!self@.trees[top@].contains_key(ks[a]));
                    }
                }
            }
        }
        Ok(count)
    }

    /// Removes every piece of metadata. The values stay where they are, unread
    /// without their metadata.
    pub fn clear(&mut self) -> (r: Result<(), CacheError>)
        requires
            old(self).wf(),
        ensures
            final(self).wf(),
            !old(self)@.enabled ==> (r matches Err(CacheError::CacheDisabled) && final(self)@ == old(self)@),
            old(self)@.enabled ==> !(r matches Err(CacheError::CacheDisabled)),
            final(self)@ == (ManagerView { trees: final(self)@.trees, ..old(self)@ }),
            retouched(old(self)@.trees, final(self)@.trees, meta_tree()),
            r is Ok ==> final(self)@.meta().dom() == Set::<Seq<u8>>::empty(),
    {
        if !self.config.enabled {
            proof { lemma_trees_index(self.trees@, 0); lemma_retouched_same(self@.trees, meta_tree()); }
            return Err(CacheError::CacheDisabled);
        }
        match self.clear_in(0) {
            Ok(()) => {
                proof { lemma_trees_index(self.trees@, 0); }
                Ok(())
            },
            Err(e) => Err(CacheError::DatabaseError(concat2("清空元数据失败: ", e.as_str()))),
        }
    }

    /// Removes the entries of exactly `scope` whose metadata has expired at
    /// `now`, as `cleanup_expired_at` does, without a limit.
    pub fn cleanup_expired_by_scope_at(&mut self, scope: &str, now: u64) -> (r: Result<usize, CacheError>)
        requires
            old(self).wf(),
        ensures
            final(self).wf(),
            same_settings(old(self)@, final(self)@),
            same_counts(old(self)@, final(self)@),
            r matches Ok(n) ==> {
                &&& final(self)@.evictions == wrap_add(old(self)@.evictions, n as u64)
                &&& scope_cleaned(old(self)@, final(self)@, scope@, now)
            },
            r is Ok ==> forall|k: Seq<u8>| #[trigger] swept_in(old(self)@, final(self)@, scope@, k, now),
            r matches Err(CacheError::SerializationError(_)) ==> exists|k: Seq<u8>| old(self)@.meta().contains_key(k)
                && #[trigger] decoding(old(self)@.meta()[k]) is None,
            r matches Err(e) ==> e is DatabaseError || e is SerializationError,
    {
        proof { lemma_trees_index(self.trees@, 0); }
        let entries = match tree_entries(&self.trees[0].1) {
            Ok(es) => es,
            Err(e) => return Err(CacheError::DatabaseError(concat2("遍历元数据失败: ", e.as_str()))),
        };
        let (top, _) = parse_scope_prefix(scope);
        let ghost before = self@;
        let ghost gone = |t: Seq<char>, k: Seq<u8>| doomed_in(before, scope@, t, k, now);
        let mut count: usize = 0;
        let mut j: usize = 0;
        while j < entries.len()
            invariant
                self.wf(),
                old(self)@ == before,
                gone == (|t: Seq<char>, k: Seq<u8>| doomed_in(before, scope@, t, k, now)),
                top@ == scope_prefix(scope@).0,
                j <= entries@.len(),
                count <= j,
                same_settings(before, self@),
                same_counts(before, self@),
                self@.evictions == wrap_add(before.evictions, count as u64),
                data_kept_but(before, self@, gone),
                before.trees.contains_key(meta_tree()),
                forall|i: int| 0 <= i < entries@.len() ==> before.meta().contains_key(#[trigger] entries@[i].0@)
                    && before.meta()[entries@[i].0@] == entries@[i].1@,
                forall|i: int| 0 <= i < j ==> #[trigger] swept_in(before, self@, scope@, entries@[i].0@, now),
            decreases entries@.len() - j,
        {
            let ghost start = self@;
            let k = entries[j].0.as_slice();
            let m = match decode_meta(entries[j].1.as_slice()) {
                Some(m) => m,
                None => {
                    assert(decoding(before.meta()[entries@[j as int].0@]) is None);
                    return Err(CacheError::SerializationError(owned("反序列化元数据失败: 数据格式无效")));
                },
            };
            assert(before.meta().contains_key(entries@[j as int].0@));
            assert(decoding_at(before.meta(), k@) == Some(m@));
            if str_eq(m.scope.as_str(), scope) && m.meta.is_expired_at(now) {
                let ghost prev = self@;
                let i = self.tree_index(top.as_str())?;
                let ghost mid = self@;
                proof { lemma_trees_index(self.trees@, i as int); lemma_opened_shrunk(prev, mid, top@); }
                match self.remove_in(i, k) {
                    Ok(existed) => {
                        let ghost mid2 = self@;
                        proof {
                            lemma_removed_shrunk(mid, mid2, top@, k@);
                            lemma_shrunk_trans(prev, mid, mid2);
                            assert(gone_from(mid2, top@, k@));
                            assert(swept_in(before, mid2, scope@, k@, now));
                        }
                        assert(expired_at(m@.meta, now));
                        assert(doomed_in(before, scope@, top@, k@, now));
                        assert(gone(top@, k@));
                        assert forall|n: Seq<char>, k0: Seq<u8>| before.trees.contains_key(n) && n != meta_tree() && !gone(n, k0)
                            implies #[trigger] value_in(mid2.trees, n, k0) == value_in(before.trees, n, k0) by {
                            assert(value_in(mid.trees, n, k0) == value_in(prev.trees, n, k0));
                        }
                        assert forall|n: Seq<char>, k0: Seq<u8>| before.trees.contains_key(n) && n != meta_tree()
                            && #[trigger] value_in(mid2.trees, n, k0) is Some implies value_in(mid2.trees, n, k0) == value_in(before.trees, n, k0) by {
                            assert(value_in(mid.trees, n, k0) == value_in(prev.trees, n, k0));
                        }
                        if existed {
                            let _ = self.remove_in(0, k);
                            let ghost mid3 = self@;
                            proof {
                                lemma_removed_shrunk(mid2, mid3, meta_tree(), k@);
                                lemma_swept_in_kept(before, mid2, mid3, scope@, k@, now);
                                lemma_shrunk_trans(prev, mid2, mid3);
                            }
                            assert forall|n: Seq<char>, k0: Seq<u8>| before.trees.contains_key(n) && n != meta_tree()
                                implies #[trigger] value_in(mid3.trees, n, k0) == value_in(mid2.trees, n, k0) by {
                                assert(mid2.trees.contains_key(n));
                            }
                            proof { lemma_wrap_step(before.evictions, count as u64); }
                            count = count + 1;
                            self.evictions = self.evictions.wrapping_add(1);
                        }
                    },
                    Err(e) => return Err(CacheError::DatabaseError(concat2("删除过期条目失败: ", e.as_str()))),
                }
            }
            proof {
                lemma_shrunk_refl(self@);
                assert(shrunk(start, self@)) by {
                    if !(m@.scope == scope@ && (m.meta.expires_at matches Some(e) && now >= e)) {
                        assert(self@ == start);
                    }
                }
                assert forall|i: int| 0 <= i < j + 1 implies #[trigger] swept_in(before, self@, scope@, entries@[i].0@, now) by {
                    if i < j {
                        lemma_swept_in_kept(before, start, self@, scope@, entries@[i].0@, now);
                    }
                }
            }
            j = j + 1;
        }
        proof {
            assert forall|k0: Seq<u8>| #[trigger] swept_in(before, self@, scope@, k0, now) by {
                if before.meta().contains_key(k0) {
                    let i = choose|i: int| 0 <= i < entries@.len() && #[trigger] entries@[i].0@ == k0;
                    assert(swept_in(before, self@, scope@, entries@[i].0@, now));
                }
            }
        }
        Ok(count)
    }

    /// Writes `value` under `key` of `scope` now, to live `ttl` (the default
    /// lifetime when `None`); see `set_at`.
    pub fn set(&mut self, scope: &str, key: String, value: Vec<u8>, ttl: Option<Duration>) -> (r: Result<(), CacheError>)
        requires
            old(self).wf(),
        ensures
            final(self).wf(),
            same_settings(old(self)@, final(self)@),
            !old(self)@.enabled ==> (r matches Err(CacheError::CacheDisabled) && final(self)@ == old(self)@),
            old(self)@.enabled ==> !(r matches Err(CacheError::CacheDisabled)),
            r is Ok ==> exists|now: u64| #[trigger] written(final(self)@, scope@, key@, value@,
                lifetime(ttl, old(self)@.default_ttl_secs), now),
            r is Ok ==> final(self)@.writes == wrap_add(old(self)@.writes, 1),
            r is Ok ==> adds_at_most(old(self)@, final(self)@, stored_tree(scope@, key@), stored_key(scope@, key@)),
    {
        let now = unix_secs();
        let ttl_secs = ttl_secs_of(ttl);
        let ghost key_view = key@;
        let ghost value_view = value@;
        let r = self.set_at(scope, key, value, ttl_secs, now);
        proof {
            let t = lifetime(ttl, old(self)@.default_ttl_secs);
            assert(t == match ttl_secs { Some(x) => x, None => old(self)@.default_ttl_secs });
            assert(r is Ok ==> written(self@, scope@, key_view, value_view, t, now));
        }
        r
    }

    /// Writes `value` under `key` of `scope` now when `condition` allows it; see
    /// `set_with_condition_at`.
    pub fn set_with_condition<F: Fn(&Option<Vec<u8>>, &Option<StoredMeta>) -> bool>(
        &mut self,
        scope: &str,
        key: String,
        value: Vec<u8>,
        ttl: Option<Duration>,
        condition: F,
    ) -> (r: Result<(), CacheError>)
        requires
            old(self).wf(),
            forall|c: &Option<Vec<u8>>, m: &Option<StoredMeta>| #[trigger] condition.requires((c, m)),
        ensures
            final(self).wf(),
            same_settings(old(self)@, final(self)@),
            !old(self)@.enabled ==> (r matches Err(CacheError::CacheDisabled) && final(self)@ == old(self)@),
            r is Ok ==> exists|now: u64, c: Option<Vec<u8>>, m: Option<StoredMeta>, mid: ManagerView|
                #[trigger] consulted(old(self)@, mid, scope@, key@, now, c, m) && {
                ||| condition.ensures((&c, &m), false) && final(self)@ == mid
                ||| condition.ensures((&c, &m), true)
                    && written(final(self)@, scope@, key@, value@, lifetime(ttl, old(self)@.default_ttl_secs), now)
                    && final(self)@.writes == wrap_add(old(self)@.writes, 1)
                    && adds_at_most(old(self)@, final(self)@, stored_tree(scope@, key@), stored_key(scope@, key@))
            },
    {
        let now = unix_secs();
        let ttl_secs = ttl_secs_of(ttl);
        let r = self.set_with_condition_at(scope, key, value, ttl_secs, now, condition);
        proof {
            let t = lifetime(ttl, old(self)@.default_ttl_secs);
            assert(t == match ttl_secs { Some(x) => x, None => old(self)@.default_ttl_secs });
        }
        r
    }

    /// Writes each pair of `items` to `scope` now, to live `ttl`; see
    /// `set_batch_at`.
    pub fn set_batch(&mut self, scope: &str, items: &[(String, Vec<u8>)], ttl: Option<Duration>) -> (r: Result<(), CacheError>)
        requires
            old(self).wf(),
        ensures
            final(self).wf(),
            same_settings(old(self)@, final(self)@),
            !old(self)@.enabled ==> (r matches Err(CacheError::CacheDisabled) && final(self)@ == old(self)@),
            r is Ok ==> final(self)@.writes == wrap_add(old(self)@.writes, items@.len() as u64),
            r is Ok ==> exists|trace: Seq<ManagerView>, now: u64| #[trigger] batch_written(trace, scope@, items@,
                lifetime(ttl, old(self)@.default_ttl_secs), now)
                && (items@.len() > 0 ==> trace.last() == final(self)@),
            r is Ok ==> forall|i: int| 0 <= i < items@.len() && stored_tree(scope@, (#[trigger] items@[i]).0@) != meta_tree()
                && (forall|j: int| i < j < items@.len() ==> stored_key(scope@, items@[j].0@) != stored_key(scope@, items@[i].0@))
                && value_in(final(self)@.trees, stored_tree(scope@, items@[i].0@), stored_key(scope@, items@[i].0@)) is Some
                ==> value_in(final(self)@.trees, stored_tree(scope@, items@[i].0@), stored_key(scope@, items@[i].0@)) == Some(items@[i].1@),
    {
        let now = unix_secs();
        let ttl_secs = ttl_secs_of(ttl);
        let r = self.set_batch_at(scope, items, ttl_secs, now);
        proof {
            assert(lifetime(ttl, old(self)@.default_ttl_secs) == match ttl_secs { Some(x) => x, None => old(self)@.default_ttl_secs });
        }
        r
    }

    /// Removes entries whose metadata has expired now; see `cleanup_expired_at`.
    pub fn cleanup_expired(&mut self, max_items: Option<usize>) -> (r: Result<usize, CacheError>)
        requires
            old(self).wf(),
        ensures
            final(self).wf(),
            same_settings(old(self)@, final(self)@),
            same_counts(old(self)@, final(self)@),
            r matches Ok(n) ==> {
                &&& max_items matches Some(m) ==> n <= m
                &&& final(self)@.evictions == wrap_add(old(self)@.evictions, n as u64)
                &&& exists|now: u64| #[trigger] cleaned(old(self)@, final(self)@, now)
                    && ((match max_items { Some(m) => n < m, None => true })
                        ==> forall|k: Seq<u8>| #[trigger] swept(old(self)@, final(self)@, k, now))
            },
            r matches Err(CacheError::SerializationError(_)) ==> exists|k: Seq<u8>| old(self)@.meta().contains_key(k)
                && #[trigger] decoding(old(self)@.meta()[k]) is None,
            r matches Err(e) ==> e is DatabaseError || e is SerializationError,
    {
        let now = unix_secs();
        let ghost before = self@;
        let r = self.cleanup_expired_at(max_items, now);
        proof {
            if r is Ok {
                assert(cleaned(before, self@, now));
            }
        }
        r
    }

    /// Removes every entry whose metadata has expired now.
    pub fn cleanup_expired_default(&mut self) -> (r: Result<usize, CacheError>)
        requires
            old(self).wf(),
        ensures
            final(self).wf(),
            same_settings(old(self)@, final(self)@),
            same_counts(old(self)@, final(self)@),
            r matches Ok(n) ==> final(self)@.evictions == wrap_add(old(self)@.evictions, n as u64),
            r is Ok ==> exists|now: u64| #[trigger] cleaned(old(self)@, final(self)@, now)
                && forall|k: Seq<u8>| #[trigger] swept(old(self)@, final(self)@, k, now),
            r matches Err(CacheError::SerializationError(_)) ==> exists|k: Seq<u8>| old(self)@.meta().contains_key(k)
                && #[trigger] decoding(old(self)@.meta()[k]) is None,
            r matches Err(e) ==> e is DatabaseError || e is SerializationError,
    {
        self.cleanup_expired(None)
    }

    /// Removes the entries of exactly `scope` whose metadata has expired now;
    /// see `cleanup_expired_by_scope_at`.
    pub fn cleanup_expired_by_scope(&mut self, scope: &str) -> (r: Result<usize, CacheError>)
        requires
            old(self).wf(),
        ensures
            final(self).wf(),
            same_settings(old(self)@, final(self)@),
            same_counts(old(self)@, final(self)@),
            r matches Ok(n) ==> {
                &&& final(self)@.evictions == wrap_add(old(self)@.evictions, n as u64)
                &&& exists|now: u64| #[trigger] scope_cleaned(old(self)@, final(self)@, scope@, now)
                    && forall|k: Seq<u8>| #[trigger] swept_in(old(self)@, final(self)@, scope@, k, now)
            },
            r matches Err(CacheError::SerializationError(_)) ==> exists|k: Seq<u8>| old(self)@.meta().contains_key(k)
                && #[trigger] decoding(old(self)@.meta()[k]) is None,
            r matches Err(e) ==> e is DatabaseError || e is SerializationError,
    {
        let now = unix_secs();
        let ghost before = self@;
        let r = self.cleanup_expired_by_scope_at(scope, now);
        proof {
            if r is Ok {
                assert(scope_cleaned(before, self@, scope@, now));
            }
        }
        r
    }

    /// The metadata stored under `key`: `None` when there is none; an error when
    /// the metadata tree cannot be read or holds bytes that are no metadata.
    pub fn get_metadata(&self, key: &str) -> (r: Result<Option<StoredMeta>, CacheError>)
        requires
            self.wf(),
        ensures
            self.meta_read(key_bytes(key@), r),
    {
        self.read_meta(key.as_bytes())
    }

    /// What reading the metadata under `k` gives on success, and which error
    /// comes from stored bytes.
    pub open spec fn meta_read(&self, k: Seq<u8>, r: Result<Option<StoredMeta>, CacheError>) -> bool {
        match r {
            Ok(None) => !self@.meta().contains_key(k),
            Ok(Some(m)) => self@.meta().contains_key(k) && decoding(self@.meta()[k]) == Some(m@),
            Err(CacheError::SerializationError(_)) => self@.meta().contains_key(k) && decoding(self@.meta()[k]) is None,
            Err(e) => e is DatabaseError,
        }
    }

    fn read_meta(&self, key: &[u8]) -> (r: Result<Option<StoredMeta>, CacheError>)
        requires
            self.wf(),
        ensures
            self.meta_read(key@, r),
    {
        proof { lemma_trees_index(self.trees@, 0); }
        match tree_get(&self.trees[0].1, key) {
            Ok(Some(bytes)) => match decode_meta(bytes.as_slice()) {
                Some(m) => Ok(Some(m)),
                None => Err(CacheError::SerializationError(owned("反序列化元数据失败: 数据格式无效"))),
            },
            Ok(None) => Ok(None),
            Err(e) => Err(CacheError::DatabaseError(concat2("读取元数据失败: ", e.as_str()))),
        }
    }

    /// Stores `m` as the metadata of `key`.
    fn write_meta(&mut self, key: &[u8], m: &StoredMeta) -> (r: Result<(), CacheError>)
        requires
            old(self).wf(),
        ensures
            final(self).wf(),
            tree_names(final(self).trees@) == tree_names(old(self).trees@),
            final(self)@ == (ManagerView { trees: final(self)@.trees, ..old(self)@ }),
            retouched(old(self)@.trees, final(self)@.trees, meta_tree()),
            r is Ok ==> final(self)@.meta() == old(self)@.meta().insert(key@, encoding(m@)),
            r matches Err(e) ==> e is DatabaseError,
    {
        let bytes = encode_meta(m);
        match self.insert_in(0, key, bytes.as_slice()) {
            Ok(()) => Ok(()),
            Err(e) => Err(CacheError::DatabaseError(concat2("写入元数据失败: ", e.as_str()))),
        }
    }

    /// Records a read at `now` in the metadata of `key`, if there is any.
    fn touch_meta(&mut self, key: &[u8], now: u64) -> (r: Result<(), CacheError>)
        requires
            old(self).wf(),
        ensures
            final(self).wf(),
            tree_names(final(self).trees@) == tree_names(old(self).trees@),
            final(self)@ == (ManagerView { trees: final(self)@.trees, ..old(self)@ }),
            retouched(old(self)@.trees, final(self)@.trees, meta_tree()),
            r is Ok ==> final(self)@.meta() == match decoding_at(old(self)@.meta(), key@) {
                Some(m) => old(self)@.meta().insert(key@, encoding(touched(m, now))),
                None => old(self)@.meta(),
            },
    {
        proof { lemma_trees_index(self.trees@, 0); }
        match self.read_meta(key) {
            Ok(Some(m)) => {
                let mut m = m;
                if m.meta.access_count < u64::MAX {
                    m.meta.access_count = m.meta.access_count + 1;
                }
                m.meta.last_accessed_at = now;
                self.write_meta(key, &m)
            },
            Ok(None) => {
                proof { lemma_retouched_same(self@.trees, meta_tree()); }
                Ok(())
            },
            Err(e) => {
                proof { lemma_retouched_same(self@.trees, meta_tree()); }
                Err(e)
            },
        }
    }

    /// Removes every key of the tree at position `i`.
    fn clear_in(&mut self, i: usize) -> (r: Result<(), String>)
        requires
            old(self).wf(),
            i < old(self).trees@.len(),
        ensures
            final(self).wf(),
            tree_names(final(self).trees@) == tree_names(old(self).trees@),
            final(self)@ == (ManagerView { trees: final(self)@.trees, ..old(self)@ }),
            retouched(old(self)@.trees, final(self)@.trees, old(self).trees@[i as int].0@),
            r is Ok ==> final(self)@.trees[old(self).trees@[i as int].0@].dom() == Set::<Seq<u8>>::empty(),
    {
        let ghost v = self.trees@;
        proof { lemma_trees_index(v, i as int); }
        let (name, mut t) = self.trees.remove(i);
        let r = tree_clear(&mut t);
        self.trees.insert(i, (name, t));
        proof {
            assert(self.trees@ =~= v.update(i as int, (v[i as int].0, t)));
            lemma_trees_update(v, i as int, t);
        }
        r
    }
}

} // verus!
