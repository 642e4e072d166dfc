//! A view of the persistent cache restricted to one scope.
use vstd::prelude::*;
use std::time::Duration;
use crate::cache::manager::{CacheError, CacheManager, lifetime, keeps_data, read_data, read_outcome, stale_outcome,
    opt_bytes, opt_flagged, stored_key, stored_tree, value_in, written, same_settings, same_counts, data_same_but,
    data_kept_but, in_scope, key_bytes, scope_prefix, scope_cleaned, swept_in};
use crate::cache::stats::wrap_add;

verus! {

/// The persistent cache as seen from one scope: every operation goes to that
/// scope of the cache it holds.
pub struct ScopeCache {
    manager: CacheManager,
    scope: String,
}

impl ScopeCache {
    /// The cache it holds.
    pub closed spec fn cache(&self) -> CacheManager {
        self.manager
    }

    /// The scope.
    pub closed spec fn scope_view(&self) -> Seq<char> {
        self.scope@
    }

    /// The scope `scope` of `manager`.
    pub fn new(manager: CacheManager, scope: String) -> (c: Self)
        ensures
            c.cache() == manager,
            c.scope_view() == scope@,
    {
        ScopeCache { manager, scope }
    }

    /// The scope.
    pub fn scope(&self) -> (s: &str)
        ensures
            s@ == self.scope_view(),
    {
        self.scope.as_str()
    }

    /// Gives the cache back.
    pub fn into_manager(self) -> (m: CacheManager)
        ensures
            m == self.cache(),
    {
        self.manager
    }

    /// Reads `key` of the scope now; see `CacheManager::get`.
    pub fn get(&mut self, key: &str) -> (r: Result<Option<Vec<u8>>, CacheError>)
        requires
            old(self).cache().wf(),
        ensures
            final(self).cache().wf(),
            final(self).scope_view() == old(self).scope_view(),
            same_settings(old(self).cache()@, final(self).cache()@),
            !old(self).cache()@.enabled ==> (r matches Err(CacheError::CacheDisabled) && final(self).cache()@ == old(self).cache()@),
            old(self).cache()@.enabled ==> !(r matches Err(CacheError::CacheDisabled)),
            keeps_data(old(self).cache()@.trees, final(self).cache()@.trees, stored_tree(old(self).scope_view(), key@)),
            r matches Ok(v) ==> exists|now: u64| opt_bytes(v) == #[trigger] read_outcome(old(self).cache()@,
                read_data(old(self).cache()@, final(self).cache()@, old(self).scope_view(), key@), old(self).scope_view(), key@, now),
    {
        self.manager.get(self.scope.as_str(), key)
    }

    /// Reads `key` of the scope now, expired or not; see
    /// `CacheManager::get_include_stale`.
    pub fn get_include_stale(&mut self, key: &str) -> (r: Result<Option<(Vec<u8>, bool)>, CacheError>)
        requires
            old(self).cache().wf(),
        ensures
            final(self).cache().wf(),
            final(self).scope_view() == old(self).scope_view(),
            same_settings(old(self).cache()@, final(self).cache()@),
            !old(self).cache()@.enabled ==> (r matches Err(CacheError::CacheDisabled) && final(self).cache()@ == old(self).cache()@),
            old(self).cache()@.enabled ==> !(r matches Err(CacheError::CacheDisabled)),
            keeps_data(old(self).cache()@.trees, final(self).cache()@.trees, stored_tree(old(self).scope_view(), key@)),
            r matches Ok(x) ==> exists|now: u64| opt_flagged(x) == #[trigger] stale_outcome(old(self).cache()@,
                read_data(old(self).cache()@, final(self).cache()@, old(self).scope_view(), key@), old(self).scope_view(), key@, now),
    {
        self.manager.get_include_stale(self.scope.as_str(), key)
    }

    /// Writes `value` under `key` of the scope now; see `CacheManager::set`.
    pub fn set(&mut self, key: String, value: Vec<u8>, ttl: Option<Duration>) -> (r: Result<(), CacheError>)
        requires
            old(self).cache().wf(),
        ensures
            final(self).cache().wf(),
            final(self).scope_view() == old(self).scope_view(),
            same_settings(old(self).cache()@, final(self).cache()@),
            !old(self).cache()@.enabled ==> (r matches Err(CacheError::CacheDisabled) && final(self).cache()@ == old(self).cache()@),
            old(self).cache()@.enabled ==> !(r matches Err(CacheError::CacheDisabled)),
            r is Ok ==> exists|now: u64| #[trigger] written(final(self).cache()@, old(self).scope_view(), key@, value@,
                lifetime(ttl, old(self).cache()@.default_ttl_secs), now),
    {
        let ghost k = key@;
        let ghost v = value@;
        let ghost t = lifetime(ttl, self.manager@.default_ttl_secs);
        let ghost before = self.manager@;
        let sc = self.scope.as_str();
        let r = self.manager.set(sc, key, value, ttl);
        proof {
            if r is Ok {
                assert(sc@ == self.scope@);
                assert(self.manager@.writes == wrap_add(before.writes, 1));
                assert(t == lifetime(ttl, before.default_ttl_secs));
                assert(exists|now: u64| #[trigger] written(self.manager@, sc@, k, v, lifetime(ttl, before.default_ttl_secs), now));
                assert(exists|now: u64| #[trigger] written(self.manager@, self.scope@, k, v, t, now));
                let now = choose|now: u64| #[trigger] written(self.manager@, self.scope@, k, v, t, now);
                assert(written(self.manager@, self.scope@, k, v, t, now));
                assert(self.cache()@ == self.manager@);
                assert(self.scope_view() == old(self).scope_view());
                assert(t == lifetime(ttl, old(self).cache()@.default_ttl_secs));
                assert(written(self.cache()@, old(self).scope_view(), k, v, lifetime(ttl, old(self).cache()@.default_ttl_secs), now));
            }
        }
        r
    }

    /// Removes `key` of the scope; see `CacheManager::delete`.
    pub fn delete(&mut self, key: &str) -> (r: Result<bool, CacheError>)
        requires
            old(self).cache().wf(),
        ensures
            final(self).cache().wf(),
            final(self).scope_view() == old(self).scope_view(),
            same_settings(old(self).cache()@, final(self).cache()@),
            !old(self).cache()@.enabled ==> (r matches Err(CacheError::CacheDisabled) && final(self).cache()@ == old(self).cache()@),
            old(self).cache()@.enabled ==> !(r matches Err(CacheError::CacheDisabled)),
            r matches Ok(b) ==> {
                let top = stored_tree(old(self).scope_view(), key@);
                let k = stored_key(old(self).scope_view(), key@);
                &&& final(self).cache()@.trees.contains_key(top)
                &&& value_in(final(self).cache()@.trees, top, k) is None
                &&& old(self).cache()@.trees.contains_key(top) ==> b == (value_in(old(self).cache()@.trees, top, k) is Some)
                &&& data_same_but(old(self).cache()@, final(self).cache()@, top, k)
            },
    {
        self.manager.delete(self.scope.as_str(), key)
    }

    /// Removes every key of the scope; see `CacheManager::clear_scope`.
    pub fn clear(&mut self) -> (r: Result<(), CacheError>)
        requires
            old(self).cache().wf(),
        ensures
            final(self).cache().wf(),
            final(self).scope_view() == old(self).scope_view(),
            same_settings(old(self).cache()@, final(self).cache()@),
            !old(self).cache()@.enabled ==> (r matches Err(CacheError::CacheDisabled) && final(self).cache()@ == old(self).cache()@),
            old(self).cache()@.enabled ==> !(r matches Err(CacheError::CacheDisabled)),
            r is Ok ==> {
                let (top, prefix) = scope_prefix(old(self).scope_view());
                &&& final(self).cache()@.trees.contains_key(top)
                &&& data_kept_but(old(self).cache()@, final(self).cache()@,
                    |t: Seq<char>, k: Seq<u8>| in_scope(top, key_bytes(prefix), t, k))
            },
    {
        self.manager.clear_scope(self.scope.as_str())
    }

    /// Removes the expired entries of the scope now; see
    /// `CacheManager::cleanup_expired_by_scope`.
    pub fn cleanup_expired(&mut self) -> (r: Result<usize, CacheError>)
        requires
            old(self).cache().wf(),
        ensures
            final(self).cache().wf(),
            final(self).scope_view() == old(self).scope_view(),
            same_settings(old(self).cache()@, final(self).cache()@),
            same_counts(old(self).cache()@, final(self).cache()@),
            r matches Ok(n) ==> {
                &&& final(self).cache()@.evictions == wrap_add(old(self).cache()@.evictions, n as u64)
                &&& exists|now: u64| #[trigger] scope_cleaned(old(self).cache()@, final(self).cache()@, old(self).scope_view(), now)
                    && forall|k: Seq<u8>| #[trigger] swept_in(old(self).cache()@, final(self).cache()@, old(self).scope_view(), k, now)
            },
            r matches Err(e) ==> e is DatabaseError || e is SerializationError,
    {
        let ghost before = self.manager@;
        let r = self.manager.cleanup_expired_by_scope(self.scope.as_str());
        proof {
            assert(before == old(self).cache()@);
            if r is Ok {
                let n = r->Ok_0;
                assert(self.cache()@.evictions == wrap_add(before.evictions, n as u64));
                let now = choose|now: u64| #[trigger] scope_cleaned(before, self.manager@, self.scope@, now)
                    && forall|k: Seq<u8>| #[trigger] swept_in(before, self.manager@, self.scope@, k, now);
                assert(scope_cleaned(before, self.cache()@, self.scope_view(), now)
                    && forall|k: Seq<u8>| #[trigger] swept_in(before, self.cache()@, self.scope_view(), k, now));
            }
        }
        r
    }
}

} // verus!
