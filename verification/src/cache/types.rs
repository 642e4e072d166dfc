//! Types of the persistent cache: its settings, counters and the metadata kept
//! with each entry.
use vstd::prelude::*;
use std::time::Duration;
use crate::clock::{clamped_secs, duration_as_nanos, duration_secs, unix_secs};
use crate::config::cache::{CacheBackend, CacheConfig};
use crate::text::owned;
use crate::cache::stats::{HotKeyInfo, LatencyStats};

verus! {

/// How the cache trades memory for speed.
#[derive(Debug, Clone, Copy, PartialEq, Eq, Structural)]
pub enum CacheMode {
    /// Fast reads and writes, more memory.
    LowLatency,
    /// Balanced.
    HighThroughput,
    /// Little memory, slower.
    LowMemory,
}

/// Settings of the persistent cache.
#[derive(Debug, Clone)]
pub struct CacheImplConfig {
    /// Path of the database.
    pub db_path: String,
    /// Default lifetime of entries in seconds.
    pub default_ttl_secs: u64,
    /// Largest size in bytes.
    pub max_size_bytes: u64,
    /// Whether the cache is on.
    pub enabled: bool,
    /// Whether data is compressed.
    pub compression: bool,
    /// Trade-off of memory and speed.
    pub mode: CacheMode,
}

impl Default for CacheImplConfig {
    fn default() -> (c: Self)
        ensures
            c.db_path@ == "./data/cache.db"@,
            c.default_ttl_secs == 3600,
            c.max_size_bytes == 1024 * 1024 * 1024,
            c.enabled,
            !c.compression,
            c.mode == CacheMode::HighThroughput,
    {
        CacheImplConfig {
            db_path: owned("./data/cache.db"),
            default_ttl_secs: 3600,
            max_size_bytes: 1024 * 1024 * 1024,
            enabled: true,
            compression: false,
            mode: CacheMode::HighThroughput,
        }
    }
}

impl CacheImplConfig {
    /// The cache settings of the configuration's cache section: on when either
    /// results or metadata are cached; the memory backend favours latency.
    pub fn from_config(config: &CacheConfig) -> (c: Self)
        ensures
            c.db_path@ == config.database_path@,
            c.default_ttl_secs == config.ttl,
            c.max_size_bytes == config.max_size,
            c.enabled == (config.enable_result_cache || config.enable_metadata_cache),
            c.compression == config.compression.enabled,
            c.mode == (if config.backend == CacheBackend::Memory { CacheMode::LowLatency } else { CacheMode::HighThroughput }),
    {
        CacheImplConfig {
            db_path: owned(config.database_path.as_str()),
            default_ttl_secs: config.ttl,
            max_size_bytes: config.max_size,
            enabled: config.enable_result_cache || config.enable_metadata_cache,
            compression: config.compression.enabled,
            mode: match config.backend {
                CacheBackend::Sled => CacheMode::HighThroughput,
                CacheBackend::Memory => CacheMode::LowLatency,
            },
        }
    }
}

/// Counters of the cache.
#[derive(Debug, Clone)]
pub struct CacheStats {
    /// Hits.
    pub hits: u64,
    /// Misses.
    pub misses: u64,
    /// Writes.
    pub writes: u64,
    /// Deletions.
    pub deletes: u64,
    /// Keys held.
    pub total_keys: u64,
    /// Estimated size in bytes.
    pub estimated_size_bytes: u64,
    /// Entries removed on expiry.
    pub evictions: u64,
    /// Latency of reads.
    pub get_latency: LatencyStats,
    /// Latency of writes.
    pub set_latency: LatencyStats,
    /// Latency of deletions.
    pub delete_latency: LatencyStats,
    /// Latency of batch reads.
    pub get_batch_latency: LatencyStats,
    /// Latency of batch writes.
    pub set_batch_latency: LatencyStats,
    /// Latency of batch deletions.
    pub delete_batch_latency: LatencyStats,
    /// The most used keys.
    pub hot_keys: Vec<HotKeyInfo>,
}

/// Latency before any operation is summarised.
pub open spec fn no_latency() -> LatencyStats {
    LatencyStats { count: 0, total_ns: 0, min_ns: 0, max_ns: 0, avg_ns: 0 }
}

impl Default for CacheStats {
    fn default() -> (s: Self)
        ensures
            s.hits == 0,
            s.misses == 0,
            s.writes == 0,
            s.deletes == 0,
            s.total_keys == 0,
            s.estimated_size_bytes == 0,
            s.evictions == 0,
            s.get_latency == no_latency(),
            s.set_latency == no_latency(),
            s.delete_latency == no_latency(),
            s.get_batch_latency == no_latency(),
            s.set_batch_latency == no_latency(),
            s.delete_batch_latency == no_latency(),
            s.hot_keys@.len() == 0,
    {
        let z = LatencyStats { count: 0, total_ns: 0, min_ns: 0, max_ns: 0, avg_ns: 0 };
        CacheStats {
            hits: 0,
            misses: 0,
            writes: 0,
            deletes: 0,
            total_keys: 0,
            estimated_size_bytes: 0,
            evictions: 0,
            get_latency: z,
            set_latency: z,
            delete_latency: z,
            get_batch_latency: z,
            set_batch_latency: z,
            delete_batch_latency: z,
            hot_keys: Vec::new(),
        }
    }
}

/// What is kept with each entry; times are seconds since the Unix epoch.
#[derive(Debug, Clone, Copy)]
pub struct CacheEntryMetadata {
    /// When the entry was made.
    pub created_at: u64,
    /// When it expires; `None` for never.
    pub expires_at: Option<u64>,
    /// Reads of the entry.
    pub access_count: u64,
    /// When it was last read.
    pub last_accessed_at: u64,
    /// Size of the data in bytes.
    pub size_bytes: usize,
}

/// The expiry of an entry made at `now` with a lifetime of `ttl_secs`, capped at
/// the largest time.
pub open spec fn expiry(now: u64, ttl_secs: Option<u64>) -> Option<u64> {
    match ttl_secs {
        Some(t) => Some(if now + t > u64::MAX { u64::MAX } else { (now + t) as u64 }),
        None => None,
    }
}

/// Whether an entry that expires at `expires_at` (never when `None`) has
/// expired at `now`.
pub open spec fn expired_by(expires_at: Option<u64>, now: u64) -> bool {
    expires_at matches Some(e) && now >= e
}

impl CacheEntryMetadata {
    /// Metadata of an entry of `size_bytes` made at `now` that lives `ttl_secs`
    /// seconds (for ever when `None`).
    pub fn new_at(now: u64, ttl_secs: Option<u64>, size_bytes: usize) -> (m: Self)
        ensures
            m.created_at == now,
            m.expires_at == expiry(now, ttl_secs),
            m.access_count == 0,
            m.last_accessed_at == now,
            m.size_bytes == size_bytes,
    {
        let expires_at = match ttl_secs {
            Some(t) => Some(now.saturating_add(t)),
            None => None,
        };
        CacheEntryMetadata { created_at: now, expires_at, access_count: 0, last_accessed_at: now, size_bytes }
    }

    /// Metadata of an entry of `size_bytes` made now that lives `ttl` (for ever
    /// when `None`), counted in whole seconds.
    pub fn new(ttl: Option<Duration>, size_bytes: usize) -> (m: Self)
        ensures
            m.expires_at == expiry(m.created_at, match ttl {
                Some(d) => Some(clamped_secs(duration_as_nanos(d))),
                None => None,
            }),
            m.access_count == 0,
            m.last_accessed_at == m.created_at,
            m.size_bytes == size_bytes,
    {
        let now = unix_secs();
        let ttl_secs = match ttl {
            Some(d) => Some(duration_secs(&d)),
            None => None,
        };
        Self::new_at(now, ttl_secs, size_bytes)
    }

    /// Whether the entry has expired at `now`: it has an expiry and `now` has
    /// reached it.
    pub fn is_expired_at(&self, now: u64) -> (b: bool)
        ensures
            b == (self.expires_at matches Some(e) && now >= e),
            b == expired_by(self.expires_at, now),
    {
        match self.expires_at {
            Some(e) => now >= e,
            None => false,
        }
    }

    /// Whether the entry has expired now. An entry without expiry never has.
    pub fn is_expired(&self) -> (b: bool)
        ensures
            self.expires_at is None ==> !b,
            exists|now: u64| b == #[trigger] expired_by(self.expires_at, now),
    {
        self.is_expired_at(unix_secs())
    }

    /// Records a read at `now`.
    pub fn update_access_at(&mut self, now: u64)
        requires
            old(self).access_count < u64::MAX,
        ensures
            final(self).access_count == old(self).access_count + 1,
            final(self).last_accessed_at == now,
            final(self).created_at == old(self).created_at,
            final(self).expires_at == old(self).expires_at,
            final(self).size_bytes == old(self).size_bytes,
    {
        self.access_count = self.access_count + 1;
        self.last_accessed_at = now;
    }

    /// Records a read now: one more access; the time of the read is what the
    /// clock gives, of which nothing is stated.
    pub fn update_access(&mut self)
        requires
            old(self).access_count < u64::MAX,
        ensures
            final(self).access_count == old(self).access_count + 1,
            final(self).created_at == old(self).created_at,
            final(self).expires_at == old(self).expires_at,
            final(self).size_bytes == old(self).size_bytes,
    {
        let now = unix_secs();
        self.update_access_at(now);
    }
}

} // verus!
