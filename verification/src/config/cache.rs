//! Settings of the cache section.
use vstd::prelude::*;
use crate::text::owned;

verus! {

/// Where cached data is kept.
#[derive(Debug, Clone, Copy, PartialEq, Eq, Structural)]
pub enum CacheBackend {
    /// The embedded sled database.
    Sled,
    /// Memory only.
    Memory,
}

/// Compression of cached data.
#[derive(Debug, Clone, Copy)]
pub struct CompressionConfig {
    /// Whether data is compressed.
    pub enabled: bool,
}

/// Settings of the cache section.
#[derive(Debug, Clone)]
pub struct CacheConfig {
    /// Lifetime of entries in seconds.
    pub ttl: u64,
    /// Largest size in bytes.
    pub max_size: u64,
    /// Whether search results are cached.
    pub enable_result_cache: bool,
    /// Whether engine metadata is cached.
    pub enable_metadata_cache: bool,
    /// Path of the database.
    pub database_path: String,
    /// Compression.
    pub compression: CompressionConfig,
    /// Backend.
    pub backend: CacheBackend,
}

/// What `CacheConfig::default` gives.
pub open spec fn is_default_cache(c: CacheConfig) -> bool {
    &&& c.ttl == 3600
    &&& c.max_size == 1024 * 1024 * 1024
    &&& c.enable_result_cache
    &&& c.enable_metadata_cache
    &&& c.database_path@ == "./data/cache.db"@
    &&& !c.compression.enabled
    &&& c.backend == CacheBackend::Sled
}

impl Default for CacheConfig {
    fn default() -> (c: Self)
        ensures
            is_default_cache(c),
    {
        CacheConfig {
            ttl: 3600,
            max_size: 1024 * 1024 * 1024,
            enable_result_cache: true,
            enable_metadata_cache: true,
            database_path: owned("./data/cache.db"),
            compression: CompressionConfig { enabled: false },
            backend: CacheBackend::Sled,
        }
    }
}

} // verus!
