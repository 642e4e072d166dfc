//! Settings of the HTTP server and its middleware, and the answers of the cache
//! endpoints.
use vstd::prelude::*;
use crate::text::{concat3, decimal, owned, strs, u64_to_decimal, usize_to_decimal};

verus! {

/// Settings of the HTTP server.
#[derive(Debug, Clone)]
pub struct ServerConfig {
    /// Host to bind.
    pub host: String,
    /// Port to bind.
    pub port: u16,
    /// Origins allowed by CORS.
    pub cors_origins: Vec<String>,
    /// Whether requests are logged.
    pub enable_logging: bool,
}

impl Default for ServerConfig {
    fn default() -> (c: Self)
        ensures
            c.host@ == "0.0.0.0"@,
            c.port == 8080,
            strs(c.cors_origins@) == seq!["*"@],
            c.enable_logging,
    {
        let c = ServerConfig {
            host: owned("0.0.0.0"),
            port: 8080,
            cors_origins: vec![owned("*")],
            enable_logging: true,
        };
        assert(strs(c.cors_origins@) =~= seq!["*"@]);
        c
    }
}

/// Settings of API-key authentication.
#[derive(Debug, Clone)]
pub struct AuthConfig {
    /// Whether keys are checked.
    pub enabled: bool,
    /// The keys accepted.
    pub api_keys: Vec<String>,
}

impl Default for AuthConfig {
    fn default() -> (c: Self)
        ensures
            !c.enabled,
            c.api_keys@.len() == 0,
    {
        AuthConfig { enabled: false, api_keys: Vec::new() }
    }
}

/// Settings of request rate limiting.
#[derive(Debug, Clone, Copy)]
pub struct RateLimitConfig {
    /// Requests allowed per second.
    pub requests_per_second: u32,
    /// Requests allowed in a burst.
    pub burst_size: u32,
}

impl Default for RateLimitConfig {
    fn default() -> (c: Self)
        ensures
            c.requests_per_second == 10,
            c.burst_size == 20,
    {
        RateLimitConfig { requests_per_second: 10, burst_size: 20 }
    }
}

/// The answer of a request that clears or cleans the cache.
#[derive(Debug, Clone)]
pub struct CacheClearResponse {
    /// Whether it worked.
    pub success: bool,
    /// Entries removed.
    pub cleared_entries: usize,
    /// Message.
    pub message: String,
}

impl CacheClearResponse {
    /// The answer after the cache, which held `entries_before` entries, was cleared.
    pub fn cleared(entries_before: u64) -> (r: Self)
        requires
            entries_before <= usize::MAX,
        ensures
            r.success,
            r.cleared_entries == entries_before,
            r.message@ == "成功清除 "@ + decimal(entries_before as nat) + " 条缓存"@,
    {
        let d = u64_to_decimal(entries_before);
        CacheClearResponse {
            success: true,
            cleared_entries: entries_before as usize,
            message: concat3("成功清除 ", d.as_str(), " 条缓存"),
        }
    }

    /// The answer when clearing failed with `error`.
    pub fn clear_failed(error: &str) -> (r: Self)
        ensures
            !r.success,
            r.cleared_entries == 0,
            r.message@ == "清除缓存失败: "@ + error@,
    {
        CacheClearResponse { success: false, cleared_entries: 0, message: crate::text::concat2("清除缓存失败: ", error) }
    }

    /// The answer after `cleaned` expired entries were removed.
    pub fn cleaned(cleaned: usize) -> (r: Self)
        ensures
            r.success,
            r.cleared_entries == cleaned,
            r.message@ == "成功清理 "@ + decimal(cleaned as nat) + " 条过期缓存"@,
    {
        let d = usize_to_decimal(cleaned);
        CacheClearResponse { success: true, cleared_entries: cleaned, message: concat3("成功清理 ", d.as_str(), " 条过期缓存") }
    }

    /// The answer when cleaning failed with `error`.
    pub fn cleanup_failed(error: &str) -> (r: Self)
        ensures
            !r.success,
            r.cleared_entries == 0,
            r.message@ == "清理过期缓存失败: "@ + error@,
    {
        CacheClearResponse { success: false, cleared_entries: 0, message: crate::text::concat2("清理过期缓存失败: ", error) }
    }
}

} // verus!
