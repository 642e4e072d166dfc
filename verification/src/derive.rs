//! The search-engine layer: query and result types, errors, HTTP client settings,
//! an in-memory result cache and a rate limiter.
pub mod error;
pub mod rate_limit;
pub mod types;
pub mod engine;
pub mod cache;
pub mod client;
pub mod http;
