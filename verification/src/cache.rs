//! The persistent cache.
pub mod types;
pub mod codec;
pub mod store;
pub mod stats;
pub mod manager;
pub mod scope;
