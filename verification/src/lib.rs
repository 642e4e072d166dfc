//! A verified core of the SeeSea metasearch engine: configuration, transactions,
//! caching, rate limiting and request helpers.
use vstd::prelude::*;

pub mod text;
pub mod error;
pub mod clock;
pub mod transaction;
pub mod derive;
pub mod config;
pub mod cache;
pub mod api;
pub mod tf;
pub mod cli;

verus! {
}
