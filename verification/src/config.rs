//! Configuration: the sections of the settings, their defaults and their checks.
pub mod common;
pub mod server;
pub mod search;
pub mod privacy;
pub mod types;
pub mod general;
pub mod cache;
pub mod logging;
pub mod settings;
pub mod engines;
