//! The HTTP API: its settings and the logic behind its handlers.
pub mod json;
pub mod stock;
pub mod settings;
pub mod rss;
pub mod stock_bridge;
pub mod pages;
pub mod magic_link;
