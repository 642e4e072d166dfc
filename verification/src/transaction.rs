//! Transactions: recorded calls that are executed on commit and can be undone later.
pub mod error;
pub mod transaction;
pub mod manager;
pub mod proxy;
