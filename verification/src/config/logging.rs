//! Settings of logging.
use vstd::prelude::*;
use crate::config::common::LogLevel;

verus! {

/// Settings of logging.
#[derive(Debug, Clone, Copy)]
pub struct LoggingConfig {
    /// Least severity logged.
    pub level: LogLevel,
}

/// What `LoggingConfig::default` gives.
pub open spec fn is_default_logging(c: LoggingConfig) -> bool {
    &&& c.level == LogLevel::Info
}

impl Default for LoggingConfig {
    fn default() -> (c: Self)
        ensures
            is_default_logging(c),
    {
        LoggingConfig { level: LogLevel::Info }
    }
}

} // verus!
