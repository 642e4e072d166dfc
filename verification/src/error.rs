//! The service-wide error record and the two constructors the service uses for
//! network and search failures.
use vstd::prelude::*;
use crate::text::owned;

verus! {

/// The part of the service an error comes from.
#[derive(Debug, Clone, Copy, PartialEq, Eq, Structural)]
pub enum ErrorCategory {
    /// Talking to other hosts.
    Network,
    /// Running a search.
    Search,
}

/// An error of the service: a numeric code, a message and, once known, its
/// category.
#[derive(Debug, Clone)]
pub struct ErrorInfo {
    /// Numeric code.
    pub code: u32,
    /// What went wrong.
    pub message: String,
    /// Where it comes from.
    pub category: Option<ErrorCategory>,
}

impl ErrorInfo {
    /// An error with `code` and `message` and no category yet.
    pub fn new(code: u32, message: String) -> (e: Self)
        ensures
            e.code == code,
            e.message == message,
            e.category is None,
    {
        ErrorInfo { code, message, category: None }
    }

    /// The same error, put in `category`.
    pub fn with_category(self, category: ErrorCategory) -> (e: Self)
        ensures
            e.code == self.code,
            e.message == self.message,
            e.category == Some(category),
    {
        ErrorInfo { category: Some(category), ..self }
    }
}

/// A network error: code 1000.
pub fn network_error(message: &str) -> (e: ErrorInfo)
    ensures
        e.code == 1000,
        e.message@ == message@,
        e.category == Some(ErrorCategory::Network),
{
    ErrorInfo::new(1000, owned(message)).with_category(ErrorCategory::Network)
}

/// A search error: code 2000.
pub fn search_error(message: &str) -> (e: ErrorInfo)
    ensures
        e.code == 2000,
        e.message@ == message@,
        e.category == Some(ErrorCategory::Search),
{
    ErrorInfo::new(2000, owned(message)).with_category(ErrorCategory::Search)
}

} // verus!
