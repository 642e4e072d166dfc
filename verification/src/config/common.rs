//! Types shared by the configuration sections: levels, strategies and the result
//! of validating a section.
use vstd::prelude::*;
pub use crate::text::strs;

verus! {

/// One message when `cond` holds, none otherwise.
pub open spec fn msg_if(cond: bool, m: Seq<char>) -> Seq<Seq<char>> {
    if cond { seq![m] } else { Seq::empty() }
}

/// How strictly results are filtered for adult content.
#[derive(Debug, Clone, Copy, PartialEq, Eq, Structural)]
pub enum SafeSearchLevel {
    /// No filtering.
    Off,
    /// Moderate filtering.
    Moderate,
    /// Strict filtering.
    Strict,
}

/// Severity threshold of the log.
#[derive(Debug, Clone, Copy, PartialEq, Eq, Structural)]
pub enum LogLevel {
    /// Everything.
    Trace,
    /// Debugging detail.
    Debug,
    /// Normal operation.
    Info,
    /// Warnings and errors.
    Warn,
    /// Errors only.
    Error,
}

/// Where the list of engines comes from.
#[derive(Debug, Clone, Copy, PartialEq, Eq, Structural)]
pub enum EngineLoadingMode {
    /// From the settings file.
    Settings,
    /// Every engine that is compiled in.
    All,
}

/// How much of the TLS fingerprint is disguised.
#[derive(Debug, Clone, Copy, PartialEq, Eq, Structural)]
pub enum FingerprintLevel {
    /// No protection.
    Off,
    /// Basic protection.
    Basic,
    /// Advanced protection.
    Advanced,
}

/// The kind of a proxy.
#[derive(Debug, Clone, Copy, PartialEq, Eq, Structural)]
pub enum ProxyType {
    /// An HTTP proxy.
    Http,
    /// An HTTPS proxy.
    Https,
    /// A SOCKS5 proxy.
    Socks5,
}

/// How request times are randomised.
#[derive(Debug, Clone, Copy, PartialEq, Eq, Structural)]
pub enum TimingStrategy {
    /// No randomisation.
    Off,
    /// Light randomisation.
    Light,
    /// Heavy randomisation.
    Heavy,
}

/// The outcome of validating configuration: errors make it invalid, warnings do not.
#[derive(Debug, Clone)]
pub struct ConfigValidationResult {
    /// Whether no error was found.
    pub is_valid: bool,
    /// The errors, in the order they were found.
    pub errors: Vec<String>,
    /// The warnings, in the order they were found.
    pub warnings: Vec<String>,
}

impl ConfigValidationResult {
    /// A result with no error and no warning.
    pub fn success() -> (r: Self)
        ensures
            r.is_valid,
            r.errors@.len() == 0,
            r.warnings@.len() == 0,
    {
        ConfigValidationResult { is_valid: true, errors: Vec::new(), warnings: Vec::new() }
    }

    /// A result with no error and no warning.
    pub fn valid() -> (r: Self)
        ensures
            r.is_valid,
            r.errors@.len() == 0,
            r.warnings@.len() == 0,
    {
        Self::success()
    }

    /// Records an error; the result is then invalid.
    pub fn add_error(&mut self, message: String)
        ensures
            !final(self).is_valid,
            strs(final(self).errors@) == strs(old(self).errors@).push(message@),
            final(self).warnings@ == old(self).warnings@,
    {
        self.errors.push(message);
        self.is_valid = false;
        proof {
            assert(strs(self.errors@) =~= strs(old(self).errors@).push(message@));
        }
    }

    /// Records a warning; validity is unchanged.
    pub fn add_warning(&mut self, message: String)
        ensures
            final(self).is_valid == old(self).is_valid,
            final(self).errors@ == old(self).errors@,
            strs(final(self).warnings@) == strs(old(self).warnings@).push(message@),
    {
        self.warnings.push(message);
        proof {
            assert(strs(self.warnings@) =~= strs(old(self).warnings@).push(message@));
        }
    }

    /// Records the error `message` when `cond` holds.
    pub fn error_if(&mut self, cond: bool, message: &str)
        ensures
            final(self).is_valid == (old(self).is_valid && !cond),
            strs(final(self).errors@) == strs(old(self).errors@) + msg_if(cond, message@),
            final(self).warnings@ == old(self).warnings@,
    {
        if cond {
            self.add_error(String::from_str(message));
        }
        assert(strs(self.errors@) =~= strs(old(self).errors@) + msg_if(cond, message@));
    }

    /// Records the warning `message` when `cond` holds.
    pub fn warning_if(&mut self, cond: bool, message: &str)
        ensures
            final(self).is_valid == old(self).is_valid,
            final(self).errors@ == old(self).errors@,
            strs(final(self).warnings@) == strs(old(self).warnings@) + msg_if(cond, message@),
    {
        if cond {
            self.add_warning(String::from_str(message));
        }
        assert(strs(self.warnings@) =~= strs(old(self).warnings@) + msg_if(cond, message@));
    }

    /// Appends the errors and warnings of `other`; the result is valid only when both were.
    pub fn merge(&mut self, other: ConfigValidationResult)
        ensures
            final(self).is_valid == (old(self).is_valid && other.is_valid),
            strs(final(self).errors@) == strs(old(self).errors@) + strs(other.errors@),
            strs(final(self).warnings@) == strs(old(self).warnings@) + strs(other.warnings@),
    {
        let mut other = other;
        let ghost e0 = self.errors@;
        let ghost w0 = self.warnings@;
        let ghost oe = other.errors@;
        let ghost ow = other.warnings@;
        self.errors.append(&mut other.errors);
        self.warnings.append(&mut other.warnings);
        self.is_valid = self.is_valid && other.is_valid;
        proof {
            assert(strs(self.errors@) =~= strs(e0) + strs(oe));
            assert(strs(self.warnings@) =~= strs(w0) + strs(ow));
        }
    }
}

impl Default for ConfigValidationResult {
    fn default() -> (r: Self)
        ensures
            r.is_valid,
            r.errors@.len() == 0,
            r.warnings@.len() == 0,
    {
        Self::success()
    }
}

} // verus!
