//! Reading the clocks of the machine, and the length of a `Duration`. A clock
//! reading depends on the moment of the call, so no contract states what it is;
//! the logic that uses a reading takes it as an argument and is verified for
//! every value.
use vstd::prelude::*;
use std::time::{Duration, Instant};

verus! {

/// Declares `std::time::Instant`, a reading of the monotonic clock.
#[verifier::external_type_specification]
#[verifier::external_body]
pub struct ExInstant(Instant);

/// Reads the monotonic clock (`Instant::now`). Nothing is promised of the value.
#[verifier::external_body]
pub(crate) fn instant_now() -> (r: Instant) {
    Instant::now()
}

/// The nanoseconds from `earlier` to `later` (`Instant::saturating_duration_since`,
/// then `as_nanos`). The result depends on two clock readings, so it is left free.
#[verifier::external_body]
pub(crate) fn nanos_between(earlier: &Instant, later: &Instant) -> (r: u128) {
    later.saturating_duration_since(*earlier).as_nanos()
}

/// The nanoseconds since the Unix epoch (`SystemTime::now`, then
/// `duration_since(UNIX_EPOCH)`; 0 where the clock is before the epoch).
/// Nothing is promised of the value.
#[verifier::external_body]
pub(crate) fn unix_nanos() -> (r: u128) {
    std::time::SystemTime::now()
        .duration_since(std::time::UNIX_EPOCH)
        .map(|d| d.as_nanos())
        .unwrap_or(0)
}

/// The seconds since the Unix epoch by the UTC clock (`chrono::Utc::now`, then
/// `timestamp`). Nothing is promised of the value.
#[verifier::external_body]
pub(crate) fn utc_now_secs() -> (r: i64) {
    chrono::Utc::now().timestamp()
}

/// The whole seconds since the Unix epoch.
pub fn unix_secs() -> (r: u64) {
    let n = unix_nanos();
    let s = n / 1_000_000_000;
    if s > u64::MAX as u128 { u64::MAX } else { s as u64 }
}

/// What `Duration::as_nanos` gives for `d`: its whole nanoseconds.
pub uninterp spec fn duration_as_nanos(d: Duration) -> u128;

/// The length of a `Duration` in nanoseconds (`Duration::as_nanos`). `Duration` is
/// opaque to the verifier, so the value is named, not computed.
#[verifier::external_body]
pub(crate) fn duration_nanos(d: &Duration) -> (r: u128)
    ensures
        r == duration_as_nanos(*d),
{
    d.as_nanos()
}

/// The whole seconds of a duration given in nanoseconds, clamped to `u64`.
pub open spec fn clamped_secs(nanos: u128) -> u64 {
    if nanos / 1_000_000_000 > u64::MAX as u128 { u64::MAX } else { (nanos / 1_000_000_000) as u64 }
}

/// The whole seconds of `d`, clamped to `u64`.
pub fn duration_secs(d: &Duration) -> (r: u64)
    ensures
        r == clamped_secs(duration_as_nanos(*d)),
{
    let s = duration_nanos(d) / 1_000_000_000;
    if s > u64::MAX as u128 { u64::MAX } else { s as u64 }
}


} // verus!
