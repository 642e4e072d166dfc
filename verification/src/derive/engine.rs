//! What every search engine shares: the check of a query against the engine's
//! capabilities, health reports, and when to retry.
use vstd::prelude::*;
use crate::config::server::byte_len;
use crate::derive::error::DeriveError;
use crate::derive::types::{EngineInfo, EngineStatus, SearchQuery, keys_of};
use crate::text::{concat2, decimal, owned, strs, usize_to_decimal, vec_has_string};
use vstd::arithmetic::power2::{pow2, lemma2_to64, lemma2_to64_rest, lemma_pow2_strictly_increases, lemma_pow2_unfold};

verus! {

/// Whether `c` is white space in the sense of `char::is_whitespace` (the Unicode
/// `White_Space` property).
pub open spec fn is_white(c: char) -> bool {
    let n = c as u32;
    (0x9 <= n <= 0xD) || n == 0x20 || n == 0x85 || n == 0xA0 || n == 0x1680
        || (0x2000 <= n <= 0x200A) || n == 0x2028 || n == 0x2029 || n == 0x202F
        || n == 0x205F || n == 0x3000
}

/// Whether every character of `s` is white space (so `trim` leaves nothing).
pub open spec fn blank(s: Seq<char>) -> bool {
    forall|i: int| 0 <= i < s.len() ==> is_white(#[trigger] s[i])
}

/// Whether `c` is white space.
pub fn char_is_white(c: char) -> (b: bool)
    ensures
        b == is_white(c),
{
    let n = c as u32;
    (0x9 <= n && n <= 0xD) || n == 0x20 || n == 0x85 || n == 0xA0 || n == 0x1680
        || (0x2000 <= n && n <= 0x200A) || n == 0x2028 || n == 0x2029 || n == 0x202F
        || n == 0x205F || n == 0x3000
}

/// Whether `s` holds nothing but white space.
pub fn str_is_blank(s: &str) -> (b: bool)
    ensures
        b == blank(s@),
{
    let n = s.unicode_len();
    let mut i: usize = 0;
    while i < n
        invariant
            n == s@.len(),
            i <= n,
            forall|j: int| 0 <= j < i ==> is_white(#[trigger] s@[j]),
        decreases n - i,
    {
        let c = s.get_char(i);
        if !char_is_white(c) {
            return false;
        }
        i = i + 1;
    }
    true
}

/// The first of `keys` that is not among `supported`.
pub open spec fn first_unsupported(keys: Seq<Seq<char>>, supported: Seq<Seq<char>>) -> Option<Seq<char>>
    decreases keys.len(),
{
    if keys.len() == 0 {
        None
    } else if !supported.contains(keys[0]) {
        Some(keys[0])
    } else {
        first_unsupported(keys.drop_first(), supported)
    }
}

/// What is wrong with a query for an engine, as a message and the field at fault;
/// checked in order: a blank query, one longer than 1000 bytes, a page larger than
/// the engine allows, a time range the engine cannot filter by, a parameter it
/// does not understand (the first in the query's order).
pub open spec fn query_problem(info: &EngineInfo, q: &SearchQuery) -> Option<(Seq<char>, Seq<char>)> {
    let cap = info.capabilities;
    if blank(q.query@) {
        Some(("查询不能为空"@, "query"@))
    } else if byte_len(q.query@) > 1000 {
        Some(("查询过长，最多1000字符"@, "query"@))
    } else if q.page_size > cap.max_page_size {
        Some(("页面大小超出限制，最大"@ + decimal(cap.max_page_size as nat) + "个结果"@, "page_size"@))
    } else if q.time_range is Some && !cap.supports_time_range {
        Some(("不支持时间范围过滤"@, "time_range"@))
    } else {
        match first_unsupported(keys_of(q.params@), strs(cap.supported_params@)) {
            Some(k) => Some(("不支持的参数: "@ + k, "params"@)),
            None => None,
        }
    }
}

/// A validation error with a message and a field.
fn invalid(message: String, field: &str) -> (e: DeriveError)
    ensures
        e matches DeriveError::Validation { message: m, field: Some(f) } && m@ == message@ && f@ == field@,
{
    DeriveError::Validation { message, field: Some(owned(field)) }
}

/// Checks a query against an engine's capabilities: `Ok` exactly when
/// `query_problem` finds nothing; otherwise a `Validation` error carrying its
/// message and field.
pub fn validate_query(info: &EngineInfo, query: &SearchQuery) -> (r: Result<(), DeriveError>)
    ensures
        match query_problem(info, query) {
            None => r is Ok,
            Some((m, f)) => r matches Err(DeriveError::Validation { message, field: Some(fl) })
                && message@ == m && fl@ == f,
        },
{
    if str_is_blank(query.query.as_str()) {
        return Err(invalid(owned("查询不能为空"), "query"));
    }
    let len = query.query.as_str().len();
    assert(len == byte_len(query.query@));
    if len > 1000 {
        return Err(invalid(owned("查询过长，最多1000字符"), "query"));
    }
    let cap = &info.capabilities;
    if query.page_size > cap.max_page_size {
        let d = usize_to_decimal(cap.max_page_size);
        let mut m = concat2("页面大小超出限制，最大", d.as_str());
        m.append("个结果");
        return Err(invalid(m, "page_size"));
    }
    if query.time_range.is_some() && !cap.supports_time_range {
        return Err(invalid(owned("不支持时间范围过滤"), "time_range"));
    }
    let ghost keys = keys_of(query.params@);
    let ghost supported = strs(cap.supported_params@);
    let n = query.params.len();
    let mut i: usize = 0;
    assert(keys.skip(0) =~= keys);
    while i < n
        invariant
            n == query.params@.len(),
            keys == keys_of(query.params@),
            supported == strs(info.capabilities.supported_params@),
            i <= n,
            first_unsupported(keys, supported) == first_unsupported(keys.skip(i as int), supported),
            !blank(query.query@),
            byte_len(query.query@) <= 1000,
            query.page_size <= info.capabilities.max_page_size,
            !(query.time_range is Some && !info.capabilities.supports_time_range),
        decreases n - i,
    {
        let (k, _) = query.params.entry(i);
        assert(keys.skip(i as int)[0] == k@);
        assert(keys.skip(i as int).drop_first() =~= keys.skip(i + 1));
        if !vec_has_string(&info.capabilities.supported_params, k.as_str()) {
            assert(first_unsupported(keys.skip(i as int), supported) == Some(k@));
            return Err(invalid(concat2("不支持的参数: ", k.as_str()), "params"));
        }
        i = i + 1;
    }
    assert(keys.skip(i as int).len() == 0);
    Ok(())
}

/// The health of an engine.
#[derive(Debug, Clone)]
pub struct EngineHealth {
    /// State.
    pub status: EngineStatus,
    /// Response time in milliseconds.
    pub response_time_ms: u64,
    /// Error message, if any.
    pub error_message: Option<String>,
}

/// The health an engine reports when it has nothing better to say: active, no
/// delay, no error.
pub fn default_health() -> (h: EngineHealth)
    ensures
        h.status == EngineStatus::Active,
        h.response_time_ms == 0,
        h.error_message is None,
{
    EngineHealth { status: EngineStatus::Active, response_time_ms: 0, error_message: None }
}

/// Retries an engine makes unless it says otherwise.
pub const DEFAULT_MAX_RETRIES: usize = 3;

/// Milliseconds to wait before retry number `attempt` (from 0): one second,
/// doubled at each attempt.
pub open spec fn backoff_ms(attempt: nat) -> nat {
    1000 * pow2(attempt)
}

/// The wait before retry number `attempt`, in milliseconds.
pub fn retry_delay_ms(attempt: u32) -> (ms: u64)
    requires
        attempt <= 54,
    ensures
        ms == backoff_ms(attempt as nat),
{
    let mut ms: u64 = 1000;
    let mut k: u32 = 0;
    proof {
        lemma2_to64();
        lemma2_to64_rest();
    }
    while k < attempt
        invariant
            k <= attempt <= 54,
            ms == backoff_ms(k as nat),
            pow2(53) == 0x20000000000000,
        decreases attempt - k,
    {
        proof {
            lemma_pow2_unfold((k + 1) as nat);
            if k < 53 {
                lemma_pow2_strictly_increases(k as nat, 53);
            }
        }
        ms = ms * 2;
        k = k + 1;
    }
    ms
}

/// Whether an error is worth retrying: network failures and timeouts are.
pub fn is_retryable_error(error: &DeriveError) -> (b: bool)
    ensures
        b == (error is Network || error is Timeout),
{
    match error {
        DeriveError::Network { .. } => true,
        DeriveError::Timeout { .. } => true,
        _ => false,
    }
}

/// Whether attempt number `attempt` (from 0) that failed with `error` is retried:
/// while attempts remain and the error is retryable.
pub fn should_retry(error: &DeriveError, attempt: usize, max_retries: usize) -> (b: bool)
    ensures
        b == (attempt < max_retries && (error is Network || error is Timeout)),
{
    attempt < max_retries && is_retryable_error(error)
}

/// What a retrying search does after an attempt.
#[derive(Debug)]
pub enum RetryStep<T> {
    /// Stop with this outcome.
    Finish(Result<T, DeriveError>),
    /// Wait this many milliseconds, then try again; the error is kept in case the
    /// retries run out.
    RetryAfter {
        /// Milliseconds to wait.
        delay_ms: u64,
        /// The error of this attempt.
        error: DeriveError,
    },
}

/// The decision after attempt number `attempt` (from 0) of at most
/// `max_retries + 1`: a success finishes; a retryable error with attempts left is
/// retried after the back-off; any other error finishes with that error.
pub fn retry_step<T>(outcome: Result<T, DeriveError>, attempt: usize, max_retries: usize) -> (s: RetryStep<T>)
    requires
        attempt <= 54,
    ensures
        match outcome {
            Ok(v) => s matches RetryStep::Finish(Ok(w)) && w == v,
            Err(e) => if attempt < max_retries && (e is Network || e is Timeout) {
                s matches RetryStep::RetryAfter { delay_ms, error } && delay_ms == backoff_ms(attempt as nat)
                    && error == e
            } else {
                s matches RetryStep::Finish(Err(x)) && x == e
            },
        },
{
    match outcome {
        Ok(v) => RetryStep::Finish(Ok(v)),
        Err(e) => {
            if should_retry(&e, attempt, max_retries) {
                let delay_ms = retry_delay_ms(attempt as u32);
                RetryStep::RetryAfter { delay_ms, error: e }
            } else {
                RetryStep::Finish(Err(e))
            }
        },
    }
}

/// The outcome when every attempt failed: the last error kept, or an internal
/// error when there was none.
pub fn retries_exhausted(last_error: Option<DeriveError>) -> (e: DeriveError)
    ensures
        match last_error {
            Some(x) => e == x,
            None => e matches DeriveError::Internal { message } && message@ == "所有重试尝试均失败"@,
        },
{
    match last_error {
        Some(x) => x,
        None => DeriveError::Internal { message: owned("所有重试尝试均失败") },
    }
}

/// An engine that is made from, and can take, a configuration of its own kind.
pub trait ConfigurableEngine: Sized {
    /// The configuration.
    type Config;

    /// Makes the engine from `config`.
    fn from_config(config: Self::Config) -> Result<Self, DeriveError>;

    /// Replaces the engine's configuration.
    fn update_config(&mut self, config: Self::Config) -> Result<(), DeriveError>;
}

} // verus!
