//! Errors of the search-engine layer.
use vstd::prelude::*;
use crate::text::{decimal, owned, concat2, u64_to_decimal};
use crate::derive::http::{reqwest_error_text, reqwest_is_status, reqwest_is_timeout, reqwest_status,
    reqwest_message_of, status_code_of, status_failure_of, timed_out_of};

verus! {

/// Declares `serde_json::Error`, an error of JSON parsing.
#[verifier::external_type_specification]
#[verifier::external_body]
pub struct ExJsonError(serde_json::Error);

/// Declares `url::ParseError`, an error of URL parsing.
#[verifier::external_type_specification]
#[verifier::external_body]
pub struct ExUrlParseError(url::ParseError);

/// The text that a JSON error displays, which tells the line and column.
pub uninterp spec fn json_message_of(e: serde_json::Error) -> Seq<char>;

/// The message of a JSON error (its `Display`).
#[verifier::external_body]
fn json_error_text(e: &serde_json::Error) -> (s: String)
    ensures
        s@ == json_message_of(*e),
{
    e.to_string()
}

/// What `url::ParseError` displays for an error.
pub uninterp spec fn url_error_text(e: url::ParseError) -> Seq<char>;

/// The message of a URL error (its `Display`), a fixed text per kind of error.
#[verifier::external_body]
fn url_error_string(e: &url::ParseError) -> (s: String)
    ensures
        s@ == url_error_text(*e),
{
    e.to_string()
}

/// The kind of a cache operation.
#[derive(Debug, Clone, Copy, PartialEq, Eq, Structural)]
pub enum CacheOperation {
    /// A read.
    Read,
    /// A write.
    Write,
    /// A delete.
    Delete,
}

impl CacheOperation {
    /// The display name of the operation.
    pub open spec fn label(&self) -> Seq<char> {
        match self {
            CacheOperation::Read => "读取"@,
            CacheOperation::Write => "写入"@,
            CacheOperation::Delete => "删除"@,
        }
    }

    /// Renders the display name of the operation.
    pub fn to_string(&self) -> (r: String)
        ensures
            r@ == self.label(),
    {
        match self {
            CacheOperation::Read => owned("读取"),
            CacheOperation::Write => owned("写入"),
            CacheOperation::Delete => owned("删除"),
        }
    }
}

/// An error of a search engine.
#[derive(Debug)]
pub enum DeriveError {
    /// The query parameters are invalid.
    Validation {
        /// What is wrong.
        message: String,
        /// The field at fault, if known.
        field: Option<String>,
    },
    /// A network request failed.
    Network {
        /// What went wrong.
        message: String,
        /// The HTTP status code, if any.
        status_code: Option<u16>,
    },
    /// A response could not be parsed.
    Parse {
        /// What went wrong.
        message: String,
        /// The content type being parsed, if known.
        content_type: Option<String>,
    },
    /// A request timed out.
    Timeout {
        /// The timeout, in seconds.
        duration_secs: u64,
    },
    /// The engine configuration is invalid.
    Configuration {
        /// What is wrong.
        message: String,
    },
    /// A cache operation failed.
    Cache {
        /// What went wrong.
        message: String,
        /// The operation that failed.
        operation: CacheOperation,
    },
    /// A rate limit was hit.
    RateLimit {
        /// Seconds to wait before retrying.
        retry_after_secs: u64,
    },
    /// The engine is unavailable.
    EngineUnavailable {
        /// The engine.
        engine_name: String,
        /// Why.
        reason: String,
    },
    /// An unexpected internal error.
    Internal {
        /// What went wrong.
        message: String,
    },
}

/// The result type of the search-engine layer.
pub type Result<T> = std::result::Result<T, DeriveError>;

impl DeriveError {
    /// The message of the error, as `to_string` renders it.
    pub open spec fn message(&self) -> Seq<char> {
        match self {
            DeriveError::Validation { message, field } => match field {
                Some(f) => "验证错误[字段: "@ + f@ + "]: "@ + message@,
                None => "验证错误: "@ + message@,
            },
            DeriveError::Network { message, status_code } => match status_code {
                Some(c) => "网络错误[状态码: "@ + decimal(*c as nat) + "]: "@ + message@,
                None => "网络错误: "@ + message@,
            },
            DeriveError::Parse { message, content_type } => match content_type {
                Some(ct) => "解析错误[类型: "@ + ct@ + "]: "@ + message@,
                None => "解析错误: "@ + message@,
            },
            DeriveError::Timeout { duration_secs } =>
                "请求超时: "@ + decimal(*duration_secs as nat) + "秒后无响应"@,
            DeriveError::Configuration { message } => "配置错误: "@ + message@,
            DeriveError::Cache { message, operation } =>
                "缓存"@ + operation.label() + "错误: "@ + message@,
            DeriveError::RateLimit { retry_after_secs } =>
                "速率限制: 请在"@ + decimal(*retry_after_secs as nat) + "秒后重试"@,
            DeriveError::EngineUnavailable { engine_name, reason } =>
                "搜索引擎 '"@ + engine_name@ + "' 不可用: "@ + reason@,
            DeriveError::Internal { message } => "内部错误: "@ + message@,
        }
    }

    /// Renders the error message.
    pub fn to_string(&self) -> (r: String)
        ensures
            r@ == self.message(),
    {
        match self {
            DeriveError::Validation { message, field } => match field {
                Some(f) => {
                    let mut r = concat2("验证错误[字段: ", f.as_str());
                    r.append("]: ");
                    r.append(message.as_str());
                    r
                },
                None => concat2("验证错误: ", message.as_str()),
            },
            DeriveError::Network { message, status_code } => match status_code {
                Some(c) => {
                    let code = u64_to_decimal(*c as u64);
                    let mut r = concat2("网络错误[状态码: ", code.as_str());
                    r.append("]: ");
                    r.append(message.as_str());
                    r
                },
                None => concat2("网络错误: ", message.as_str()),
            },
            DeriveError::Parse { message, content_type } => match content_type {
                Some(ct) => {
                    let mut r = concat2("解析错误[类型: ", ct.as_str());
                    r.append("]: ");
                    r.append(message.as_str());
                    r
                },
                None => concat2("解析错误: ", message.as_str()),
            },
            DeriveError::Timeout { duration_secs } => {
                let d = u64_to_decimal(*duration_secs);
                let mut r = concat2("请求超时: ", d.as_str());
                r.append("秒后无响应");
                r
            },
            DeriveError::Configuration { message } => concat2("配置错误: ", message.as_str()),
            DeriveError::Cache { message, operation } => {
                let op = operation.to_string();
                let mut r = concat2("缓存", op.as_str());
                r.append("错误: ");
                r.append(message.as_str());
                r
            },
            DeriveError::RateLimit { retry_after_secs } => {
                let d = u64_to_decimal(*retry_after_secs);
                let mut r = concat2("速率限制: 请在", d.as_str());
                r.append("秒后重试");
                r
            },
            DeriveError::EngineUnavailable { engine_name, reason } => {
                let mut r = concat2("搜索引擎 '", engine_name.as_str());
                r.append("' 不可用: ");
                r.append(reason.as_str());
                r
            },
            DeriveError::Internal { message } => concat2("内部错误: ", message.as_str()),
        }
    }

    /// The error for a failed HTTP request: a timeout is reported as a 30-second
    /// `Timeout`; otherwise a `Network` error with the message, and the status code
    /// when the failure was a status.
    pub fn from_http_failure(timed_out: bool, is_status: bool, status: Option<u16>, message: String) -> (e: Self)
        ensures
            timed_out ==> e == (DeriveError::Timeout { duration_secs: 30 }),
            !timed_out ==> (e matches DeriveError::Network { message: m, status_code }
                && m == message && status_code == (if is_status { status } else { None })),
    {
        if timed_out {
            DeriveError::Timeout { duration_secs: 30 }
        } else if is_status {
            DeriveError::Network { message, status_code: status }
        } else {
            DeriveError::Network { message, status_code: None }
        }
    }

    /// The error for a failed `reqwest` request, classified by `from_http_failure`.
    pub fn from_reqwest_error(err: reqwest::Error) -> (e: Self)
        ensures
            timed_out_of(err) ==> e == (DeriveError::Timeout { duration_secs: 30 }),
            !timed_out_of(err) ==> (e matches DeriveError::Network { message: m, status_code }
                && m@ == reqwest_message_of(err)
                && status_code == (if status_failure_of(err) { status_code_of(err) } else { None })),
    {
        let timed_out = reqwest_is_timeout(&err);
        let is_status = reqwest_is_status(&err);
        let status = reqwest_status(&err);
        let message = reqwest_error_text(&err);
        Self::from_http_failure(timed_out, is_status, status, message)
    }

    /// The error for a JSON document that could not be parsed.
    pub fn from_json_error(err: serde_json::Error) -> (e: Self)
        ensures
            e matches DeriveError::Parse { message: m, content_type: Some(ct) }
                && m@ == json_message_of(err) && ct@ == "application/json"@,
    {
        Self::from_json_error_message(json_error_text(&err))
    }

    /// The error for a URL that could not be parsed.
    pub fn from_url_error(err: url::ParseError) -> (e: Self)
        ensures
            e matches DeriveError::Validation { message, field: Some(f) }
                && message@ == "无效的 URL: "@ + url_error_text(err) && f@ == "url"@,
    {
        let t = url_error_string(&err);
        Self::from_url_error_message(t.as_str())
    }

    /// The error for a JSON document that could not be parsed, carrying the parser's
    /// message.
    pub fn from_json_error_message(message: String) -> (e: Self)
        ensures
            e matches DeriveError::Parse { message: m, content_type: Some(ct) }
                && m == message && ct@ == "application/json"@,
    {
        DeriveError::Parse { message, content_type: Some(owned("application/json")) }
    }

    /// The error for a URL that could not be parsed, carrying the parser's message.
    pub fn from_url_error_message(detail: &str) -> (e: Self)
        ensures
            e matches DeriveError::Validation { message, field: Some(f) }
                && message@ == "无效的 URL: "@ + detail@ && f@ == "url"@,
    {
        DeriveError::Validation { message: concat2("无效的 URL: ", detail), field: Some(owned("url")) }
    }
}

} // verus!
