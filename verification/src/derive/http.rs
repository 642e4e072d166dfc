//! Declarations of the `reqwest` types the library holds, and thin wrappers of the
//! `reqwest` calls it makes.
use vstd::prelude::*;
use std::time::Duration;
use crate::text::decimal;

verus! {

/// Declares `reqwest::Client`, an HTTP client.
#[verifier::external_type_specification]
#[verifier::external_body]
pub struct ExClient(reqwest::Client);

/// Declares `reqwest::ClientBuilder`, the builder of an HTTP client.
#[verifier::external_type_specification]
#[verifier::external_body]
pub struct ExClientBuilder(reqwest::ClientBuilder);

/// Declares `reqwest::redirect::Policy`, how redirects are followed.
#[verifier::external_type_specification]
#[verifier::external_body]
pub struct ExPolicy(reqwest::redirect::Policy);

/// Declares `reqwest::RequestBuilder`, a request being prepared.
#[verifier::external_type_specification]
#[verifier::external_body]
pub struct ExRequestBuilder(reqwest::RequestBuilder);

/// Declares `reqwest::Error`, an error of the HTTP client.
#[verifier::external_type_specification]
#[verifier::external_body]
pub struct ExReqwestError(reqwest::Error);

/// A fresh `reqwest` client builder (`reqwest::Client::builder`).
#[verifier::external_body]
pub(crate) fn reqwest_builder() -> (b: reqwest::ClientBuilder) {
    reqwest::Client::builder()
}

/// The builder that `ClientBuilder::timeout` makes of `b`: a request timeout of
/// `secs` seconds.
pub uninterp spec fn timeout_set(b: reqwest::ClientBuilder, secs: u64) -> reqwest::ClientBuilder;

/// The builder that `ClientBuilder::user_agent` makes of `b` with `agent`.
pub uninterp spec fn user_agent_set(b: reqwest::ClientBuilder, agent: Seq<char>) -> reqwest::ClientBuilder;

/// The builder that `ClientBuilder::connect_timeout` makes of `b`: a connect
/// timeout of `secs` seconds.
pub uninterp spec fn connect_timeout_set(b: reqwest::ClientBuilder, secs: u64) -> reqwest::ClientBuilder;

/// The builder that `ClientBuilder::pool_max_idle_per_host` makes of `b` with `max`.
pub uninterp spec fn pool_idle_set(b: reqwest::ClientBuilder, max: usize) -> reqwest::ClientBuilder;

/// The builder that `ClientBuilder::redirect` makes of `b` with `policy`.
pub uninterp spec fn redirect_set(b: reqwest::ClientBuilder, policy: reqwest::redirect::Policy) -> reqwest::ClientBuilder;

/// The builder that `ClientBuilder::gzip` makes of `b` with `enable`.
pub uninterp spec fn gzip_set(b: reqwest::ClientBuilder, enable: bool) -> reqwest::ClientBuilder;

/// The policy that `redirect::Policy::limited` makes for `max`.
pub uninterp spec fn limited_policy(max: usize) -> reqwest::redirect::Policy;

/// Sets the request timeout (`ClientBuilder::timeout`), named `timeout_set`.
#[verifier::external_body]
pub(crate) fn with_timeout(b: reqwest::ClientBuilder, secs: u64) -> (r: reqwest::ClientBuilder)
    ensures
        r == timeout_set(b, secs),
{
    b.timeout(Duration::from_secs(secs))
}

/// Sets the user agent (`ClientBuilder::user_agent`), named `user_agent_set`; an
/// agent that is no valid header value makes the later `build` fail.
#[verifier::external_body]
pub(crate) fn with_user_agent(b: reqwest::ClientBuilder, agent: &str) -> (r: reqwest::ClientBuilder)
    ensures
        r == user_agent_set(b, agent@),
{
    b.user_agent(agent)
}

/// Sets the connect timeout (`ClientBuilder::connect_timeout`), named
/// `connect_timeout_set`.
#[verifier::external_body]
pub(crate) fn with_connect_timeout(b: reqwest::ClientBuilder, secs: u64) -> (r: reqwest::ClientBuilder)
    ensures
        r == connect_timeout_set(b, secs),
{
    b.connect_timeout(Duration::from_secs(secs))
}

/// Sets the idle connections kept per host (`ClientBuilder::pool_max_idle_per_host`),
/// named `pool_idle_set`.
#[verifier::external_body]
pub(crate) fn with_pool_max_idle(b: reqwest::ClientBuilder, max: usize) -> (r: reqwest::ClientBuilder)
    ensures
        r == pool_idle_set(b, max),
{
    b.pool_max_idle_per_host(max)
}

/// Sets the redirect policy (`ClientBuilder::redirect`), named `redirect_set`.
#[verifier::external_body]
pub(crate) fn with_redirect(b: reqwest::ClientBuilder, policy: reqwest::redirect::Policy) -> (r: reqwest::ClientBuilder)
    ensures
        r == redirect_set(b, policy),
{
    b.redirect(policy)
}

/// Turns gzip on or off (`ClientBuilder::gzip`), named `gzip_set`.
#[verifier::external_body]
pub(crate) fn with_gzip(b: reqwest::ClientBuilder, enable: bool) -> (r: reqwest::ClientBuilder)
    ensures
        r == gzip_set(b, enable),
{
    b.gzip(enable)
}

/// Follows no redirect (`redirect::Policy::none`).
#[verifier::external_body]
pub(crate) fn no_redirects() -> (p: reqwest::redirect::Policy) {
    reqwest::redirect::Policy::none()
}

/// Follows at most `max` redirects (`redirect::Policy::limited`), named
/// `limited_policy`.
#[verifier::external_body]
pub(crate) fn limited_redirects(max: usize) -> (p: reqwest::redirect::Policy)
    ensures
        p == limited_policy(max),
{
    reqwest::redirect::Policy::limited(max)
}

/// Builds the client (`ClientBuilder::build`); on failure, the error's message.
/// Whether it fails depends on the settings and on the TLS backend of the machine,
/// so nothing is stated of the outcome.
#[verifier::external_body]
pub(crate) fn build_reqwest(b: reqwest::ClientBuilder) -> (r: Result<reqwest::Client, String>) {
    b.build().map_err(|e| e.to_string())
}

/// The request that `Client::get` prepares on `client` for `url`.
pub uninterp spec fn get_request(client: reqwest::Client, url: Seq<char>) -> reqwest::RequestBuilder;

/// The request that `Client::post` prepares on `client` for `url`.
pub uninterp spec fn post_request(client: reqwest::Client, url: Seq<char>) -> reqwest::RequestBuilder;

/// A GET request to `url` (`Client::get`), named `get_request`.
#[verifier::external_body]
pub(crate) fn client_get(client: &reqwest::Client, url: &str) -> (r: reqwest::RequestBuilder)
    ensures
        r == get_request(*client, url@),
{
    client.get(url)
}

/// A POST request to `url` (`Client::post`), named `post_request`.
#[verifier::external_body]
pub(crate) fn client_post(client: &reqwest::Client, url: &str) -> (r: reqwest::RequestBuilder)
    ensures
        r == post_request(*client, url@),
{
    client.post(url)
}

/// A client with `reqwest`'s defaults (`Client::new`).
#[verifier::external_body]
pub(crate) fn default_reqwest_client() -> (c: reqwest::Client) {
    reqwest::Client::new()
}

/// The text `http` shows for a status after its number: the canonical reason
/// phrase, or `<unknown status code>` (`StatusCode`'s `Display`).
pub uninterp spec fn status_reason(code: u16) -> Seq<char>;

/// Renders a status as `http` does (`StatusCode::from_u16`, then `Display`):
/// the number, a space, and the reason.
#[verifier::external_body]
pub(crate) fn status_text(code: u16) -> (s: String)
    requires
        100 <= code <= 999,
    ensures
        s@ == decimal(code as nat) + " "@ + status_reason(code),
{
    match reqwest::StatusCode::from_u16(code) {
        Ok(s) => s.to_string(),
        Err(_) => code.to_string(),
    }
}

/// What `reqwest::Error::is_timeout` says of `e`.
pub uninterp spec fn timed_out_of(e: reqwest::Error) -> bool;

/// What `reqwest::Error::is_status` says of `e`.
pub uninterp spec fn status_failure_of(e: reqwest::Error) -> bool;

/// The number of the status that `reqwest::Error::status` gives for `e`, if any.
pub uninterp spec fn status_code_of(e: reqwest::Error) -> Option<u16>;

/// The text that `e` displays.
pub uninterp spec fn reqwest_message_of(e: reqwest::Error) -> Seq<char>;

/// Whether the request timed out (`reqwest::Error::is_timeout`).
#[verifier::external_body]
pub(crate) fn reqwest_is_timeout(e: &reqwest::Error) -> (b: bool)
    ensures
        b == timed_out_of(*e),
{
    e.is_timeout()
}

/// Whether the error came from a failure status (`reqwest::Error::is_status`).
#[verifier::external_body]
pub(crate) fn reqwest_is_status(e: &reqwest::Error) -> (b: bool)
    ensures
        b == status_failure_of(*e),
{
    e.is_status()
}

/// The status code the error carries, if any (`reqwest::Error::status`).
#[verifier::external_body]
pub(crate) fn reqwest_status(e: &reqwest::Error) -> (c: Option<u16>)
    ensures
        c == status_code_of(*e),
{
    e.status().map(|s| s.as_u16())
}

/// The message of the error (its `Display`).
#[verifier::external_body]
pub(crate) fn reqwest_error_text(e: &reqwest::Error) -> (s: String)
    ensures
        s@ == reqwest_message_of(*e),
{
    e.to_string()
}

} // verus!
