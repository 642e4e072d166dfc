//! HTTP client settings, the building of a `reqwest` client from them, and the
//! check of a response status.
use vstd::prelude::*;
use crate::derive::error::DeriveError;
use crate::text::{concat2, decimal, owned, starts_with_seq};
use crate::derive::http::{get_request, post_request, build_reqwest, client_get, client_post, default_reqwest_client, limited_redirects,
    no_redirects, reqwest_builder, status_reason, status_text, with_connect_timeout, with_gzip, with_pool_max_idle,
    with_redirect, with_timeout, with_user_agent, timeout_set, user_agent_set, connect_timeout_set, pool_idle_set,
    redirect_set, gzip_set, limited_policy};

verus! {

/// Settings of an HTTP client.
#[derive(Debug, Clone)]
pub struct ClientConfig {
    /// Timeout of a request in seconds.
    pub timeout_secs: u64,
    /// User agent.
    pub user_agent: String,
    /// Whether redirects are followed.
    pub follow_redirects: bool,
    /// Most redirects followed.
    pub max_redirects: usize,
    /// Whether gzip is accepted.
    pub gzip: bool,
    /// Timeout of connecting in seconds.
    pub connect_timeout_secs: u64,
    /// Most idle connections kept per host.
    pub pool_max_idle_per_host: usize,
}

impl Default for ClientConfig {
    fn default() -> (c: Self)
        ensures
            c.timeout_secs == 30,
            c.user_agent@ == "SeeSea/0.1.0"@,
            c.follow_redirects,
            c.max_redirects == 10,
            c.gzip,
            c.connect_timeout_secs == 10,
            c.pool_max_idle_per_host == 32,
    {
        ClientConfig {
            timeout_secs: 30,
            user_agent: owned("SeeSea/0.1.0"),
            follow_redirects: true,
            max_redirects: 10,
            gzip: true,
            connect_timeout_secs: 10,
            pool_max_idle_per_host: 32,
        }
    }
}

/// The error of a client that could not be built.
pub fn client_build_error(detail: &str) -> (e: DeriveError)
    ensures
        e matches DeriveError::Configuration { message } && message@ == "创建HTTP客户端失败: "@ + detail@,
{
    DeriveError::Configuration { message: concat2("创建HTTP客户端失败: ", detail) }
}

/// Builds HTTP clients from settings.
pub struct HttpClientBuilder {
    /// The settings so far.
    pub config: ClientConfig,
}

impl HttpClientBuilder {
    /// A builder with the default settings.
    pub fn new() -> (b: Self)
        ensures
            b.config.timeout_secs == 30,
            b.config.user_agent@ == "SeeSea/0.1.0"@,
            b.config.follow_redirects,
            b.config.max_redirects == 10,
            b.config.gzip,
            b.config.connect_timeout_secs == 10,
            b.config.pool_max_idle_per_host == 32,
    {
        HttpClientBuilder { config: ClientConfig::default() }
    }

    /// Sets the request timeout in seconds.
    pub fn timeout(self, secs: u64) -> (b: Self)
        ensures
            b.config == (ClientConfig { timeout_secs: secs, ..self.config }),
    {
        let mut b = self;
        b.config.timeout_secs = secs;
        b
    }

    /// Sets the user agent.
    pub fn user_agent(self, user_agent: &str) -> (b: Self)
        ensures
            b.config.user_agent@ == user_agent@,
            b.config.timeout_secs == self.config.timeout_secs,
            b.config.follow_redirects == self.config.follow_redirects,
            b.config.max_redirects == self.config.max_redirects,
            b.config.gzip == self.config.gzip,
            b.config.connect_timeout_secs == self.config.connect_timeout_secs,
            b.config.pool_max_idle_per_host == self.config.pool_max_idle_per_host,
    {
        let mut b = self;
        b.config.user_agent = owned(user_agent);
        b
    }

    /// Sets whether redirects are followed.
    pub fn follow_redirects(self, follow: bool) -> (b: Self)
        ensures
            b.config == (ClientConfig { follow_redirects: follow, ..self.config }),
    {
        let mut b = self;
        b.config.follow_redirects = follow;
        b
    }

    /// Sets the most redirects followed.
    pub fn max_redirects(self, max: usize) -> (b: Self)
        ensures
            b.config == (ClientConfig { max_redirects: max, ..self.config }),
    {
        let mut b = self;
        b.config.max_redirects = max;
        b
    }

    /// Sets whether gzip is accepted.
    pub fn gzip(self, enabled: bool) -> (b: Self)
        ensures
            b.config == (ClientConfig { gzip: enabled, ..self.config }),
    {
        let mut b = self;
        b.config.gzip = enabled;
        b
    }

    /// Sets the connect timeout in seconds.
    pub fn connect_timeout(self, secs: u64) -> (b: Self)
        ensures
            b.config == (ClientConfig { connect_timeout_secs: secs, ..self.config }),
    {
        let mut b = self;
        b.config.connect_timeout_secs = secs;
        b
    }

    /// Sets the most idle connections kept per host.
    pub fn pool_max_idle_per_host(self, max: usize) -> (b: Self)
        ensures
            b.config == (ClientConfig { pool_max_idle_per_host: max, ..self.config }),
    {
        let mut b = self;
        b.config.pool_max_idle_per_host = max;
        b
    }

    /// Builds a client with the settings, applied by `apply_settings` to a fresh
    /// `reqwest` builder. A failure is a `Configuration` error naming what went
    /// wrong.
    pub fn build(self) -> (r: Result<reqwest::Client, DeriveError>)
        ensures
            r matches Err(e) ==> (e matches DeriveError::Configuration { message }
                && starts_with_seq(message@, "创建HTTP客户端失败: "@)),
    {
        let builder = apply_settings(reqwest_builder(), no_redirects(), &self.config);
        match build_reqwest(builder) {
            Ok(c) => Ok(c),
            Err(detail) => {
                let e = client_build_error(detail.as_str());
                assert(("创建HTTP客户端失败: "@ + detail@).subrange(0, "创建HTTP客户端失败: "@.len() as int)
                    =~= "创建HTTP客户端失败: "@);
                Err(e)
            },
        }
    }
}

/// The `reqwest` builder that the settings `c` make of `base`: the request
/// timeout, the user agent, the connect timeout and the idle pool size set in
/// that order; then the redirect policy, `none` when following is off and at
/// most `max_redirects` otherwise; then gzip turned on when it is on.
pub open spec fn configured(base: reqwest::ClientBuilder, none: reqwest::redirect::Policy, c: ClientConfig) -> reqwest::ClientBuilder {
    let b = pool_idle_set(
        connect_timeout_set(user_agent_set(timeout_set(base, c.timeout_secs), c.user_agent@), c.connect_timeout_secs),
        c.pool_max_idle_per_host,
    );
    let b = if c.follow_redirects {
        redirect_set(b, limited_policy(c.max_redirects))
    } else {
        redirect_set(b, none)
    };
    if c.gzip { gzip_set(b, true) } else { b }
}

/// Applies the settings `config` to the `reqwest` builder `base`, with `none` as
/// the policy that follows no redirect.
pub fn apply_settings(base: reqwest::ClientBuilder, none: reqwest::redirect::Policy, config: &ClientConfig) -> (b: reqwest::ClientBuilder)
    ensures
        b == configured(base, none, *config),
{
    let mut builder = with_timeout(base, config.timeout_secs);
    builder = with_user_agent(builder, config.user_agent.as_str());
    builder = with_connect_timeout(builder, config.connect_timeout_secs);
    builder = with_pool_max_idle(builder, config.pool_max_idle_per_host);
    if !config.follow_redirects {
        builder = with_redirect(builder, none);
    } else {
        builder = with_redirect(builder, limited_redirects(config.max_redirects));
    }
    if config.gzip {
        builder = with_gzip(builder, true);
    }
    builder
}

impl Default for HttpClientBuilder {
    fn default() -> (b: Self)
        ensures
            b.config.timeout_secs == 30,
            b.config.follow_redirects,
            b.config.max_redirects == 10,
            b.config.gzip,
    {
        Self::new()
    }
}

/// An HTTP client for engines.
pub struct HttpClient {
    client: reqwest::Client,
}

impl HttpClient {
    /// The `reqwest` client inside.
    pub closed spec fn inner(&self) -> reqwest::Client {
        self.client
    }

    /// A client with the default settings.
    pub fn new() -> (r: Result<Self, DeriveError>)
        ensures
            r matches Err(e) ==> e is Configuration,
    {
        let client = HttpClientBuilder::new().build()?;
        Ok(HttpClient { client })
    }

    /// A client with the settings of `builder`.
    pub fn with_builder(builder: HttpClientBuilder) -> (r: Result<Self, DeriveError>)
        ensures
            r matches Err(e) ==> e is Configuration,
    {
        let client = builder.build()?;
        Ok(HttpClient { client })
    }

    /// A client around an existing `reqwest` client.
    pub fn with_client(client: reqwest::Client) -> (h: Self)
        ensures
            h.inner() == client,
    {
        HttpClient { client }
    }

    /// The `reqwest` client inside.
    pub fn client(&self) -> (c: &reqwest::Client)
        ensures
            *c == self.inner(),
    {
        &self.client
    }

    /// A GET request to `url` on the client inside.
    pub fn get(&self, url: &str) -> (r: reqwest::RequestBuilder)
        ensures
            r == get_request(self.inner(), url@),
    {
        client_get(&self.client, url)
    }

    /// A POST request to `url` on the client inside.
    pub fn post(&self, url: &str) -> (r: reqwest::RequestBuilder)
        ensures
            r == post_request(self.inner(), url@),
    {
        client_post(&self.client, url)
    }
}

impl Default for HttpClient {
    fn default() -> (h: Self) {
        HttpClient { client: default_reqwest_client() }
    }
}

/// Whether a status is a success (200 to 299).
pub open spec fn is_success(code: u16) -> bool {
    200 <= code < 300
}

/// Accepts a response status when it is a success; otherwise a `Network` error
/// naming the status and carrying its code.
pub fn check_status(code: u16) -> (r: Result<(), DeriveError>)
    requires
        100 <= code <= 999,
    ensures
        is_success(code) <==> r is Ok,
        r matches Err(e) ==> e matches DeriveError::Network { message, status_code: Some(c) }
            && c == code && message@ == "HTTP请求失败: "@ + decimal(code as nat) + " "@ + status_reason(code),
{
    if 200 <= code && code < 300 {
        Ok(())
    } else {
        let t = status_text(code);
        Err(DeriveError::Network { message: concat2("HTTP请求失败: ", t.as_str()), status_code: Some(code) })
    }
}

/// The error when the body of a response cannot be read as text (`detail` says
/// why).
pub fn text_body_error(detail: &str) -> (e: DeriveError)
    ensures
        e matches DeriveError::Parse { message, content_type: Some(ct) }
            && message@ == "解析响应文本失败: "@ + detail@ && ct@ == "text/plain"@,
{
    DeriveError::Parse { message: concat2("解析响应文本失败: ", detail), content_type: Some(owned("text/plain")) }
}

/// The error when the body of a response is no JSON (`detail` says why).
pub fn json_body_error(detail: &str) -> (e: DeriveError)
    ensures
        e matches DeriveError::Parse { message, content_type: Some(ct) }
            && message@ == "解析JSON响应失败: "@ + detail@ && ct@ == "application/json"@,
{
    DeriveError::Parse { message: concat2("解析JSON响应失败: ", detail), content_type: Some(owned("application/json")) }
}

} // verus!
