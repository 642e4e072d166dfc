//! Settings of the HTTP server.
use vstd::prelude::*;
use crate::config::common::{ConfigValidationResult, msg_if, strs};
use crate::text::{decimal, owned, str_eq, u64_to_decimal};

verus! {

/// TLS settings of the server.
#[derive(Debug, Clone)]
pub struct TlsConfig {
    /// Whether TLS is on.
    pub enabled: bool,
    /// Path of the certificate file.
    pub cert_path: Option<String>,
    /// Path of the private key file.
    pub key_path: Option<String>,
    /// Path of the CA certificate.
    pub ca_path: Option<String>,
    /// Whether client certificates are checked.
    pub verify_client: bool,
}

/// What `TlsConfig::default` gives.
pub open spec fn is_default_tls(c: TlsConfig) -> bool {
    &&& !c.enabled
    &&& c.cert_path is None
    &&& c.key_path is None
    &&& c.ca_path is None
    &&& !c.verify_client
}

impl Default for TlsConfig {
    fn default() -> (c: Self)
        ensures
            is_default_tls(c),
    {
        TlsConfig { enabled: false, cert_path: None, key_path: None, ca_path: None, verify_client: false }
    }
}

/// Settings of the HTTP server.
#[derive(Debug, Clone)]
pub struct ServerConfig {
    /// Address to bind.
    pub bind_address: String,
    /// Port to bind.
    pub port: u16,
    /// Whether requests are rate limited.
    pub limiter: bool,
    /// Whether this is a public instance.
    pub public_instance: bool,
    /// Secret key.
    pub secret_key: String,
    /// Base URL, when set explicitly.
    pub base_url: Option<String>,
    /// Path of the static files.
    pub static_path: Option<String>,
    /// TLS settings.
    pub tls: Option<TlsConfig>,
    /// Worker threads (the number of cores when unset).
    pub worker_threads: Option<usize>,
    /// Request timeout in seconds.
    pub request_timeout: u64,
    /// Largest request body in bytes.
    pub max_request_size: usize,
    /// Whether responses are compressed.
    pub enable_compression: bool,
}

/// The secret key that ships with the default settings.
pub open spec fn default_secret() -> Seq<char> {
    "change-me-in-production"@
}

/// The length of a string in UTF-8 bytes, as `str::len` reports it.
pub open spec fn byte_len(s: Seq<char>) -> usize {
    vstd::utf8::encode_utf8(s).len() as usize
}

/// Whether TLS is configured and switched on.
pub open spec fn tls_on(c: &ServerConfig) -> bool {
    c.tls matches Some(t) && t.enabled
}

/// The errors found in server settings, in order.
pub open spec fn server_errors(c: &ServerConfig) -> Seq<Seq<char>> {
    msg_if(c.port == 0, "端口号必须在 1-65535 范围内"@)
        + msg_if(byte_len(c.secret_key@) < 16, "密钥长度必须至少 16 个字符"@)
        + msg_if(tls_on(c) && c.tls->0.cert_path is None, "启用 TLS 时必须指定证书文件路径"@)
        + msg_if(tls_on(c) && c.tls->0.key_path is None, "启用 TLS 时必须指定私钥文件路径"@)
        + msg_if(c.request_timeout == 0, "请求超时时间必须大于 0"@)
        + msg_if(c.max_request_size == 0, "最大请求大小必须大于 0"@)
}

/// Server settings validate exactly when the port is not 0, the secret key has
/// at least 16 bytes, TLS (when on) names a certificate and a key file, and the
/// request timeout and largest request size are positive.
pub proof fn law_server_valid_iff(c: &ServerConfig)
    ensures
        (server_errors(c).len() == 0) <==> (
            c.port != 0
            && byte_len(c.secret_key@) >= 16
            && (tls_on(c) ==> c.tls->0.cert_path is Some && c.tls->0.key_path is Some)
            && c.request_timeout > 0
            && c.max_request_size > 0),
{
}

/// The warnings found in server settings, in order.
pub open spec fn server_warnings(c: &ServerConfig) -> Seq<Seq<char>> {
    msg_if(c.secret_key@ == default_secret() && !c.public_instance, "生产环境请更改默认密钥"@)
}

/// `host:port`.
pub open spec fn host_port(c: &ServerConfig) -> Seq<char> {
    c.bind_address@ + ":"@ + decimal(c.port as nat)
}

/// What `ServerConfig::default` gives.
pub open spec fn is_default_server(c: ServerConfig) -> bool {
    &&& c.bind_address@ == "127.0.0.1"@
    &&& c.port == 8080
    &&& c.limiter
    &&& !c.public_instance
    &&& c.secret_key@ == default_secret()
    &&& c.base_url is None
    &&& c.static_path is None
    &&& c.tls is None
    &&& c.worker_threads is None
    &&& c.request_timeout == 30
    &&& c.max_request_size == 10 * 1024 * 1024
    &&& c.enable_compression
}

impl Default for ServerConfig {
    fn default() -> (c: Self)
        ensures
            is_default_server(c),
    {
        ServerConfig {
            bind_address: owned("127.0.0.1"),
            port: 8080,
            limiter: true,
            public_instance: false,
            secret_key: owned("change-me-in-production"),
            base_url: None,
            static_path: None,
            tls: None,
            worker_threads: None,
            request_timeout: 30,
            max_request_size: 10 * 1024 * 1024,
            enable_compression: true,
        }
    }
}

impl ServerConfig {
    /// Checks the settings: errors for a zero port, a key shorter than 16 bytes,
    /// TLS on without certificate or key path, a zero timeout or a zero body limit;
    /// a warning for the default key on a private instance.
    pub fn validate(&self) -> (r: ConfigValidationResult)
        ensures
            strs(r.errors@) == server_errors(self),
            strs(r.warnings@) == server_warnings(self),
            r.is_valid == (server_errors(self).len() == 0),
    {
        let mut result = ConfigValidationResult::success();
        proof {
            assert(strs(result.errors@) =~= Seq::<Seq<char>>::empty());
            assert(strs(result.warnings@) =~= Seq::<Seq<char>>::empty());
        }
        let ghost e0 = strs(result.errors@);
        if self.port == 0 {
            result.add_error(owned("端口号必须在 1-65535 范围内"));
        }
        let ghost e1 = strs(result.errors@);
        assert(e1 =~= e0 + msg_if(self.port == 0, "端口号必须在 1-65535 范围内"@));
        if str_eq(self.secret_key.as_str(), "change-me-in-production") && !self.public_instance {
            result.add_warning(owned("生产环境请更改默认密钥"));
        }
        let key_len = self.secret_key.as_str().len();
        assert(key_len == byte_len(self.secret_key@));
        if key_len < 16 {
            result.add_error(owned("密钥长度必须至少 16 个字符"));
        }
        let ghost e2 = strs(result.errors@);
        assert(e2 =~= e1 + msg_if(byte_len(self.secret_key@) < 16, "密钥长度必须至少 16 个字符"@));
        let tls_enabled = match &self.tls {
            Some(t) => t.enabled,
            None => false,
        };
        let cert_missing = match &self.tls {
            Some(t) => t.cert_path.is_none(),
            None => false,
        };
        let key_missing = match &self.tls {
            Some(t) => t.key_path.is_none(),
            None => false,
        };
        if tls_enabled && cert_missing {
            result.add_error(owned("启用 TLS 时必须指定证书文件路径"));
        }
        let ghost e3 = strs(result.errors@);
        assert(e3 =~= e2 + msg_if(tls_on(self) && self.tls->0.cert_path is None, "启用 TLS 时必须指定证书文件路径"@));
        if tls_enabled && key_missing {
            result.add_error(owned("启用 TLS 时必须指定私钥文件路径"));
        }
        let ghost e4 = strs(result.errors@);
        assert(e4 =~= e3 + msg_if(tls_on(self) && self.tls->0.key_path is None, "启用 TLS 时必须指定私钥文件路径"@));
        if self.request_timeout == 0 {
            result.add_error(owned("请求超时时间必须大于 0"));
        }
        let ghost e5 = strs(result.errors@);
        assert(e5 =~= e4 + msg_if(self.request_timeout == 0, "请求超时时间必须大于 0"@));
        if self.max_request_size == 0 {
            result.add_error(owned("最大请求大小必须大于 0"));
        }
        let ghost e6 = strs(result.errors@);
        assert(e6 =~= e5 + msg_if(self.max_request_size == 0, "最大请求大小必须大于 0"@));
        assert(e6 =~= server_errors(self));
        assert(strs(result.warnings@) =~= server_warnings(self));
        result
    }

    /// The full bind address, `host:port`.
    pub fn bind_address(&self) -> (s: String)
        ensures
            s@ == host_port(self),
    {
        let mut s = owned(self.bind_address.as_str());
        s.append(":");
        let p = u64_to_decimal(self.port as u64);
        s.append(p.as_str());
        s
    }

    /// The base URL: the one set explicitly, else `https://host:port` when TLS is
    /// on and `http://host:port` otherwise.
    pub fn base_url(&self) -> (s: String)
        ensures
            match self.base_url {
                Some(b) => s@ == b@,
                None => s@ == (if tls_on(self) { "https"@ } else { "http"@ }) + "://"@ + host_port(self),
            },
    {
        match &self.base_url {
            Some(b) => owned(b.as_str()),
            None => {
                let mut s = if self.is_https() { owned("https") } else { owned("http") };
                s.append("://");
                let hp = self.bind_address();
                s.append(hp.as_str());
                s
            },
        }
    }

    /// Whether TLS is configured and on.
    pub fn is_https(&self) -> (b: bool)
        ensures
            b == tls_on(self),
    {
        match &self.tls {
            Some(t) => t.enabled,
            None => false,
        }
    }
}

} // verus!
