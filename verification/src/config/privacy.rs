//! Privacy settings: user-agent rotation, proxies, Tor, fingerprint protection,
//! request timing, DNS over HTTPS, headers and cookies.
//!
//! Weights are kept as whole thousandths (`1200` stands for 1.2).
use vstd::prelude::*;
use crate::config::common::{ConfigValidationResult, FingerprintLevel, ProxyType, TimingStrategy, msg_if, strs};
use crate::text::{decimal, owned, usize_to_decimal};

verus! {

/// How user agents are picked.
#[derive(Debug, Clone, Copy, PartialEq, Eq, Structural)]
pub enum UaRotationStrategy {
    /// At random.
    Random,
    /// In turn.
    RoundRobin,
    /// By weight.
    Weighted,
    /// By time.
    TimeBased,
    /// By engine.
    EngineBased,
}

/// Settings of user-agent rotation.
#[derive(Debug, Clone)]
pub struct UserAgentRotationConfig {
    /// Whether rotation is on.
    pub enabled: bool,
    /// How agents are picked.
    pub rotation_strategy: UaRotationStrategy,
    /// Agents of the user's own.
    pub custom_user_agents: Vec<String>,
    /// Requests between rotations.
    pub rotation_interval: usize,
    /// Whether mobile agents are included.
    pub include_mobile: bool,
    /// Whether agents are grouped by browser.
    pub group_by_browser: bool,
}

/// What `UserAgentRotationConfig::default` gives.
pub open spec fn is_default_user_agent_rotation(c: UserAgentRotationConfig) -> bool {
    &&& c.enabled
    &&& c.rotation_strategy == UaRotationStrategy::Random
    &&& c.custom_user_agents@.len() == 0
    &&& c.rotation_interval == 10
    &&& !c.include_mobile
    &&& c.group_by_browser
}

impl Default for UserAgentRotationConfig {
    fn default() -> (c: Self)
        ensures
            is_default_user_agent_rotation(c),
    {
        UserAgentRotationConfig {
            enabled: true,
            rotation_strategy: UaRotationStrategy::Random,
            custom_user_agents: Vec::new(),
            rotation_interval: 10,
            include_mobile: false,
            group_by_browser: true,
        }
    }
}

/// One proxy of the chain.
#[derive(Debug, Clone)]
pub struct ProxyConfig {
    /// Kind of proxy.
    pub proxy_type: ProxyType,
    /// Host.
    pub address: String,
    /// Port.
    pub port: u16,
    /// User name.
    pub username: Option<String>,
    /// Password.
    pub password: Option<String>,
    /// Whether the proxy is used.
    pub enabled: bool,
    /// Load-balancing weight, in thousandths.
    pub weight_milli: i64,
    /// Timeout in seconds.
    pub timeout: u64,
    /// Retries.
    pub retry_count: u32,
    /// Domains served (all when empty).
    pub allowed_domains: Vec<String>,
    /// Domains never served.
    pub blocked_domains: Vec<String>,
}

/// Tor settings.
#[derive(Debug, Clone)]
pub struct TorConfig {
    /// Whether Tor is used.
    pub enabled: bool,
    /// SOCKS port.
    pub socks_port: u16,
    /// Control port.
    pub control_port: Option<u16>,
    /// Control password.
    pub control_password: Option<String>,
    /// Country codes of exit nodes.
    pub exit_nodes: Option<Vec<String>>,
    /// Country codes excluded.
    pub exclude_nodes: Option<Vec<String>>,
    /// Whether node choice is strict.
    pub strict_nodes: bool,
    /// Circuit build timeout in seconds.
    pub circuit_build_timeout: u64,
    /// Retries on failure.
    pub max_retries: u32,
}

/// What `TorConfig::default` gives.
pub open spec fn is_default_tor(c: TorConfig) -> bool {
    &&& !c.enabled
    &&& c.socks_port == 9050
    &&& c.control_port == Some(9051u16)
    &&& c.control_password is None
    &&& c.exit_nodes is None
    &&& c.exclude_nodes is None
    &&& !c.strict_nodes
    &&& c.circuit_build_timeout == 60
    &&& c.max_retries == 3
}

impl Default for TorConfig {
    fn default() -> (c: Self)
        ensures
            is_default_tor(c),
    {
        TorConfig {
            enabled: false,
            socks_port: 9050,
            control_port: Some(9051),
            control_password: None,
            exit_nodes: None,
            exclude_nodes: None,
            strict_nodes: false,
            circuit_build_timeout: 60,
            max_retries: 3,
        }
    }
}

/// A TLS fingerprint to present.
#[derive(Debug, Clone)]
pub struct TlsFingerprintConfig {
    /// Browser imitated.
    pub target_browser: String,
    /// Its version.
    pub version: String,
    /// Operating system.
    pub os: String,
    /// ALPN protocols.
    pub alpn_protocols: Vec<String>,
}

/// Settings of TLS fingerprint protection.
#[derive(Debug, Clone)]
pub struct FingerprintProtectionConfig {
    /// Level of protection.
    pub protection_level: FingerprintLevel,
    /// Whether TLS extensions are shuffled.
    pub randomize_extensions: bool,
    /// Whether cipher suites are shuffled.
    pub randomize_cipher_suites: bool,
    /// Whether common browsers are imitated.
    pub emulate_browsers: bool,
    /// A fingerprint of the user's own.
    pub custom_tls_config: Option<TlsFingerprintConfig>,
}

/// What `FingerprintProtectionConfig::default` gives.
pub open spec fn is_default_fingerprint_protection(c: FingerprintProtectionConfig) -> bool {
    &&& c.protection_level == FingerprintLevel::Basic
    &&& c.randomize_extensions
    &&& c.randomize_cipher_suites
    &&& c.emulate_browsers
    &&& c.custom_tls_config is None
}

impl Default for FingerprintProtectionConfig {
    fn default() -> (c: Self)
        ensures
            is_default_fingerprint_protection(c),
    {
        FingerprintProtectionConfig {
            protection_level: FingerprintLevel::Basic,
            randomize_extensions: true,
            randomize_cipher_suites: true,
            emulate_browsers: true,
            custom_tls_config: None,
        }
    }
}

/// Settings of request timing.
#[derive(Debug, Clone, Copy)]
pub struct TimingConfig {
    /// Strategy.
    pub timing_strategy: TimingStrategy,
    /// Least delay in milliseconds.
    pub min_delay: u64,
    /// Most delay in milliseconds.
    pub max_delay: u64,
    /// Whether the delay grows with the request size.
    pub size_based_delay: bool,
    /// Whether the delay depends on the engine.
    pub engine_based_delay: bool,
}

/// What `TimingConfig::default` gives.
pub open spec fn is_default_timing(c: TimingConfig) -> bool {
    &&& c.timing_strategy == TimingStrategy::Light
    &&& c.min_delay == 100
    &&& c.max_delay == 2000
    &&& c.size_based_delay
    &&& c.engine_based_delay
}

impl Default for TimingConfig {
    fn default() -> (c: Self)
        ensures
            is_default_timing(c),
    {
        TimingConfig {
            timing_strategy: TimingStrategy::Light,
            min_delay: 100,
            max_delay: 2000,
            size_based_delay: true,
            engine_based_delay: true,
        }
    }
}

/// A DNS record type.
#[derive(Debug, Clone, Copy, PartialEq, Eq, Structural)]
pub enum DnsRecordType {
    /// Address.
    A,
    /// IPv6 address.
    AAAA,
    /// Alias.
    CNAME,
    /// Mail exchange.
    MX,
    /// Text.
    TXT,
    /// Name server.
    NS,
}

/// A DNS-over-HTTPS server.
#[derive(Debug, Clone)]
pub struct DnsServer {
    /// Name.
    pub name: String,
    /// Query URL.
    pub url: String,
    /// Whether it is used.
    pub enabled: bool,
    /// Weight, in thousandths.
    pub weight_milli: i64,
    /// Record types it answers.
    pub supported_types: Vec<DnsRecordType>,
}

/// DNS-over-HTTPS settings.
#[derive(Debug, Clone)]
pub struct DnsConfig {
    /// Whether DNS over HTTPS is used.
    pub enabled: bool,
    /// Servers.
    pub servers: Vec<DnsServer>,
    /// Timeout in milliseconds.
    pub timeout: u64,
    /// Retries.
    pub retry_count: u32,
    /// Whether answers are cached.
    pub enable_cache: bool,
    /// Cache lifetime in seconds.
    pub cache_ttl: u64,
}

/// Whether `s` is an enabled server named `name` at `url` with weight `weight`
/// answering A, AAAA and CNAME queries.
pub open spec fn is_doh_server(s: DnsServer, name: Seq<char>, url: Seq<char>, weight: i64) -> bool {
    &&& s.name@ == name
    &&& s.url@ == url
    &&& s.enabled
    &&& s.weight_milli == weight
    &&& s.supported_types@ == seq![DnsRecordType::A, DnsRecordType::AAAA, DnsRecordType::CNAME]
}

/// An enabled server answering A, AAAA and CNAME queries.
fn doh_server(name: &str, url: &str, weight_milli: i64) -> (s: DnsServer)
    ensures
        is_doh_server(s, name@, url@, weight_milli),
{
    DnsServer {
        name: owned(name),
        url: owned(url),
        enabled: true,
        weight_milli,
        supported_types: vec![DnsRecordType::A, DnsRecordType::AAAA, DnsRecordType::CNAME],
    }
}

/// What `DnsConfig::default` gives.
#[verifier::opaque]
pub open spec fn is_default_dns(c: DnsConfig) -> bool {
    &&& c.enabled
    &&& c.servers@.len() == 5
    &&& is_doh_server(c.servers@[0], "Cloudflare"@, "https://cloudflare-dns.com/dns-query"@, 1000)
    &&& is_doh_server(c.servers@[1], "Google"@, "https://dns.google/dns-query"@, 1000)
    &&& is_doh_server(c.servers@[2], "阿里云"@, "https://dns.alidns.com/dns-query"@, 1200)
    &&& is_doh_server(c.servers@[3], "腾讯 DNSPod"@, "https://doh.pub/dns-query"@, 1200)
    &&& is_doh_server(c.servers@[4], "360 DoH"@, "https://doh.360.cn/dns-query"@, 1100)
    &&& c.timeout == 5000
    &&& c.retry_count == 2
    &&& c.enable_cache
    &&& c.cache_ttl == 300
}

impl Default for DnsConfig {
    /// Five public resolvers, the domestic ones weighted higher.
    fn default() -> (c: Self)
        ensures
            is_default_dns(c),
    {
        let servers = vec![
            doh_server("Cloudflare", "https://cloudflare-dns.com/dns-query", 1000),
            doh_server("Google", "https://dns.google/dns-query", 1000),
            doh_server("阿里云", "https://dns.alidns.com/dns-query", 1200),
            doh_server("腾讯 DNSPod", "https://doh.pub/dns-query", 1200),
            doh_server("360 DoH", "https://doh.360.cn/dns-query", 1100),
        ];
        let c = DnsConfig { enabled: true, servers, timeout: 5000, retry_count: 2, enable_cache: true, cache_ttl: 300 };
        proof { reveal(is_default_dns); }
        c
    }
}

/// Where a custom header applies.
#[derive(Debug, Clone)]
pub enum HeaderCondition {
    /// Always.
    Always,
    /// For one engine.
    Engine(String),
    /// For one domain.
    Domain(String),
    /// For one kind of request.
    RequestType(String),
}

/// A header added to requests.
#[derive(Debug, Clone)]
pub struct CustomHeader {
    /// Name.
    pub name: String,
    /// Value.
    pub value: String,
    /// Whether it is added.
    pub enabled: bool,
    /// Where it applies.
    pub condition: Option<HeaderCondition>,
}

/// Settings of request headers.
#[derive(Debug, Clone)]
pub struct HeaderConfig {
    /// Whether privacy-sensitive headers are removed.
    pub remove_privacy_headers: bool,
    /// Whether `Accept` is normalised.
    pub normalize_accept: bool,
    /// Whether other headers are shuffled.
    pub randomize_headers: bool,
    /// Headers added.
    pub custom_headers: Vec<CustomHeader>,
    /// Headers removed.
    pub remove_headers: Vec<String>,
}

/// What `HeaderConfig::default` gives.
pub open spec fn is_default_header(c: HeaderConfig) -> bool {
    &&& c.remove_privacy_headers
    &&& c.normalize_accept
    &&& !c.randomize_headers
    &&& c.custom_headers@.len() == 0
    &&& strs(c.remove_headers@) == seq!["DNT"@, "X-Forwarded-For"@, "X-Real-IP"@, "Via"@]
}

impl Default for HeaderConfig {
    fn default() -> (c: Self)
        ensures
            is_default_header(c),
    {
        let c = HeaderConfig {
            remove_privacy_headers: true,
            normalize_accept: true,
            randomize_headers: false,
            custom_headers: Vec::new(),
            remove_headers: vec![owned("DNT"), owned("X-Forwarded-For"), owned("X-Real-IP"), owned("Via")],
        };
        assert(strs(c.remove_headers@) =~= seq!["DNT"@, "X-Forwarded-For"@, "X-Real-IP"@, "Via"@]);
        c
    }
}

/// Which cookies are kept.
#[derive(Debug, Clone)]
pub enum CookieFilterPolicy {
    /// All.
    AllowAll,
    /// Session cookies only.
    SessionOnly,
    /// First-party cookies only.
    FirstPartyOnly,
    /// Cookies of these domains only.
    Whitelist(Vec<String>),
    /// All but the cookies of these domains.
    Blacklist(Vec<String>),
    /// None.
    Disabled,
}

/// How third-party cookies are treated.
#[derive(Debug, Clone, Copy, PartialEq, Eq, Structural)]
pub enum ThirdPartyCookiePolicy {
    /// All allowed.
    AllowAll,
    /// All blocked.
    BlockAll,
    /// Blocked unless visited.
    BlockUnvisited,
    /// By privacy level.
    PrivacyBased,
}

/// Settings of cookie handling.
#[derive(Debug, Clone)]
pub struct CookieConfig {
    /// Whether cookies are accepted.
    pub accept_cookies: bool,
    /// Whether cookies are sent.
    pub send_cookies: bool,
    /// Which cookies are kept.
    pub filter_policy: CookieFilterPolicy,
    /// Whether session cookies are persisted.
    pub persist_session_cookies: bool,
    /// Third-party cookies.
    pub third_party_policy: ThirdPartyCookiePolicy,
}

/// What `CookieConfig::default` gives.
pub open spec fn is_default_cookie(c: CookieConfig) -> bool {
    &&& !c.accept_cookies
    &&& !c.send_cookies
    &&& c.filter_policy is Disabled
    &&& !c.persist_session_cookies
    &&& c.third_party_policy == ThirdPartyCookiePolicy::BlockAll
}

impl Default for CookieConfig {
    fn default() -> (c: Self)
        ensures
            is_default_cookie(c),
    {
        CookieConfig {
            accept_cookies: false,
            send_cookies: false,
            filter_policy: CookieFilterPolicy::Disabled,
            persist_session_cookies: false,
            third_party_policy: ThirdPartyCookiePolicy::BlockAll,
        }
    }
}

/// Privacy settings.
#[derive(Debug, Clone)]
pub struct PrivacyConfig {
    /// User-agent rotation.
    pub user_agent_rotation: UserAgentRotationConfig,
    /// Proxy chain.
    pub proxy_chain: Vec<ProxyConfig>,
    /// Whether Tor is used.
    pub enable_tor: bool,
    /// Tor settings.
    pub tor_config: TorConfig,
    /// Fingerprint protection.
    pub fingerprint_protection: FingerprintProtectionConfig,
    /// Request timing.
    pub request_timing: TimingConfig,
    /// DNS settings.
    pub dns_config: DnsConfig,
    /// Header settings.
    pub headers: HeaderConfig,
    /// Cookie settings.
    pub cookie_handling: CookieConfig,
}

/// What `PrivacyConfig::default` gives: each part at its default, no proxies and
/// Tor off.
pub open spec fn is_default_privacy(c: PrivacyConfig) -> bool {
    &&& is_default_user_agent_rotation(c.user_agent_rotation)
    &&& c.proxy_chain@.len() == 0
    &&& !c.enable_tor
    &&& is_default_tor(c.tor_config)
    &&& is_default_fingerprint_protection(c.fingerprint_protection)
    &&& is_default_timing(c.request_timing)
    &&& is_default_dns(c.dns_config)
    &&& is_default_header(c.headers)
    &&& is_default_cookie(c.cookie_handling)
}

impl Default for PrivacyConfig {
    fn default() -> (c: Self)
        ensures
            is_default_privacy(c),
    {
        PrivacyConfig {
            user_agent_rotation: UserAgentRotationConfig::default(),
            proxy_chain: Vec::new(),
            enable_tor: false,
            tor_config: TorConfig::default(),
            fingerprint_protection: FingerprintProtectionConfig::default(),
            request_timing: TimingConfig::default(),
            dns_config: DnsConfig::default(),
            headers: HeaderConfig::default(),
            cookie_handling: CookieConfig::default(),
        }
    }
}

/// The errors of the proxy at 1-based position `n`.
pub open spec fn one_proxy_errors(p: ProxyConfig, n: nat) -> Seq<Seq<char>> {
    msg_if(p.enabled && p.address@.len() == 0, "代理 "@ + decimal(n) + " 地址不能为空"@)
        + msg_if(p.port == 0, "代理 "@ + decimal(n) + " 端口无效"@)
        + msg_if(p.timeout == 0, "代理 "@ + decimal(n) + " 超时时间必须大于 0"@)
}

/// The errors of a proxy chain, proxy by proxy.
pub open spec fn proxy_errors(ps: Seq<ProxyConfig>) -> Seq<Seq<char>>
    decreases ps.len(),
{
    if ps.len() == 0 {
        Seq::empty()
    } else {
        proxy_errors(ps.drop_last()) + one_proxy_errors(ps.last(), ps.len())
    }
}

/// The errors found in privacy settings, in order.
pub open spec fn privacy_errors(c: &PrivacyConfig) -> Seq<Seq<char>> {
    proxy_errors(c.proxy_chain@)
        + msg_if(c.enable_tor && c.tor_config.socks_port == 0, "Tor SOCKS 端口无效"@)
        + msg_if(c.enable_tor && c.tor_config.control_port == Some(0u16), "Tor 控制端口无效"@)
        + msg_if(c.request_timing.min_delay >= c.request_timing.max_delay, "最小延迟不能大于等于最大延迟"@)
        + msg_if(c.dns_config.enabled && c.dns_config.servers@.len() == 0, "启用 DNS 时必须指定至少一个服务器"@)
        + msg_if(c.dns_config.enabled && c.dns_config.timeout == 0, "DNS 超时时间必须大于 0"@)
}

/// `代理 ` + the number + `suffix`.
fn proxy_message(n: usize, suffix: &str) -> (s: String)
    ensures
        s@ == "代理 "@ + decimal(n as nat) + suffix@,
{
    let mut s = owned("代理 ");
    let d = usize_to_decimal(n);
    s.append(d.as_str());
    s.append(suffix);
    s
}

impl PrivacyConfig {
    /// Checks the settings. Errors, proxy by proxy (numbered from 1): an enabled
    /// proxy without address, a zero port, a zero timeout; then, with Tor on, a zero
    /// SOCKS or control port; a least delay not below the most delay; with DNS on,
    /// no server or a zero timeout. There are no warnings.
    pub fn validate(&self) -> (r: ConfigValidationResult)
        ensures
            strs(r.errors@) == privacy_errors(self),
            r.warnings@.len() == 0,
            r.is_valid == (privacy_errors(self).len() == 0),
    {
        let mut result = ConfigValidationResult::success();
        assert(strs(result.errors@) =~= Seq::<Seq<char>>::empty());
        let ghost ps = self.proxy_chain@;
        let mut i: usize = 0;
        assert(ps.take(0) =~= Seq::<ProxyConfig>::empty());
        while i < self.proxy_chain.len()
            invariant
                i <= self.proxy_chain.len(),
                ps == self.proxy_chain@,
                strs(result.errors@) == proxy_errors(ps.take(i as int)),
                result.is_valid == (proxy_errors(ps.take(i as int)).len() == 0),
                result.warnings@.len() == 0,
            decreases self.proxy_chain.len() - i,
        {
            let proxy = &self.proxy_chain[i];
            let n = i + 1;
            let ghost before = strs(result.errors@);
            if proxy.enabled && proxy.address.as_str().unicode_len() == 0 {
                result.add_error(proxy_message(n, " 地址不能为空"));
            }
            if proxy.port == 0 {
                result.add_error(proxy_message(n, " 端口无效"));
            }
            if proxy.timeout == 0 {
                result.add_error(proxy_message(n, " 超时时间必须大于 0"));
            }
            proof {
                assert(ps.take(n as int).drop_last() =~= ps.take(i as int));
                assert(ps.take(n as int).last() == ps[i as int]);
                assert(strs(result.errors@) =~= before + one_proxy_errors(ps[i as int], n as nat));
            }
            i = n;
        }
        assert(ps.take(i as int) =~= ps);
        let tor_on = self.enable_tor;
        result.error_if(tor_on && self.tor_config.socks_port == 0, "Tor SOCKS 端口无效");
        let control_zero = match self.tor_config.control_port {
            Some(p) => p == 0,
            None => false,
        };
        result.error_if(tor_on && control_zero, "Tor 控制端口无效");
        result.error_if(self.request_timing.min_delay >= self.request_timing.max_delay, "最小延迟不能大于等于最大延迟");
        result.error_if(self.dns_config.enabled && self.dns_config.servers.len() == 0, "启用 DNS 时必须指定至少一个服务器");
        result.error_if(self.dns_config.enabled && self.dns_config.timeout == 0, "DNS 超时时间必须大于 0");
        assert(strs(result.errors@) =~= privacy_errors(self));
        result
    }
}

} // verus!
