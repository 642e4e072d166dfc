use seesea::config::common::SafeSearchLevel;
use seesea::derive::cache::{CacheConfig, MemoryCache};
use seesea::derive::client::{check_status, ClientConfig, HttpClientBuilder, HttpClient};
use seesea::derive::engine::{
    is_retryable_error, retries_exhausted, retry_delay_ms, retry_step, should_retry, validate_query, RetryStep,
};
use seesea::derive::error::{CacheOperation, DeriveError};
use seesea::derive::rate_limit::{RateLimiter, RateLimiterConfig, TokenBucket};
use seesea::derive::types::{
    AboutInfo, EngineCapabilities, EngineInfo, EngineStatus, EngineType, RequestParams, ResultType, SearchQuery,
    SearchResult, StringMap, TimeRange, ValidationError,
};
use std::time::Duration;

fn create_test_result() -> SearchResult {
    SearchResult {
        engine_name: "TestEngine".to_string(),
        total_results: Some(100),
        elapsed_ms: 50,
        items: vec![],
        pagination: None,
        suggestions: vec![],
        metadata: StringMap::new(),
    }
}

#[test]
fn test_error_display() {
    let err = DeriveError::Validation { message: "查询不能为空".to_string(), field: Some("query".to_string()) };
    assert_eq!(err.to_string(), "验证错误[字段: query]: 查询不能为空");

    let err = DeriveError::Network { message: "连接被拒绝".to_string(), status_code: Some(403) };
    assert_eq!(err.to_string(), "网络错误[状态码: 403]: 连接被拒绝");

    let err = DeriveError::Timeout { duration_secs: 30 };
    assert_eq!(err.to_string(), "请求超时: 30秒后无响应");

    let err = DeriveError::RateLimit { retry_after_secs: 60 };
    assert_eq!(err.to_string(), "速率限制: 请在60秒后重试");
}

#[test]
fn test_cache_operation_display() {
    assert_eq!(CacheOperation::Read.to_string(), "读取");
    assert_eq!(CacheOperation::Write.to_string(), "写入");
    assert_eq!(CacheOperation::Delete.to_string(), "删除");
}

#[test]
fn test_error_conversion_from_serde_json() {
    let json_err = serde_json::from_str::<serde_json::Value>("invalid json").err().expect("应该产生错误");
    let derive_err = DeriveError::from_json_error(json_err);
    match derive_err {
        DeriveError::Parse { content_type, .. } => {
            assert_eq!(content_type, Some("application/json".to_string()));
        }
        _ => panic!("预期 Parse 错误"),
    }
}

#[test]
fn test_error_conversion_from_url() {
    let url_err = url::Url::parse("not a url").err().expect("应该产生错误");
    let derive_err = DeriveError::from_url_error(url_err);
    match derive_err {
        DeriveError::Validation { field, .. } => {
            assert_eq!(field, Some("url".to_string()));
        }
        _ => panic!("预期 Validation 错误"),
    }
}

#[test]
fn http_failures_are_classified() {
    match DeriveError::from_http_failure(true, false, None, "x".to_string()) {
        DeriveError::Timeout { duration_secs } => assert_eq!(duration_secs, 30),
        _ => panic!("expected a timeout"),
    }
    match DeriveError::from_http_failure(false, true, Some(502), "bad gateway".to_string()) {
        DeriveError::Network { message, status_code } => {
            assert_eq!(message, "bad gateway");
            assert_eq!(status_code, Some(502));
        }
        _ => panic!("expected a network error"),
    }
    match DeriveError::from_http_failure(false, false, Some(502), "reset".to_string()) {
        DeriveError::Network { status_code, .. } => assert_eq!(status_code, None),
        _ => panic!("expected a network error"),
    }
}

#[test]
fn test_rate_limiter_config_default() {
    let config = RateLimiterConfig::default();
    assert_eq!(config.requests_per_minute, 60);
    assert_eq!(config.burst_capacity, 10);
}

#[test]
fn test_token_bucket_creation() {
    let bucket = TokenBucket::new(10, 60);
    assert_eq!(bucket.capacity(), 10);
    assert_eq!(bucket.refill_per_minute(), 60);
    assert_eq!(bucket.available_tokens(), 10);
}

#[test]
fn test_token_bucket_consume() {
    let mut bucket = TokenBucket::new(10, 60);
    for _ in 0..10 {
        assert!(bucket.try_consume());
    }
    assert!(!bucket.try_consume());
}

#[test]
fn test_token_bucket_wait_time() {
    let mut bucket = TokenBucket::new(1, 60);
    assert!(bucket.try_consume());
    let wait = bucket.wait_time();
    assert!(wait > 0 && wait <= 1);
}

#[test]
fn bucket_refills_with_elapsed_time() {
    let mut bucket = TokenBucket::new(2, 60);
    let now = std::time::Instant::now();
    assert!(bucket.try_consume_after(0, now));
    assert!(bucket.try_consume_after(0, now));
    assert!(!bucket.try_consume_after(0, now));
    // One request per second: after a second a token is back.
    assert!(bucket.try_consume_after(1_000_000_000, now));
    assert_eq!(bucket.wait_secs_after(0, now), 1);
    // Half a second gives half a token: still one second to wait, rounded up.
    assert_eq!(bucket.wait_secs_after(500_000_000, now), 1);
}

#[test]
fn test_rate_limiter_creation() {
    let config = RateLimiterConfig { requests_per_minute: 30, burst_capacity: 5 };
    let limiter = RateLimiter::new(config.clone());
    assert_eq!(limiter.config().requests_per_minute, 30);
    assert_eq!(limiter.config().burst_capacity, 5);
}

#[test]
fn test_rate_limiter_try_acquire() {
    let config = RateLimiterConfig { requests_per_minute: 60, burst_capacity: 2 };
    let mut limiter = RateLimiter::new(config);
    assert!(limiter.try_acquire("test_engine").is_ok());
    assert!(limiter.try_acquire("test_engine").is_ok());
    let result = limiter.try_acquire("test_engine");
    assert!(result.is_err());
    if let Err(DeriveError::RateLimit { retry_after_secs }) = result {
        assert!(retry_after_secs > 0);
    } else {
        panic!("预期速率限制错误");
    }
}

#[test]
fn test_rate_limiter_reset() {
    let config = RateLimiterConfig { requests_per_minute: 60, burst_capacity: 1 };
    let mut limiter = RateLimiter::new(config);
    assert!(limiter.try_acquire("test_engine").is_ok());
    assert!(limiter.try_acquire("test_engine").is_err());
    assert!(limiter.reset("test_engine").is_ok());
    assert!(limiter.try_acquire("test_engine").is_ok());
}

#[test]
fn test_rate_limiter_multiple_engines() {
    let config = RateLimiterConfig { requests_per_minute: 60, burst_capacity: 1 };
    let mut limiter = RateLimiter::new(config);
    assert!(limiter.try_acquire("engine1").is_ok());
    assert!(limiter.try_acquire("engine2").is_ok());
    assert!(limiter.try_acquire("engine1").is_err());
    assert!(limiter.try_acquire("engine2").is_err());
}

#[test]
fn reset_all_forgets_every_engine() {
    let config = RateLimiterConfig { requests_per_minute: 60, burst_capacity: 1 };
    let mut limiter = RateLimiter::new(config);
    assert!(limiter.try_acquire("a").is_ok());
    assert!(limiter.try_acquire("b").is_ok());
    assert!(limiter.reset_all().is_ok());
    assert!(limiter.try_acquire("a").is_ok());
    assert!(limiter.try_acquire("b").is_ok());
}

#[test]
fn test_client_config_default() {
    let config = ClientConfig::default();
    assert_eq!(config.timeout_secs, 30);
    assert!(config.follow_redirects);
    assert_eq!(config.max_redirects, 10);
    assert!(config.gzip);
}

#[test]
fn test_client_builder() {
    let builder = HttpClientBuilder::new()
        .timeout(60)
        .user_agent("TestAgent/1.0")
        .follow_redirects(false)
        .max_redirects(5)
        .gzip(false)
        .connect_timeout(5)
        .pool_max_idle_per_host(16);

    assert_eq!(builder.config.timeout_secs, 60);
    assert_eq!(builder.config.user_agent, "TestAgent/1.0");
    assert!(!builder.config.follow_redirects);
    assert_eq!(builder.config.max_redirects, 5);
    assert!(!builder.config.gzip);
    assert_eq!(builder.config.connect_timeout_secs, 5);
    assert_eq!(builder.config.pool_max_idle_per_host, 16);
}

#[test]
fn test_client_builder_build() {
    let result = HttpClientBuilder::new().timeout(30).user_agent("TestAgent/1.0").build();
    assert!(result.is_ok());
}

#[test]
fn test_http_client_creation() {
    let result = HttpClient::new();
    assert!(result.is_ok());
}

#[test]
fn test_http_client_with_builder() {
    let builder = HttpClientBuilder::new().timeout(60);
    let result = HttpClient::with_builder(builder);
    assert!(result.is_ok());
}

#[test]
fn test_http_client_with_client() {
    let client = reqwest::Client::new();
    let http_client = HttpClient::with_client(client);
    assert!(http_client.client().get("https://example.com").build().is_ok());
}

#[test]
fn invalid_user_agent_fails_to_build() {
    match HttpClientBuilder::new().user_agent("bad\nagent").build() {
        Err(DeriveError::Configuration { message }) => assert!(message.starts_with("创建HTTP客户端失败: ")),
        _ => panic!("expected a configuration error"),
    }
}

#[test]
fn status_check_accepts_only_success() {
    assert!(check_status(200).is_ok());
    assert!(check_status(299).is_ok());
    match check_status(404) {
        Err(DeriveError::Network { message, status_code }) => {
            assert_eq!(message, "HTTP请求失败: 404 Not Found");
            assert_eq!(status_code, Some(404));
        }
        _ => panic!("expected a network error"),
    }
}

#[test]
fn cache_test_cache_config_default() {
    let config = CacheConfig::default();
    assert_eq!(config.default_ttl_secs, 300);
    assert_eq!(config.max_entries, 1000);
    assert!(config.enabled);
}

#[test]
fn test_memory_cache_creation() {
    let cache = MemoryCache::new(CacheConfig::default());
    assert!(cache.is_empty().is_ok());
}

#[test]
fn cache_test_cache_set_and_get() {
    let mut cache = MemoryCache::new(CacheConfig::default());
    let result = create_test_result();
    assert!(cache.set("test_key".to_string(), result.clone(), None).is_ok());
    let cached = cache.get("test_key");
    assert!(cached.is_ok());
    assert!(cached.as_ref().ok().and_then(|o| o.as_ref()).is_some());
    let cached_result = cached.unwrap().unwrap();
    assert_eq!(cached_result.engine_name, "TestEngine");
}

#[test]
fn test_cache_miss() {
    let cache = MemoryCache::new(CacheConfig::default());
    let result = cache.get("nonexistent");
    assert!(result.is_ok());
    assert!(result.unwrap().is_none());
}

#[test]
fn cache_test_cache_expiration() {
    let mut cache = MemoryCache::new(CacheConfig::default());
    let result = create_test_result();
    let ttl = Duration::from_secs(0);
    assert!(cache.set("test_key".to_string(), result, Some(ttl)).is_ok());
    wait_ms(10);
    let cached = cache.get("test_key");
    assert!(cached.is_ok());
    assert!(cached.unwrap().is_none());
}

#[test]
fn test_cache_remove() {
    let mut cache = MemoryCache::new(CacheConfig::default());
    let result = create_test_result();
    assert!(cache.set("test_key".to_string(), result, None).is_ok());
    assert!(cache.get("test_key").unwrap().is_some());
    assert!(cache.remove("test_key").is_ok());
    assert!(cache.get("test_key").unwrap().is_none());
}

#[test]
fn test_cache_clear() {
    let mut cache = MemoryCache::new(CacheConfig::default());
    let result = create_test_result();
    assert!(cache.set("key1".to_string(), result.clone(), None).is_ok());
    assert!(cache.set("key2".to_string(), result, None).is_ok());
    assert_eq!(cache.len().unwrap(), 2);
    assert!(cache.clear().is_ok());
    assert_eq!(cache.len().unwrap(), 0);
    assert!(cache.is_empty().unwrap());
}

#[test]
fn test_cache_max_entries() {
    let config = CacheConfig { default_ttl_secs: 300, max_entries: 2, enabled: true };
    let mut cache = MemoryCache::new(config);
    let result = create_test_result();
    assert!(cache.set("key1".to_string(), result.clone(), None).is_ok());
    assert!(cache.set("key2".to_string(), result.clone(), None).is_ok());
    assert_eq!(cache.len().unwrap(), 2);
    assert!(cache.set("key3".to_string(), result, None).is_ok());
    assert_eq!(cache.len().unwrap(), 2);
}

#[test]
fn test_cache_disabled() {
    let config = CacheConfig { default_ttl_secs: 300, max_entries: 1000, enabled: false };
    let mut cache = MemoryCache::new(config);
    let result = create_test_result();
    assert!(cache.set("key1".to_string(), result, None).is_ok());
    assert_eq!(cache.len().unwrap(), 0);
    assert!(cache.get("key1").unwrap().is_none());
}

#[test]
fn test_generate_cache_key() {
    let key1 = MemoryCache::generate_key("engine1", "query", 1, None);
    assert_eq!(key1, "engine1:query:1");
    let mut params = StringMap::new();
    params.insert("safe".to_string(), "1".to_string());
    params.insert("lang".to_string(), "en".to_string());
    let key2 = MemoryCache::generate_key("engine1", "query", 1, Some(&params));
    assert!(key2.contains("lang=en"));
    assert!(key2.contains("safe=1"));
    assert_eq!(key2, "engine1:query:1:lang=en:safe=1");
}

#[test]
fn test_cache_cleanup() {
    let mut cache = MemoryCache::new(CacheConfig::default());
    let result = create_test_result();
    let ttl = Duration::from_secs(0);
    assert!(cache.set("key1".to_string(), result.clone(), Some(ttl)).is_ok());
    assert!(cache.set("key2".to_string(), result.clone(), Some(ttl)).is_ok());
    let long_ttl = Duration::from_secs(3600);
    assert!(cache.set("key3".to_string(), result, Some(long_ttl)).is_ok());
    wait_ms(10);
    let cleaned = cache.cleanup().unwrap();
    assert_eq!(cleaned, 2);
    assert_eq!(cache.len().unwrap(), 1);
}

#[test]
fn stored_result_is_read_back_until_it_expires() {
    let mut cache = MemoryCache::new(CacheConfig { default_ttl_secs: 1, max_entries: 4, enabled: true });
    let result = create_test_result();
    assert!(cache.set_at("k".to_string(), result, None, 1_000).is_ok());
    assert_eq!(cache.get_at("k", 1_000).unwrap().unwrap().engine_name, "TestEngine");
    assert!(cache.get_at("k", 1_000 + 1_000_000_000).unwrap().is_some());
    assert!(cache.get_at("k", 1_000 + 1_000_000_001).unwrap().is_none());
}

#[test]
fn full_cache_drops_expired_before_oldest() {
    let mut cache = MemoryCache::new(CacheConfig { default_ttl_secs: 100, max_entries: 2, enabled: true });
    assert!(cache.set_at("old".to_string(), create_test_result(), Some(10), 0).is_ok());
    assert!(cache.set_at("live".to_string(), create_test_result(), None, 0).is_ok());
    assert!(cache.set_at("new".to_string(), create_test_result(), None, 50).is_ok());
    assert!(cache.get_at("old", 50).unwrap().is_none());
    assert!(cache.get_at("live", 50).unwrap().is_some());
    assert!(cache.get_at("new", 50).unwrap().is_some());
    assert_eq!(cache.cleanup_at(50).unwrap(), 0);
}

fn engine_info() -> EngineInfo {
    EngineInfo {
        name: "TestEngine".to_string(),
        engine_type: EngineType::General,
        description: String::new(),
        status: EngineStatus::Active,
        categories: vec![],
        capabilities: EngineCapabilities {
            result_types: vec![ResultType::Web],
            supported_params: vec!["lang".to_string()],
            max_page_size: 20,
            supports_pagination: true,
            supports_time_range: false,
            supports_language_filter: true,
            supports_region_filter: false,
            supports_safe_search: true,
            rate_limit: None,
        },
        about: AboutInfo::default(),
        shortcut: None,
        timeout: None,
        disabled: false,
        inactive: false,
        version: None,
        last_checked_secs: None,
        using_tor_proxy: false,
        display_error_messages: true,
        tokens: vec![],
        max_page: 0,
    }
}

fn field_of(r: Result<(), DeriveError>) -> Option<(String, String)> {
    match r {
        Err(DeriveError::Validation { message, field }) => Some((message, field.unwrap_or_default())),
        _ => None,
    }
}

#[test]
fn queries_are_checked_against_capabilities() {
    let info = engine_info();
    let mut q = SearchQuery::default();
    q.query = " \t ".to_string();
    assert_eq!(field_of(validate_query(&info, &q)), Some(("查询不能为空".to_string(), "query".to_string())));
    q.query = "a".repeat(1001);
    assert_eq!(field_of(validate_query(&info, &q)), Some(("查询过长，最多1000字符".to_string(), "query".to_string())));
    q.query = "rust".to_string();
    q.page_size = 21;
    assert_eq!(
        field_of(validate_query(&info, &q)),
        Some(("页面大小超出限制，最大20个结果".to_string(), "page_size".to_string()))
    );
    q.page_size = 20;
    q.time_range = Some(TimeRange::Day);
    assert_eq!(field_of(validate_query(&info, &q)), Some(("不支持时间范围过滤".to_string(), "time_range".to_string())));
    q.time_range = None;
    q.params.insert("lang".to_string(), "en".to_string());
    assert!(validate_query(&info, &q).is_ok());
    q.params.insert("region".to_string(), "cn".to_string());
    assert_eq!(field_of(validate_query(&info, &q)), Some(("不支持的参数: region".to_string(), "params".to_string())));
}

#[test]
fn request_params_follow_the_query() {
    let mut q = SearchQuery::default();
    q.page = 3;
    q.language = Some("zh".to_string());
    q.time_range = Some(TimeRange::Week);
    q.safe_search = SafeSearchLevel::Strict;
    q.params.insert("k".to_string(), "v".to_string());
    let p = RequestParams::from_query(&q);
    assert_eq!(p.pageno, 3);
    assert_eq!(p.language, Some("zh".to_string()));
    assert_eq!(p.time_range, Some("week".to_string()));
    assert_eq!(p.safesearch, 2);
    assert_eq!(p.custom.get("k").map(|s| s.as_str()), Some("v"));
    assert_eq!(p.method, "GET");
}

#[test]
fn validation_errors_render() {
    assert_eq!(ValidationError::PageSizeTooLarge { max_size: 50 }.to_string(), "页面大小超出限制，最大50个结果");
    assert_eq!(ValidationError::UnsupportedParameter("x".to_string()).to_string(), "不支持的参数: x");
}

#[test]
fn retries_back_off_and_stop() {
    assert_eq!(retry_delay_ms(0), 1000);
    assert_eq!(retry_delay_ms(3), 8000);
    let net = DeriveError::Network { message: "x".to_string(), status_code: None };
    assert!(is_retryable_error(&net));
    assert!(!is_retryable_error(&DeriveError::Internal { message: "x".to_string() }));
    assert!(should_retry(&net, 2, 3));
    assert!(!should_retry(&net, 3, 3));
    match retry_step::<u8>(Err(DeriveError::Timeout { duration_secs: 1 }), 1, 3) {
        RetryStep::RetryAfter { delay_ms, .. } => assert_eq!(delay_ms, 2000),
        _ => panic!("expected a retry"),
    }
    match retry_step::<u8>(Ok(7), 0, 3) {
        RetryStep::Finish(Ok(v)) => assert_eq!(v, 7),
        _ => panic!("expected success"),
    }
    match retries_exhausted(None) {
        DeriveError::Internal { message } => assert_eq!(message, "所有重试尝试均失败"),
        _ => panic!("expected an internal error"),
    }
}

/// Waits by watching the monotonic clock.
fn wait_ms(ms: u64) {
    let start = std::time::Instant::now();
    while start.elapsed() < std::time::Duration::from_millis(ms) {
        std::hint::spin_loop();
    }
}

#[test]
fn converted_errors_keep_the_underlying_message() {
    let json_err = serde_json::from_str::<serde_json::Value>("{").err().expect("an error");
    let text = json_err.to_string();
    match DeriveError::from_json_error(json_err) {
        DeriveError::Parse { message, .. } => {
            assert_eq!(message, text);
            assert!(message.contains("line 1"));
        }
        _ => panic!("expected a parse error"),
    }
    let url_err = url::Url::parse("not a url").err().expect("an error");
    let text = url_err.to_string();
    match DeriveError::from_url_error(url_err) {
        DeriveError::Validation { message, .. } => assert_eq!(message, format!("无效的 URL: {}", text)),
        _ => panic!("expected a validation error"),
    }
}

#[test]
fn service_errors_carry_code_and_category() {
    use_service_errors();
}

fn use_service_errors() {
    let n = seesea::error::network_error("down");
    assert_eq!(n.code, 1000);
    assert_eq!(n.message, "down");
    assert_eq!(n.category, Some(seesea::error::ErrorCategory::Network));
    let s = seesea::error::search_error("no engine");
    assert_eq!(s.code, 2000);
    assert_eq!(s.category, Some(seesea::error::ErrorCategory::Search));
    let plain = seesea::error::ErrorInfo::new(7, "x".to_string());
    assert!(plain.category.is_none());
}
