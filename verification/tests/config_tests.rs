use std::time::Duration;
use seesea::cache::types::{CacheEntryMetadata, CacheImplConfig, CacheMode, CacheStats};
use seesea::config::cache::{CacheBackend, CacheConfig};
use seesea::config::common::{ConfigValidationResult, LogLevel};
use seesea::config::engines::{EngineListConfig, EngineMode};
use seesea::config::privacy::{PrivacyConfig, ProxyConfig};
use seesea::config::common::ProxyType;
use seesea::config::search::SearchConfig;
use seesea::config::server::{ServerConfig, TlsConfig};
use seesea::config::settings::{ConfigError, ConfigLoader, ConfigSource, SeeSeaConfig, SourceRead};
use seesea::config::types::Environment;

#[test]
fn types_test_cache_config_default() {
    let config = CacheConfig::default();
    assert_eq!(config.ttl, 3600);
    assert_eq!(config.max_size, 1024 * 1024 * 1024);
    assert!(config.enable_result_cache);
}

#[test]
fn test_cache_entry_metadata_expiration() {
    let metadata = CacheEntryMetadata::new(Some(std::time::Duration::from_secs(1)), 100);
    assert!(!metadata.is_expired());
    wait_ms(1100);
    assert!(metadata.is_expired());
}

#[test]
fn test_cache_entry_metadata_no_expiration() {
    let metadata = CacheEntryMetadata::new(None, 100);
    assert!(!metadata.is_expired());
}

#[test]
fn test_cache_entry_metadata_access() {
    let mut metadata = CacheEntryMetadata::new(None, 100);
    assert_eq!(metadata.access_count, 0);
    metadata.update_access();
    assert_eq!(metadata.access_count, 1);
    metadata.update_access();
    assert_eq!(metadata.access_count, 2);
}

#[test]
fn metadata_expiry_at_given_times() {
    let m = CacheEntryMetadata::new_at(100, Some(10), 5);
    assert_eq!(m.expires_at, Some(110));
    assert!(!m.is_expired_at(109));
    assert!(m.is_expired_at(110));
    let forever = CacheEntryMetadata::new_at(100, None, 5);
    assert!(!forever.is_expired_at(u64::MAX));
    let capped = CacheEntryMetadata::new_at(u64::MAX - 1, Some(10), 5);
    assert_eq!(capped.expires_at, Some(u64::MAX));
}

#[test]
fn cache_settings_follow_the_section() {
    let mut section = CacheConfig::default();
    let c = CacheImplConfig::from_config(&section);
    assert_eq!(c.default_ttl_secs, 3600);
    assert!(c.enabled);
    assert_eq!(c.mode, CacheMode::HighThroughput);
    section.backend = CacheBackend::Memory;
    section.enable_result_cache = false;
    section.enable_metadata_cache = false;
    let c = CacheImplConfig::from_config(&section);
    assert_eq!(c.mode, CacheMode::LowLatency);
    assert!(!c.enabled);
    let d = CacheImplConfig::default();
    assert_eq!(d.db_path, "./data/cache.db");
    assert_eq!(CacheStats::default().hits, 0);
}

#[test]
fn server_defaults_warn_about_the_key() {
    let s = ServerConfig::default();
    let r = s.validate();
    assert!(r.is_valid);
    assert_eq!(r.warnings, vec!["生产环境请更改默认密钥".to_string()]);
    assert_eq!(s.bind_address(), "127.0.0.1:8080");
    assert_eq!(s.base_url(), "http://127.0.0.1:8080");
    assert!(!s.is_https());
}

#[test]
fn server_errors_come_in_order() {
    let mut s = ServerConfig::default();
    s.port = 0;
    s.secret_key = "short".to_string();
    s.tls = Some(TlsConfig { enabled: true, ..TlsConfig::default() });
    s.request_timeout = 0;
    s.max_request_size = 0;
    let r = s.validate();
    assert!(!r.is_valid);
    assert_eq!(
        r.errors,
        vec![
            "端口号必须在 1-65535 范围内".to_string(),
            "密钥长度必须至少 16 个字符".to_string(),
            "启用 TLS 时必须指定证书文件路径".to_string(),
            "启用 TLS 时必须指定私钥文件路径".to_string(),
            "请求超时时间必须大于 0".to_string(),
            "最大请求大小必须大于 0".to_string(),
        ]
    );
    assert_eq!(s.base_url(), "https://127.0.0.1:0");
}

#[test]
fn search_settings_are_checked() {
    let s = SearchConfig::default();
    assert!(s.validate().is_valid);
    assert!(s.is_language_supported("auto"));
    assert!(s.is_language_supported("zh"));
    assert!(!s.is_language_supported("xx"));
    assert!(s.is_format_supported("json"));
    assert!(!s.is_format_supported("rss"));
    assert_eq!(s.get_valid_results_count(0), 1);
    assert_eq!(s.get_valid_results_count(30), 30);
    assert_eq!(s.get_valid_results_count(500), 50);
    let mut bad = SearchConfig::default();
    bad.results_per_page = 0;
    bad.max_results_per_page = 200;
    bad.query_processing.correction_threshold_milli = 1500;
    let r = bad.validate();
    assert_eq!(r.errors, vec!["默认结果数必须大于 0".to_string(), "纠正阈值必须在 0.0-1.0 之间".to_string()]);
    assert_eq!(r.warnings, vec!["最大结果数过大可能影响性能".to_string()]);
}

#[test]
fn privacy_errors_name_the_proxy() {
    let mut p = PrivacyConfig::default();
    assert!(p.validate().is_valid);
    p.proxy_chain.push(ProxyConfig {
        proxy_type: ProxyType::Http,
        address: String::new(),
        port: 0,
        username: None,
        password: None,
        enabled: true,
        weight_milli: 1000,
        timeout: 5,
        retry_count: 0,
        allowed_domains: vec![],
        blocked_domains: vec![],
    });
    p.enable_tor = true;
    p.tor_config.control_port = Some(0);
    let r = p.validate();
    assert_eq!(
        r.errors,
        vec!["代理 1 地址不能为空".to_string(), "代理 1 端口无效".to_string(), "Tor 控制端口无效".to_string()]
    );
    assert_eq!(p.dns_config.servers[2].name, "阿里云");
    assert_eq!(p.dns_config.servers[2].weight_milli, 1200);
}

#[test]
fn environments_and_presets() {
    assert_eq!(Environment::Production.to_string(), "production");
    let d = SeeSeaConfig::development();
    assert!(d.general.debug);
    assert_eq!(d.logging.level, LogLevel::Debug);
    let p = SeeSeaConfig::production();
    assert!(!p.general.debug);
    assert_eq!(p.logging.level, LogLevel::Warn);
    assert_eq!(SeeSeaConfig::testing().environment, Environment::Testing);
    let summary = p.get_summary();
    assert_eq!(summary.environment, "Production");
    assert!(p.is_production_ready());
    assert_eq!(p.get_config_recommendations(), vec!["生产环境请更改默认密钥".to_string()]);
}

#[test]
fn config_errors_render() {
    assert_eq!(ConfigError::IoError("x".to_string()).to_string(), "IO 错误: x");
    assert_eq!(ConfigError::FileNotFound("a.toml".to_string()).to_string(), "配置文件不存在: a.toml");
    match ConfigError::ValidationFailed(vec!["e1".to_string()]) {
        ConfigError::Validation(r) => {
            assert!(!r.is_valid);
            assert_eq!(r.errors, vec!["e1".to_string()]);
        }
        _ => panic!("expected a validation error"),
    }
    let v = ConfigError::ValidationFailed(vec!["bad".to_string()]);
    assert_eq!(
        v.to_string(),
        "验证失败: ConfigValidationResult { is_valid: false, errors: [\"bad\"], warnings: [] }"
    );
}

#[test]
fn validation_results_merge() {
    let mut a = ConfigValidationResult::success();
    a.add_warning("w".to_string());
    let mut b = ConfigValidationResult::default();
    b.add_error("e".to_string());
    a.merge(b);
    assert!(!a.is_valid);
    assert_eq!(a.errors, vec!["e".to_string()]);
    assert_eq!(a.warnings, vec!["w".to_string()]);
}

#[test]
fn loader_applies_sources_in_order() {
    let loader = ConfigLoader::new().with_environment(Environment::Testing).with_validation(true);
    assert_eq!(loader.sources.len(), 3);
    let mut file = SeeSeaConfig::default();
    file.server.port = 9090;
    let reads: Vec<SourceRead> = vec![Ok(None), Ok(None), Ok(Some(file))];
    let r = loader.clone().load_from(reads, 42).unwrap();
    assert_eq!(r.config.server.port, 9090);
    assert_eq!(r.load_time_secs, 42);
    assert_eq!(r.warnings, vec!["生产环境请更改默认密钥".to_string()]);

    let mut bad = SeeSeaConfig::default();
    bad.server.port = 0;
    let reads: Vec<SourceRead> = vec![Ok(None), Ok(None), Ok(Some(bad))];
    assert!(matches!(loader.clone().load_from(reads, 0), Err(ConfigError::Validation(_))));

    let reads: Vec<SourceRead> = vec![Ok(None), Err(ConfigError::Parse("p".to_string())), Ok(None)];
    assert!(matches!(loader.load_from(reads, 0), Err(ConfigError::Parse(_))));

    let more = ConfigLoader::new().with_source(ConfigSource::CommandLine);
    assert_eq!(more.sources.len(), 4);
}

#[test]
fn engine_lists_pick_by_mode() {
    let mut c = EngineListConfig::default();
    assert_eq!(c.get_engines_for_mode(&EngineMode::DeepWeb), vec!["xinhua".to_string()]);
    assert_eq!(c.get_engines_for_mode(&EngineMode::Fast).len(), 9);
    let custom = EngineMode::Custom(vec!["bing".to_string(), "nope".to_string(), "baidu".to_string()]);
    assert_eq!(c.get_engines_for_mode(&custom), vec!["bing".to_string(), "baidu".to_string()]);
    assert!(c.is_engine_available("yandex"));
    assert_eq!(c.add_global_engine("nope".to_string()), Err("Engine 'nope' is not available".to_string()));
    c.remove_global_engine("bing");
    assert!(!c.get_engines_for_mode(&EngineMode::Global).contains(&"bing".to_string()));
    assert_eq!(c.add_global_engine("bing".to_string()), Ok(()));
    assert_eq!(c.add_global_engine("bing".to_string()), Ok(()));
    assert_eq!(c.global_engines.iter().filter(|e| *e == "bing").count(), 1);
    assert_eq!(EngineListConfig::get_default_engines().len(), 10);
    assert!(c.validate_engines(&vec!["bing".to_string()]).is_ok());
    let err = c.validate_engines(&vec!["bing".to_string(), "zz".to_string()]).unwrap_err();
    assert!(err.starts_with("Engine 'zz' is not available. Available engines: [\"yandex\""));
    assert_eq!(c.filter_available_engines(&vec!["zz".to_string(), "so".to_string()]), vec!["so".to_string()]);
}

/// Waits by watching the monotonic clock.
fn wait_ms(ms: u64) {
    let start = std::time::Instant::now();
    while start.elapsed() < std::time::Duration::from_millis(ms) {
        std::hint::spin_loop();
    }
}

#[test]
fn metadata_lifetime_counts_whole_seconds_of_the_duration() {
    let m = CacheEntryMetadata::new(Some(Duration::from_millis(5_900)), 7);
    assert_eq!(m.expires_at, Some(m.created_at + 5));
    assert_eq!(m.size_bytes, 7);
    let forever = CacheEntryMetadata::new(None, 0);
    assert_eq!(forever.expires_at, None);
}

#[test]
fn filtered_engines_validate_and_removed_engines_are_gone() {
    let mut config = EngineListConfig::default();
    let asked = vec!["bing".to_string(), "no-such-engine".to_string(), "baidu".to_string()];
    let kept = config.filter_available_engines(&asked);
    assert!(!kept.contains(&"no-such-engine".to_string()));
    assert!(config.validate_engines(&kept).is_ok());
    assert!(config.validate_engines(&asked).is_err());
    let first = config.global_engines[0].clone();
    config.remove_global_engine(&first);
    assert!(!config.global_engines.contains(&first));
}

#[test]
fn loading_now_stamps_the_current_time() {
    let before = std::time::SystemTime::now().duration_since(std::time::UNIX_EPOCH).unwrap().as_secs();
    let reads: Vec<SourceRead> = vec![Ok(None), Ok(None), Ok(None)];
    let r = ConfigLoader::new().load(reads).unwrap();
    assert!(r.load_time_secs >= before);
    assert_eq!(r.config.server.port, 8080);
    let m = seesea::config::types::ConfigMetadata::default();
    assert_eq!(m.version, "1.0");
    assert!(m.created_at_secs.unwrap() >= before as i64);
    assert!(m.updated_at_secs.is_some());
    assert_eq!(m.format, seesea::config::types::ConfigFormat::Toml);
    assert!(m.notes.is_none());
}
