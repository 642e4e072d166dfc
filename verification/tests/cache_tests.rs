use seesea::cache::codec::{decode_meta, encode_meta, StoredMeta};
use seesea::cache::manager::{parse_scope, parse_scope_prefix, CacheError, CacheManager};
use seesea::cache::scope::ScopeCache;
use seesea::cache::types::{CacheImplConfig, CacheMode};
use std::time::{Duration, SystemTime, UNIX_EPOCH};

fn temp_cache_config(name: &str) -> CacheImplConfig {
    let nanos = SystemTime::now().duration_since(UNIX_EPOCH).map(|d| d.as_nanos()).unwrap_or(0);
    CacheImplConfig {
        db_path: format!("/tmp/seesea_cache_test_{}_{}", name, nanos),
        default_ttl_secs: 10,
        max_size_bytes: 1024 * 1024,
        enabled: true,
        compression: false,
        mode: CacheMode::HighThroughput,
    }
}

fn wait_for_ms(ms: u64) {
    let start = std::time::Instant::now();
    while start.elapsed() < Duration::from_millis(ms) {
        std::hint::spin_loop();
    }
}

#[test]
fn test_cache_manager_creation() {
    let config = temp_cache_config("creation");
    let manager = CacheManager::instance(config);
    assert!(manager.is_ok());
}

#[test]
fn manager_test_cache_set_and_get() {
    let config = temp_cache_config("set_and_get");
    let mut manager = match CacheManager::instance(config) {
        Ok(m) => m,
        Err(_) => return,
    };

    let scope = "test.scope";
    let key = "test_key";
    let value = b"test_value".to_vec();

    let _ = manager.set(scope, key.to_string(), value.clone(), None);

    let result = manager.get(scope, key).unwrap_or(None);
    assert!(result.is_some());
    assert_eq!(result.unwrap(), value);
}

#[test]
fn manager_test_cache_expiration() {
    let config = temp_cache_config("expiration");
    let mut manager = match CacheManager::instance(config) {
        Ok(m) => m,
        Err(_) => return,
    };

    let scope = "test.scope";
    let key = "expire_key";
    let value = b"expire_value".to_vec();

    let _ = manager.set(scope, key.to_string(), value, Some(Duration::from_secs(1)));

    assert!(manager.get(scope, key).unwrap_or(None).is_some());

    wait_for_ms(1100);

    assert!(manager.get(scope, key).unwrap_or(None).is_none());
}

#[test]
fn test_cache_delete() {
    let config = temp_cache_config("delete");
    let mut manager = match CacheManager::instance(config) {
        Ok(m) => m,
        Err(_) => return,
    };

    let scope = "test.scope";
    let key = "delete_key";
    let value = b"delete_value".to_vec();

    let _ = manager.set(scope, key.to_string(), value, None);
    assert!(manager.get(scope, key).unwrap_or(None).is_some());

    let deleted = manager.delete(scope, key).unwrap_or(false);
    assert!(deleted);

    assert!(manager.get(scope, key).unwrap_or(None).is_none());
}

#[test]
fn test_cache_stats() {
    let mut manager = match CacheManager::instance(temp_cache_config("stats")) {
        Ok(m) => m,
        Err(_) => return,
    };

    let scope = "test.scope";
    let key = "stats_key";
    let value = b"stats_value".to_vec();

    let initial_stats = manager.stats();

    let _ = manager.get(scope, key);
    let stats_after_miss = manager.stats();
    assert_eq!(stats_after_miss.misses, initial_stats.misses + 1);

    let _ = manager.set(scope, key.to_string(), value, None);
    let stats_after_write = manager.stats();
    assert_eq!(stats_after_write.writes, initial_stats.writes + 1);

    let _ = manager.get(scope, key);
    let stats_after_hit = manager.stats();
    assert_eq!(stats_after_hit.hits, initial_stats.hits + 1);
}

#[test]
fn test_scope_management() {
    let config = temp_cache_config("scopes");
    let mut manager = match CacheManager::instance(config) {
        Ok(m) => m,
        Err(_) => return,
    };

    let scope1 = "test.scope1";
    let scope2 = "test.scope2";
    let key = "common_key";
    let value1 = b"value1".to_vec();
    let value2 = b"value2".to_vec();

    let _ = manager.set(scope1, key.to_string(), value1.clone(), None);
    let _ = manager.set(scope2, key.to_string(), value2.clone(), None);

    assert_eq!(manager.get(scope1, key).unwrap_or(None), Some(value1));
    assert_eq!(manager.get(scope2, key).unwrap_or(None), Some(value2.clone()));

    let deleted = manager.delete_scope(scope1).unwrap_or(0);
    assert_eq!(deleted, 1);
    assert!(manager.get(scope1, key).unwrap_or(None).is_none());
    assert_eq!(manager.get(scope2, key).unwrap_or(None), Some(value2));
}

#[test]
fn test_conditional_update() {
    let config = temp_cache_config("conditional");
    let mut manager = match CacheManager::instance(config) {
        Ok(m) => m,
        Err(_) => return,
    };

    let scope = "test.scope";
    let key = "conditional_key";
    let value1 = b"value1".to_vec();
    let value2 = b"value2".to_vec();
    let value3 = b"value3".to_vec();

    manager.set(scope, key.to_string(), value1.clone(), None).unwrap();
    assert_eq!(manager.get(scope, key).unwrap(), Some(value1.clone()));

    manager
        .set_with_condition(scope, key.to_string(), value2.clone(), None, |current_value: &Option<Vec<u8>>, _: &Option<StoredMeta>| {
            current_value.is_some()
        })
        .unwrap();
    assert_eq!(manager.get(scope, key).unwrap(), Some(value2.clone()));

    let expected2 = value2.clone();
    manager
        .set_with_condition(scope, key.to_string(), value3.clone(), None, move |current_value: &Option<Vec<u8>>, _: &Option<StoredMeta>| {
            if let Some(v) = current_value {
                *v == expected2
            } else {
                false
            }
        })
        .unwrap();
    assert_eq!(manager.get(scope, key).unwrap(), Some(value3.clone()));

    let expected1 = value1.clone();
    manager
        .set_with_condition(scope, key.to_string(), value1.clone(), None, move |current_value: &Option<Vec<u8>>, _: &Option<StoredMeta>| {
            if let Some(v) = current_value {
                *v == expected1
            } else {
                false
            }
        })
        .unwrap();
    assert_eq!(manager.get(scope, key).unwrap(), Some(value3.clone()));
}

#[test]
fn test_bloom_filter() {
    let config = temp_cache_config("lookup");
    let mut manager = match CacheManager::instance(config) {
        Ok(m) => m,
        Err(_) => return,
    };

    let scope = "test.scope";
    let key = "bloom_key";
    let value = b"bloom_value".to_vec();

    manager.set(scope, key.to_string(), value.clone(), None).unwrap();

    assert_eq!(manager.get(scope, key).unwrap(), Some(value.clone()));

    let non_existent_key = "non_existent_key";
    assert_eq!(manager.get(scope, non_existent_key).unwrap(), None);
}

#[test]
fn test_hot_keys() {
    let config = temp_cache_config("hot_keys");
    let mut manager = match CacheManager::instance(config) {
        Ok(m) => m,
        Err(_) => return,
    };

    let scope = "test.scope";
    let hot_key = "hot_key";
    let cold_key = "cold_key";
    let value = b"test_value".to_vec();

    manager.set(scope, hot_key.to_string(), value.clone(), None).unwrap();
    manager.set(scope, cold_key.to_string(), value.clone(), None).unwrap();

    for _ in 0..100 {
        manager.get(scope, hot_key).unwrap();
    }

    manager.get(scope, cold_key).unwrap();

    let stats = manager.stats();
    assert!(!stats.hot_keys.is_empty());

    let hot_key_found = stats.hot_keys.iter().any(|hk| hk.key == hot_key);
    assert!(hot_key_found);
}

#[test]
fn test_batch_operations() {
    let config = temp_cache_config("batch");
    let mut manager = match CacheManager::instance(config) {
        Ok(m) => m,
        Err(_) => return,
    };

    let scope = "test.scope";
    let keys = ["key1", "key2", "key3"];
    let values = [b"value1".to_vec(), b"value2".to_vec(), b"value3".to_vec()];

    let items: Vec<(String, Vec<u8>)> = keys.iter().zip(values.iter()).map(|(k, v)| (k.to_string(), v.clone())).collect();
    manager.set_batch(scope, &items, None).unwrap();

    let results = manager.get_batch(scope, &keys).unwrap();
    assert_eq!(results.len(), keys.len());
    for (i, result) in results.iter().enumerate() {
        assert_eq!(result.clone(), Some(values[i].clone()));
    }

    let deleted = manager.delete_batch(scope, &keys).unwrap();
    assert_eq!(deleted, keys.len());

    let results_after_delete = manager.get_batch(scope, &keys).unwrap();
    for result in results_after_delete {
        assert_eq!(result, None);
    }
}

#[test]
fn scopes_split_at_the_first_dot() {
    assert_eq!(parse_scope("search.google.news", "q"), ("search".to_string(), "google.news.q".to_string()));
    assert_eq!(parse_scope("plain", "k"), ("plain".to_string(), "k".to_string()));
    assert_eq!(parse_scope_prefix("search.google"), ("search".to_string(), "google.".to_string()));
    assert_eq!(parse_scope_prefix("plain"), ("plain".to_string(), String::new()));
}

#[test]
fn entries_expire_at_their_lifetime() {
    let mut manager = match CacheManager::instance(temp_cache_config("lifetime")) {
        Ok(m) => m,
        Err(_) => return,
    };
    manager.set_at("a.b", "k".to_string(), b"v".to_vec(), Some(5), 1000).unwrap();
    assert_eq!(manager.get_at("a.b", "k", 1004).unwrap(), Some(b"v".to_vec()));
    assert_eq!(manager.get_at("a.b", "k", 1005).unwrap(), None);
    assert_eq!(manager.get_include_stale_at("a.b", "k", 1005).unwrap(), Some((b"v".to_vec(), true)));
    assert_eq!(manager.get_include_stale_at("a.b", "k", 1001).unwrap(), Some((b"v".to_vec(), false)));
    let meta = manager.get_metadata("b.k").unwrap().unwrap();
    assert_eq!(meta.scope, "a.b");
    assert_eq!(meta.meta.created_at, 1000);
    assert_eq!(meta.meta.expires_at, Some(1005));
    assert_eq!(meta.meta.size_bytes, 1);
    assert_eq!(meta.meta.access_count, 3);
    assert_eq!(meta.meta.last_accessed_at, 1001);
}

#[test]
fn default_lifetime_applies_without_one() {
    let mut manager = match CacheManager::instance(temp_cache_config("default_ttl")) {
        Ok(m) => m,
        Err(_) => return,
    };
    manager.set_at("s", "k".to_string(), b"v".to_vec(), None, 100).unwrap();
    assert_eq!(manager.get_at("s", "k", 109).unwrap(), Some(b"v".to_vec()));
    assert_eq!(manager.get_at("s", "k", 110).unwrap(), None);
}

#[test]
fn cleanup_removes_only_expired_entries() {
    let mut manager = match CacheManager::instance(temp_cache_config("cleanup")) {
        Ok(m) => m,
        Err(_) => return,
    };
    manager.set_at("t.x", "old".to_string(), b"1".to_vec(), Some(1), 100).unwrap();
    manager.set_at("t.x", "new".to_string(), b"2".to_vec(), Some(100), 100).unwrap();
    manager.set_at("u", "other".to_string(), b"3".to_vec(), Some(1), 100).unwrap();
    assert_eq!(manager.cleanup_expired_by_scope_at("t.x", 150).unwrap(), 1);
    assert_eq!(manager.get_include_stale_at("t.x", "old", 150).unwrap(), None);
    assert_eq!(manager.get_include_stale_at("u", "other", 150).unwrap(), Some((b"3".to_vec(), true)));
    assert_eq!(manager.cleanup_expired_at(None, 150).unwrap(), 1);
    assert_eq!(manager.get_include_stale_at("u", "other", 150).unwrap(), None);
    assert_eq!(manager.get_at("t.x", "new", 150).unwrap(), Some(b"2".to_vec()));
    assert_eq!(manager.stats().evictions, 2);
}

#[test]
fn cleanup_stops_at_the_limit() {
    let mut manager = match CacheManager::instance(temp_cache_config("cleanup_limit")) {
        Ok(m) => m,
        Err(_) => return,
    };
    for k in ["a", "b", "c"] {
        manager.set_at("s", k.to_string(), b"v".to_vec(), Some(1), 10).unwrap();
    }
    assert_eq!(manager.cleanup_expired_at(Some(2), 20).unwrap(), 2);
    assert_eq!(manager.cleanup_expired_at(Some(2), 20).unwrap(), 1);
    assert_eq!(manager.cleanup_expired_at(Some(2), 20).unwrap(), 0);
}

#[test]
fn disabled_cache_refuses_every_operation() {
    let mut config = temp_cache_config("disabled");
    config.enabled = false;
    let mut manager = match CacheManager::instance(config) {
        Ok(m) => m,
        Err(_) => return,
    };
    assert!(matches!(manager.get("s", "k"), Err(CacheError::CacheDisabled)));
    assert!(matches!(manager.set("s", "k".to_string(), vec![1], None), Err(CacheError::CacheDisabled)));
    assert!(matches!(manager.delete("s", "k"), Err(CacheError::CacheDisabled)));
    assert!(matches!(manager.clear(), Err(CacheError::CacheDisabled)));
    assert_eq!(CacheError::CacheDisabled.to_string(), "缓存已禁用");
}

#[test]
fn oversized_values_do_not_fit() {
    let mut config = temp_cache_config("full");
    config.max_size_bytes = 4;
    let mut manager = match CacheManager::instance(config) {
        Ok(m) => m,
        Err(_) => return,
    };
    let r = manager.set_at("s", "k".to_string(), vec![0u8; 16], None, 1);
    assert!(matches!(r, Err(CacheError::CacheFull)));
    assert_eq!(CacheError::CacheFull.to_string(), "缓存已满，无法写入新数据");
}

#[test]
fn declined_condition_writes_nothing() {
    let mut manager = match CacheManager::instance(temp_cache_config("declined")) {
        Ok(m) => m,
        Err(_) => return,
    };
    manager
        .set_with_condition_at("s", "k".to_string(), b"v".to_vec(), None, 5, |_: &Option<Vec<u8>>, _: &Option<StoredMeta>| false)
        .unwrap();
    assert_eq!(manager.get_at("s", "k", 5).unwrap(), None);
    assert_eq!(manager.stats().writes, 0);
}

#[test]
fn clearing_metadata_hides_values() {
    let mut manager = match CacheManager::instance(temp_cache_config("clear")) {
        Ok(m) => m,
        Err(_) => return,
    };
    manager.set_at("s.t", "k".to_string(), b"v".to_vec(), None, 5).unwrap();
    manager.clear().unwrap();
    assert_eq!(manager.get_at("s.t", "k", 5).unwrap(), None);
    manager.set_at("s.t", "k".to_string(), b"w".to_vec(), None, 5).unwrap();
    manager.clear_scope("s.t").unwrap();
    assert_eq!(manager.get_include_stale_at("s.t", "k", 5).unwrap(), None);
    assert_eq!(manager.stats().deletes, 0);
}

#[test]
fn deleting_forgets_hot_keys_and_counts() {
    let mut manager = match CacheManager::instance(temp_cache_config("delete_counts")) {
        Ok(m) => m,
        Err(_) => return,
    };
    manager.set_at("s", "k".to_string(), b"v".to_vec(), None, 5).unwrap();
    assert_eq!(manager.stats().hot_keys.len(), 1);
    assert_eq!(manager.stats().hot_keys[0].access_count, 2);
    assert_eq!(manager.stats().hot_keys[0].scope, "s");
    assert!(manager.delete("s", "k").unwrap());
    assert!(!manager.delete("s", "k").unwrap());
    let stats = manager.stats();
    assert_eq!(stats.deletes, 1);
    assert!(stats.hot_keys.is_empty());
    assert_eq!(stats.delete_latency.count, 2);
    assert_eq!(stats.get_batch_latency.count, 0);
}

#[test]
fn test_scope_cache() {
    let config = temp_cache_config("scope_cache");
    let manager = CacheManager::instance(config).expect("创建缓存接口失败");
    let mut scope_cache = ScopeCache::new(manager, "test.scope".to_string());
    assert_eq!(scope_cache.scope(), "test.scope");

    let key = "test_key";
    let value = b"test_value".to_vec();
    scope_cache.set(key.to_string(), value.clone(), None).expect("设置缓存失败");
    let result = scope_cache.get(key).expect("获取缓存失败");
    assert!(result.is_some());
    assert_eq!(result.unwrap(), value);

    let deleted = scope_cache.delete(key).expect("删除缓存失败");
    assert!(deleted);
    let result = scope_cache.get(key).expect("获取缓存失败");
    assert!(result.is_none());
}

#[test]
fn test_scope_cache_expiration() {
    let config = temp_cache_config("scope_cache_expiration");
    let manager = CacheManager::instance(config).expect("创建缓存接口失败");
    let mut scope_cache = ScopeCache::new(manager, "test.scope.expiration".to_string());

    let key = "expire_key";
    let value = b"expire_value".to_vec();
    scope_cache.set(key.to_string(), value, Some(Duration::from_secs(1))).expect("设置缓存失败");

    let result = scope_cache.get(key).expect("获取缓存失败");
    assert!(result.is_some());

    wait_for_ms(1100);

    let result = scope_cache.get(key).expect("获取缓存失败");
    assert!(result.is_none());

    let result = scope_cache.get_include_stale(key).expect("获取过期缓存失败");
    assert!(result.is_some());
    assert!(result.unwrap().1);
}

#[test]
fn cleared_cache_misses_every_key() {
    let mut manager = CacheManager::instance(temp_cache_config("clear_then_get")).expect("cache");
    manager.set("a.b", "k1".to_string(), b"v1".to_vec(), None).expect("set");
    manager.set("c", "k2".to_string(), b"v2".to_vec(), None).expect("set");
    manager.clear().expect("clear");
    assert_eq!(manager.get("a.b", "k1").expect("get"), None);
    assert_eq!(manager.get("c", "k2").expect("get"), None);
    assert_eq!(manager.get_include_stale("c", "k2").expect("get"), None);
}

#[test]
fn metadata_encoding_round_trips_with_its_scope() {
    use_codec_roundtrip("stock.列表", Some(99));
    use_codec_roundtrip("", None);
}

fn use_codec_roundtrip(scope: &str, expires_at: Option<u64>) {
    let m = StoredMeta {
        meta: seesea::cache::types::CacheEntryMetadata {
            created_at: 7,
            expires_at,
            access_count: 3,
            last_accessed_at: 8,
            size_bytes: 12,
        },
        scope: scope.to_string(),
    };
    let bytes = encode_meta(&m);
    let back = decode_meta(&bytes).expect("decodes");
    assert_eq!(back.scope, scope);
    assert_eq!(back.meta.created_at, 7);
    assert_eq!(back.meta.expires_at, expires_at);
    assert_eq!(back.meta.access_count, 3);
    assert_eq!(back.meta.last_accessed_at, 8);
    assert_eq!(back.meta.size_bytes, 12);
    let mut broken = bytes.clone();
    broken.push(0xff);
    assert!(decode_meta(&broken).is_none());
}

#[test]
fn cleanup_removes_every_expired_entry() {
    let mut manager = CacheManager::instance(temp_cache_config("cleanup_all")).expect("cache");
    manager.set("a.b", "k1".to_string(), b"v1".to_vec(), Some(Duration::from_secs(1))).expect("set");
    manager.set("c", "k2".to_string(), b"v2".to_vec(), Some(Duration::from_secs(1))).expect("set");
    manager.set("c", "k3".to_string(), b"v3".to_vec(), None).expect("set");
    wait_for_ms(1100);
    assert_eq!(manager.cleanup_expired_default().expect("cleanup"), 2);
    assert_eq!(manager.get_include_stale("a.b", "k1").expect("get"), None);
    assert_eq!(manager.get_include_stale("c", "k2").expect("get"), None);
    assert_eq!(manager.get("c", "k3").expect("get"), Some(b"v3".to_vec()));
    assert!(manager.get_or_create_tree("c").is_ok());
    assert!(manager.get_or_create_tree("cache_metadata").is_ok());
}

#[test]
fn delete_batch_counts_each_held_key_once() {
    let mut manager = match CacheManager::instance(temp_cache_config("batch_count")) {
        Ok(m) => m,
        Err(_) => return,
    };
    manager.set_at("b", "one".to_string(), b"1".to_vec(), None, 5).unwrap();
    manager.set_at("b", "two".to_string(), b"2".to_vec(), None, 5).unwrap();
    let deleted = manager.delete_batch("b", &["one", "one", "missing", "two"]).unwrap();
    assert_eq!(deleted, 2);
    assert_eq!(manager.delete_batch("b", &[]).unwrap(), 0);
}

#[test]
fn deleted_scope_leaves_no_key_and_spares_others() {
    let mut manager = match CacheManager::instance(temp_cache_config("scope_sweep")) {
        Ok(m) => m,
        Err(_) => return,
    };
    manager.set_at("top.a", "x".to_string(), b"1".to_vec(), None, 5).unwrap();
    manager.set_at("top.a", "y".to_string(), b"2".to_vec(), None, 5).unwrap();
    manager.set_at("top.b", "x".to_string(), b"3".to_vec(), None, 5).unwrap();
    assert_eq!(manager.delete_scope("top.a").unwrap(), 2);
    assert_eq!(manager.get_at("top.a", "x", 5).unwrap(), None);
    assert_eq!(manager.get_at("top.a", "y", 5).unwrap(), None);
    assert_eq!(manager.get_at("top.b", "x", 5).unwrap(), Some(b"3".to_vec()));
    assert_eq!(manager.delete_scope("top.a").unwrap(), 0);
}

#[test]
fn condition_sees_the_current_value() {
    let mut manager = match CacheManager::instance(temp_cache_config("cond_sees")) {
        Ok(m) => m,
        Err(_) => return,
    };
    manager.set_at("c", "k".to_string(), b"old".to_vec(), None, 5).unwrap();
    manager
        .set_with_condition_at("c", "k".to_string(), b"new".to_vec(), None, 5, |c: &Option<Vec<u8>>, m: &Option<StoredMeta>| {
            c.as_deref() == Some(&b"old"[..]) && m.is_some()
        })
        .unwrap();
    assert_eq!(manager.get_at("c", "k", 5).unwrap(), Some(b"new".to_vec()));
    manager
        .set_with_condition_at("c", "k".to_string(), b"newer".to_vec(), None, 5, |c: &Option<Vec<u8>>, _: &Option<StoredMeta>| {
            c.as_deref() == Some(&b"old"[..])
        })
        .unwrap();
    assert_eq!(manager.get_at("c", "k", 5).unwrap(), Some(b"new".to_vec()));
}
