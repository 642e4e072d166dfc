use seesea::api::json::{parse_json, string_member, JsonValue};
use seesea::api::stock::{ready_notice, stock_search_reply, CachedBytes, ReadyNotice, StockSearchOutcome};
use seesea::api::rss::{
    add_from_template, default_max_items, feed_response, item_matches, parse_template, select_feed_items,
    template_names, template_not_found, template_path, RssFeedItemResponse, RssFetchError, RssFetchRequest,
    TemplateAddRequest,
};
use seesea::api::magic_link::{magic_link_answer, magic_link_purpose};
use seesea::api::pages::{config_script, fallback_icon, icon_cache_control, icon_paths, inject_config};
use seesea::api::settings::{AuthConfig, CacheClearResponse, RateLimitConfig, ServerConfig};
use seesea::api::stock::{
    lookup_step, plan_stock_request, route_stock, search_stocks, split_path, stock_announcements_key,
    stock_kline_key, wait_step, CacheRead, LookupStep, MissPolicy, StockFields, StockPlan, StockReply,
    StockRoute, WaitStep,
};
use seesea::api::stock_bridge::{cache_control, default_limit, plan_bridge_request, BridgeArg, BridgePlan, KLineParams};
use seesea::derive::types::StringMap;

fn item(title: &str, description: Option<&str>) -> RssFeedItemResponse {
    RssFeedItemResponse {
        title: title.to_string(),
        link: format!("https://example.com/{}", title.len()),
        description: description.map(|d| d.to_string()),
        author: None,
        published: None,
        categories: vec![],
    }
}

#[test]
fn test_rate_limit_config_default() {
    let config = RateLimitConfig::default();
    assert_eq!(config.requests_per_second, 10);
    assert_eq!(config.burst_size, 20);
}

#[test]
fn test_auth_config_default() {
    let config = AuthConfig::default();
    assert!(!config.enabled);
    assert_eq!(config.api_keys.len(), 0);
}

#[test]
fn test_logging_middleware_exists() {}

#[test]
fn server_defaults_listen_everywhere() {
    let config = ServerConfig::default();
    assert_eq!(config.host, "0.0.0.0");
    assert_eq!(config.port, 8080);
    assert_eq!(config.cors_origins, vec!["*".to_string()]);
    assert!(config.enable_logging);
}

#[test]
fn cache_endpoint_answers_count_entries() {
    let r = CacheClearResponse::cleared(12);
    assert!(r.success);
    assert_eq!(r.cleared_entries, 12);
    assert_eq!(r.message, "成功清除 12 条缓存");
    let r = CacheClearResponse::cleaned(3);
    assert_eq!(r.message, "成功清理 3 条过期缓存");
    let r = CacheClearResponse::clear_failed("io");
    assert!(!r.success);
    assert_eq!(r.message, "清除缓存失败: io");
    assert_eq!(CacheClearResponse::cleanup_failed("io").message, "清理过期缓存失败: io");
}

#[test]
fn fetch_requests_default_to_fifty_items() {
    assert_eq!(default_max_items(), Some(50));
    let r = RssFetchRequest::new("https://example.com/feed".to_string());
    assert_eq!(r.max_items, Some(50));
    assert!(r.filter_keywords.is_empty());
}

#[test]
fn keywords_match_title_or_description_ignoring_case() {
    let kws = vec!["Rust".to_string(), "verus".to_string()];
    assert!(item_matches(&item("Learning RUST today", None), &kws));
    assert!(item_matches(&item("News", Some("About VERUS proofs")), &kws));
    assert!(!item_matches(&item("News", Some("About Python")), &kws));
    assert!(item_matches(&item("Anything", None), &vec![]));
}

#[test]
fn fetch_keeps_matching_items_up_to_the_limit() {
    let items = vec![
        item("rust one", None),
        item("python", None),
        item("rust two", None),
        item("go", Some("rust inside")),
    ];
    let kws = vec!["rust".to_string()];
    let chosen = select_feed_items(items.clone(), &kws, Some(2));
    let titles: Vec<String> = chosen.iter().map(|i| i.title.clone()).collect();
    assert_eq!(titles, vec!["rust one".to_string(), "rust two".to_string()]);
    let all = select_feed_items(items.clone(), &kws, None);
    assert_eq!(all.len(), 3);
    assert_eq!(all[2].title, "go");
    assert!(select_feed_items(items, &vec![], Some(0)).is_empty());
}

#[test]
fn feed_answer_carries_the_feed_description() {
    let mut request = RssFetchRequest::new("u".to_string());
    request.max_items = Some(1);
    let r = feed_response("T".to_string(), None, "L".to_string(), vec![item("a", None), item("b", None)], &request);
    assert_eq!(r.meta.title, Some("T".to_string()));
    assert_eq!(r.meta.link, Some("L".to_string()));
    assert_eq!(r.meta.description, None);
    assert_eq!(r.items.len(), 1);
    assert_eq!(r.items[0].title, "a");
}

#[test]
fn fetch_errors_carry_codes_and_statuses() {
    let e = RssFetchError::Network("timeout".to_string());
    assert_eq!(e.status(), 502);
    let r = e.response();
    assert_eq!(r.code, "NETWORK_ERROR");
    assert_eq!(r.message, "Failed to fetch RSS feed: timeout");
    let r = RssFetchError::Read("eof".to_string()).response();
    assert_eq!(r.code, "FETCH_ERROR");
    assert_eq!(r.message, "Failed to read RSS feed content: eof");
    let e = RssFetchError::Parse("bad xml".to_string());
    assert_eq!(e.status(), 422);
    assert_eq!(e.response().code, "PARSE_ERROR");
    assert_eq!(e.response().message, "Failed to parse RSS feed: bad xml");
    assert_eq!(e.response().details, None);
}

#[test]
fn template_names_are_sorted_and_stripped() {
    let files = vec![
        "tech.rss.see".to_string(),
        "README.md".to_string(),
        "news.rss.see".to_string(),
        "double.rss.see.rss.see".to_string(),
        "rss.see".to_string(),
    ];
    assert_eq!(template_names(&files), vec!["double".to_string(), "news".to_string(), "tech".to_string()]);
    assert!(template_names(&vec![]).is_empty());
}

#[test]
fn template_lines_list_feeds_by_category() {
    let text = "# feeds\n\nhttps://a.example/rss tech\r\n  https://b.example/rss\n// note\nhttps://c.example/rss   news extra\n";
    let all = parse_template(text, &vec![]);
    assert_eq!(
        all,
        vec!["https://a.example/rss".to_string(), "https://b.example/rss".to_string(), "https://c.example/rss".to_string()]
    );
    assert_eq!(parse_template(text, &vec!["news".to_string()]), vec!["https://c.example/rss".to_string()]);
    assert_eq!(parse_template(text, &vec!["默认".to_string()]), vec!["https://b.example/rss".to_string()]);
    assert!(parse_template("", &vec![]).is_empty());
}

#[test]
fn template_answers_count_their_feeds() {
    let request = TemplateAddRequest { name: "tech".to_string(), categories: vec![] };
    let r = add_from_template(&request, "https://a/rss\nhttps://b/rss x\n");
    assert!(r.success);
    assert_eq!(r.added_feeds.len(), 2);
    assert!(r.failed_feeds.is_empty());
    assert_eq!(r.message, "Successfully loaded 2 feeds from template 'tech'");
    assert_eq!(template_path("tech"), "rss/template/tech.rss.see");
    let e = template_not_found("tech", "missing".to_string());
    assert_eq!(e.code, "TEMPLATE_NOT_FOUND");
    assert_eq!(e.message, "Template 'tech' not found");
    assert_eq!(e.details, Some("missing".to_string()));
}

#[test]
fn stock_paths_route_to_endpoints() {
    assert_eq!(split_path("/quote//stream/"), vec!["quote".to_string(), "stream".to_string()]);
    assert!(matches!(route_stock("GET", "quote/stream"), StockRoute::QuoteStream));
    assert!(matches!(route_stock("GET", "detail/600000"), StockRoute::Detail(c) if c == "600000"));
    assert!(matches!(route_stock("GET", "sectors/bk01/stocks"), StockRoute::SectorStocks(c) if c == "bk01"));
    assert!(matches!(route_stock("POST", "search"), StockRoute::Unknown));
    assert!(matches!(route_stock("GET", "nothing"), StockRoute::Unknown));
}

#[test]
fn stock_plans_follow_the_query() {
    let empty = StringMap::new();
    let p = plan_stock_request(&StockRoute::Search, &empty, "search", "GET");
    assert!(matches!(p, StockPlan::BadRequest(m) if m == "keyword is required"));

    let mut kw = StringMap::new();
    kw.insert("keyword".to_string(), "bank".to_string());
    kw.insert("limit".to_string(), "5".to_string());
    match plan_stock_request(&StockRoute::Search, &kw, "search", "GET") {
        StockPlan::Search { scope, key, keyword, limit } => {
            assert_eq!(scope, "stock.list");
            assert_eq!(key, "list:cn_a");
            assert_eq!(keyword, "bank");
            assert_eq!(limit, 5);
        },
        _ => panic!("expected a search"),
    }

    let mut q = StringMap::new();
    q.insert("code".to_string(), "600000".to_string());
    let p = plan_stock_request(&StockRoute::Kline, &q, "kline", "GET");
    match p {
        StockPlan::Lookup { scope, key, on_miss: MissPolicy::Fetch { request, max_retries, retry_delay_ms } } => {
            assert_eq!(scope, "stock.kline");
            assert_eq!(key, "kline:600000:daily");
            assert_eq!(request.data_type, "kline");
            assert_eq!(max_retries, 5);
            assert_eq!(retry_delay_ms, 500);
        },
        _ => panic!("expected a fetching lookup"),
    }
    let p = plan_stock_request(&StockRoute::Unknown, &q, "x/y", "DELETE");
    assert!(matches!(p, StockPlan::UnknownRoute { message, path, method }
        if message == "Stock API endpoint not found" && path == "/stock/x/y" && method == "DELETE"));
    assert_eq!(stock_kline_key("1", "weekly"), "kline:1:weekly");
    assert_eq!(stock_announcements_key("1", 2, 30), "announcements:1:2:30");
}

#[test]
fn lookups_answer_hits_and_wait_on_misses() {
    let not_found = MissPolicy::NotFound("Quote stream not found".to_string());
    assert!(matches!(lookup_step(CacheRead::Hit { parsed: true }, &not_found), LookupStep::Reply(StockReply::Data)));
    assert!(matches!(
        lookup_step(CacheRead::Miss, &not_found),
        LookupStep::Reply(StockReply::Error { status: 404, .. })
    ));
    assert!(matches!(
        lookup_step(CacheRead::Failed, &not_found),
        LookupStep::Reply(StockReply::Error { status: 500, message }) if message == "Cache query failed"
    ));
    assert!(matches!(wait_step(0, 5, CacheRead::Miss), WaitStep::KeepWaiting));
    assert!(matches!(
        wait_step(4, 5, CacheRead::Miss),
        WaitStep::Reply(StockReply::Error { status: 404, message }) if message == "Data not available after retries"
    ));
}

#[test]
fn stock_search_matches_name_code_or_industry() {
    let stocks = vec![
        StockFields { name: Some("Bank of Rust".to_string()), code: Some("600000".to_string()), industry: None },
        StockFields { name: Some("Steel".to_string()), code: Some("600001".to_string()), industry: Some("rusty metals".to_string()) },
        StockFields { name: None, code: None, industry: None },
    ];
    assert_eq!(search_stocks(&stocks, "RUST", 20), vec![0, 1]);
    assert_eq!(search_stocks(&stocks, "rust", 1), vec![0]);
    assert_eq!(search_stocks(&stocks, "rust", 0), vec![0]);
    assert_eq!(search_stocks(&stocks, "6000", 20), vec![0, 1]);
}

#[test]
fn bridged_stock_requests_call_the_bridge() {
    assert_eq!(default_limit(), 20);
    let k = KLineParams::new("600000".to_string());
    assert_eq!(k.period, "daily");
    assert_eq!(k.adjust, "qfq");
    assert_eq!(k.limit, 500);

    let empty = StringMap::new();
    let p = plan_bridge_request(&StockRoute::Search, &empty, "search", "GET");
    assert!(matches!(p, BridgePlan::BadRequest(m) if m == "Search query 'q' is required"));

    let mut q = StringMap::new();
    q.insert("q".to_string(), "bank".to_string());
    q.insert("limit".to_string(), "+5".to_string());
    match plan_bridge_request(&StockRoute::Search, &q, "search", "GET") {
        BridgePlan::Call { function, args, max_age, failure, .. } => {
            assert_eq!(function, "stock_search");
            assert!(matches!(&args[0], BridgeArg::Text(t) if t == "bank"));
            assert!(matches!(&args[1], BridgeArg::Count(5)));
            assert_eq!(max_age, None);
            assert_eq!(failure, "Search failed");
        },
        _ => panic!("expected a call"),
    }

    let mut q = StringMap::new();
    q.insert("limit".to_string(), "-3".to_string());
    match plan_bridge_request(&StockRoute::Announcements("600000".to_string()), &q, "announcements/600000", "GET") {
        BridgePlan::Call { function, args, max_age, .. } => {
            assert_eq!(function, "stock_announcements");
            assert!(matches!(&args[1], BridgeArg::Int(-3)));
            assert_eq!(max_age, Some(300));
        },
        _ => panic!("expected a call"),
    }
    match plan_bridge_request(&StockRoute::Kline, &{
        let mut q = StringMap::new();
        q.insert("code".to_string(), "1".to_string());
        q
    }, "kline", "GET") {
        BridgePlan::Call { function, args, kwargs, max_age, .. } => {
            assert_eq!(function, "stock_klines");
            assert_eq!(args.len(), 3);
            assert_eq!(kwargs.len(), 3);
            assert_eq!(kwargs[2].0, "limit");
            assert!(matches!(kwargs[2].1, BridgeArg::Count(500)));
            assert_eq!(max_age, Some(60));
        },
        _ => panic!("expected a call"),
    }
    assert!(matches!(
        plan_bridge_request(&StockRoute::QuoteStream, &empty, "quote/stream", "GET"),
        BridgePlan::Stream { interval_secs: 5, .. }
    ));
    assert!(matches!(
        plan_bridge_request(&StockRoute::Ranking, &empty, "ranking", "GET"),
        BridgePlan::NotFound { path, .. } if path == "/stock/ranking"
    ));
    assert_eq!(cache_control(Some(60)), "max-age=60");
    assert_eq!(cache_control(None), "no-cache");
}

#[test]
fn index_page_gets_the_config_script_before_head() {
    let script = config_script("http://api");
    assert_eq!(script, "<script>\nwindow.__SEESEA_CONFIG__ = {\n  API_BASE_URL: 'http://api'\n};\n</script>");
    let page = "<html><head><title>x</title></head><body></body></html>";
    let out = inject_config(page, "http://api");
    assert_eq!(
        out,
        format!("<html><head><title>x</title>{}\n</head><body></body></html>", script)
    );
    assert_eq!(inject_config("<p>no head</p>", "x"), "<p>no head</p>");
    let twice = inject_config("</head></head>", "");
    assert_eq!(twice.matches("__SEESEA_CONFIG__").count(), 2);
}

#[test]
fn icon_fallback_and_paths() {
    assert!(fallback_icon().starts_with("<svg"));
    assert!(fallback_icon().contains("🌊"));
    assert_eq!(icon_paths(), vec!["static/image/favicon.ico".to_string(), "server/static/favicon.ico".to_string()]);
    assert_eq!(icon_cache_control(), "public, max-age=86400");
}

#[test]
fn magic_links_default_to_general_and_carry_the_token() {
    assert_eq!(magic_link_purpose(None), "general");
    assert_eq!(magic_link_purpose(Some("share")), "share");
    let a = magic_link_answer("abc".to_string());
    assert_eq!(a.token, "abc");
    assert_eq!(a.expires_in, 300);
    assert_eq!(a.url, "/api/search?magic_token=abc");
}

fn search_names(cached: CachedBytes, keyword: &str, limit: usize) -> Result<Vec<String>, (u16, String)> {
    match stock_search_reply(cached, keyword, limit) {
        StockSearchOutcome::Reply(StockReply::Error { status, message }) => Err((status, message)),
        StockSearchOutcome::Reply(StockReply::Data) => Err((0, String::new())),
        StockSearchOutcome::Found(found) => Ok(found
            .into_iter()
            .map(|v| match v {
                JsonValue::Object(ms) => ms
                    .into_iter()
                    .find(|(k, _)| k == "code")
                    .map(|(_, x)| match x {
                        JsonValue::Text(t) => t,
                        _ => String::new(),
                    })
                    .unwrap_or_default(),
                _ => String::new(),
            })
            .collect()),
    }
}

#[test]
fn stock_search_reads_the_cached_json_list() {
    let list = br#"[{"name":"Bank of Rust","code":"600000"},{"name":"Steel","code":"600001","industry":"rusty metals"},{"code":7},"x"]"#;
    assert_eq!(search_names(CachedBytes::Found(list.to_vec()), "RUST", 20), Ok(vec!["600000".to_string(), "600001".to_string()]));
    assert_eq!(search_names(CachedBytes::Found(list.to_vec()), "rust", 0), Ok(vec!["600000".to_string()]));
    assert_eq!(search_names(CachedBytes::Found(list.to_vec()), "nothing", 20), Ok(vec![]));
    assert_eq!(search_names(CachedBytes::Missing, "a", 20), Err((404, "Stock list not found in cache".to_string())));
    assert_eq!(search_names(CachedBytes::Failed, "a", 20), Err((500, "Cache query failed".to_string())));
    assert_eq!(search_names(CachedBytes::Found(b"[1,".to_vec()), "a", 20), Err((500, "Failed to parse stock list".to_string())));
    assert_eq!(search_names(CachedBytes::Found(b"{\"a\":1}".to_vec()), "a", 20), Err((500, "Invalid stock list format".to_string())));
}

#[test]
fn parsed_json_keeps_numbers_as_text() {
    match parse_json(br#"{"n": 1.5, "s": "t", "b": true, "z": null, "a": [2]}"#) {
        Some(v) => {
            assert_eq!(string_member(&v, "s"), Some("t".to_string()));
            assert_eq!(string_member(&v, "n"), None);
            match &v {
                JsonValue::Object(ms) => {
                    assert!(ms.iter().any(|(k, x)| k == "n" && matches!(x, JsonValue::Number(t) if t == "1.5")));
                    assert!(ms.iter().any(|(k, x)| k == "b" && matches!(x, JsonValue::Bool(true))));
                    assert!(ms.iter().any(|(k, x)| k == "z" && matches!(x, JsonValue::Null)));
                    assert!(ms.iter().any(|(k, x)| k == "a" && matches!(x, JsonValue::Array(a) if a.len() == 1)));
                }
                _ => panic!("an object"),
            }
        }
        None => panic!("valid JSON"),
    }
    assert!(parse_json(b"{").is_none());
}

#[test]
fn ready_notices_name_the_awaited_key() {
    assert!(matches!(ready_notice(r#"{"code":"600000","data_type":"info"}"#), ReadyNotice::Wake(k) if k == "detail:600000"));
    assert!(matches!(ready_notice(r#"{"code":"1","data_type":"financial","report_type":"q1"}"#), ReadyNotice::Wake(k) if k == "financial:1:q1"));
    assert!(matches!(ready_notice(r#"{"code":"1","data_type":"financial"}"#), ReadyNotice::Wake(k) if k == "financial:1:annual"));
    assert!(matches!(ready_notice(r#"{"code":"1","data_type":"other"}"#), ReadyNotice::UnknownKind(k) if k == "other"));
    assert!(matches!(ready_notice(r#"{"code":1,"data_type":"info"}"#), ReadyNotice::Ignored));
    assert!(matches!(ready_notice("not json"), ReadyNotice::Ignored));
}
