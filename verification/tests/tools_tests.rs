use seesea::cli::{
    content_preview, engines_label, interactive_command, mode_label, more_results_note, search_plan, shown_count,
    CliCommand, InteractiveState, SearchMode,
};
use seesea::text::{join_strs, parse_i32, parse_u64, replace_all, split_str, trim};
use seesea::tf::{check_dimension, content_hash, document_metadata, plan_document_update, to_hex, DefaultEmbedder, PyErrorKind, TFError};

#[test]
fn content_hash_is_sha256_of_the_three_fields() {
    assert_eq!(content_hash("a", "b", "c"), "ba7816bf8f01cfea414140de5dae2223b00361a396177a9cb410ff61f20015ad");
    assert_eq!(content_hash("", "", ""), "e3b0c44298fc1c149afbf4c8996fb92427ae41e4649b934ca495991b7852b855");
    assert_eq!(to_hex(&vec![0, 15, 16, 255]), "000f10ff");
}

#[test]
fn document_metadata_keeps_title_url_summary_and_hash() {
    let m = document_metadata("a", "b", None);
    assert_eq!(m.len(), 4);
    assert_eq!(m[0], ("title".to_string(), "a".to_string()));
    assert_eq!(m[1], ("url".to_string(), "b".to_string()));
    assert_eq!(m[2], ("summary".to_string(), String::new()));
    assert_eq!(m[3].1, content_hash("a", "b", ""));
    assert_eq!(document_metadata("a", "b", Some("c"))[3].1, content_hash("a", "b", "c"));
}

#[test]
fn vector_store_errors_carry_codes() {
    assert_eq!(
        TFError::VectorDimensionMismatch { expected: 768, actual: 3 }.to_string(),
        "3000: Vector dimension mismatch. Expected 768, got 3"
    );
    assert_eq!(TFError::LockError.to_string(), "3001: Lock error");
    assert_eq!(TFError::DocumentNotFound("x".to_string()).to_string(), "3005: Document not found: x");
    assert_eq!(TFError::GenericError("boom".to_string()).to_string(), "3010: Generic error: boom");
    assert_eq!(TFError::DocumentNotFound("x".to_string()).python_kind(), PyErrorKind::KeyError);
    assert_eq!(TFError::InvalidParameter("x".to_string()).python_kind(), PyErrorKind::ValueError);
    assert_eq!(TFError::WriteLockError.python_kind(), PyErrorKind::RuntimeError);
    assert!(check_dimension(3, 3).is_ok());
    assert!(matches!(check_dimension(3, 4), Err(TFError::VectorDimensionMismatch { expected: 3, actual: 4 })));
}

#[test]
fn default_embedder_has_a_dimension_and_no_model() {
    let e = DefaultEmbedder::new(768);
    assert_eq!(e.dimension(), 768);
    assert_eq!(
        e.embedding_unavailable("text").to_string(),
        "3008: Invalid parameter: DefaultEmbedder does not implement actual embedding logic"
    );
}

#[test]
fn text_helpers_follow_std() {
    assert_eq!(trim("  a b \t\n"), "a b");
    assert_eq!(trim("\u{3000}x\u{2003}"), "x");
    assert_eq!(trim("   "), "");
    assert_eq!(split_str("a,,b", ','), vec!["a".to_string(), "".to_string(), "b".to_string()]);
    assert_eq!(split_str("", ','), vec!["".to_string()]);
    assert_eq!(join_strs(&vec!["a".to_string(), "b".to_string()], ", "), "a, b");
    assert_eq!(parse_i32("-2147483648"), Some(i32::MIN));
    assert_eq!(parse_i32("2147483648"), None);
    assert_eq!(parse_i32("+7"), Some(7));
    assert_eq!(parse_i32("-"), None);
    assert_eq!(parse_u64("18446744073709551615"), Some(u64::MAX));
    assert_eq!(parse_u64("18446744073709551616"), None);
}

#[test]
fn searches_use_the_engines_named() {
    let (mode, engines) = search_plan(false, Some(" bing, google ,"));
    assert_eq!(engines, vec!["bing".to_string(), "google".to_string(), "".to_string()]);
    assert!(matches!(mode, SearchMode::Custom(v) if v.len() == 3));
    let (mode, engines) = search_plan(true, Some("bing"));
    assert!(matches!(mode, SearchMode::Global));
    assert!(engines.is_empty());
    assert!(matches!(search_plan(false, None).0, SearchMode::Global));
    assert_eq!(mode_label(&SearchMode::Global), "全局模式（所有引擎）");
    let global = vec!["a".to_string(), "b".to_string()];
    assert_eq!(engines_label(&SearchMode::Global, &vec![], &global), "a, b");
    assert_eq!(engines_label(&SearchMode::Custom(vec![]), &vec![], &global), "默认引擎");
    assert_eq!(engines_label(&SearchMode::Global, &vec!["x".to_string()], &global), "x");
}

#[test]
fn results_shown_and_summaries_cut() {
    assert_eq!(shown_count(100, false), 20);
    assert_eq!(shown_count(100, true), 50);
    assert_eq!(shown_count(7, true), 7);
    assert_eq!(more_results_note(30, 20), "... 还有 10 个结果（使用 --verbose 查看更多）");
    assert_eq!(content_preview("short"), "short");
    let long = "a".repeat(250);
    assert_eq!(content_preview(&long), format!("{}...", "a".repeat(200)));
    let wide = "界".repeat(100);
    let cut = content_preview(&wide);
    assert_eq!(cut, format!("{}...", "界".repeat(66)));
    let exact = "a".repeat(200);
    assert_eq!(content_preview(&exact), exact);
}

#[test]
fn interactive_lines_become_commands() {
    assert!(matches!(interactive_command("   "), CliCommand::Skip));
    assert!(matches!(interactive_command(" QUIT "), CliCommand::Quit));
    assert!(matches!(interactive_command("exit"), CliCommand::Quit));
    assert!(matches!(interactive_command("Engines"), CliCommand::ListEngines));
    assert!(matches!(interactive_command("stats"), CliCommand::ShowStats));
    assert!(matches!(interactive_command("mode"), CliCommand::ChooseMode));
    assert!(matches!(interactive_command("  Rust Lang "), CliCommand::Search(q) if q == "Rust Lang"));
}

#[test]
fn interactive_mode_switches() {
    let mut state = InteractiveState::new();
    assert!(matches!(state.search_args(), (true, None)));
    state.engines = vec!["bing".to_string(), "yandex".to_string()];
    assert!(state.choose_mode(" 2\n"));
    assert!(matches!(state.search_args(), (false, Some(s)) if s == "bing,yandex"));
    assert!(!state.choose_mode("3"));
    assert!(matches!(state.mode, SearchMode::Custom(_)));
    assert!(state.choose_mode("1"));
    assert!(matches!(state.mode, SearchMode::Global));
    assert!(state.engines.is_empty());
}

#[test]
fn replace_all_replaces_every_match_left_to_right() {
    assert_eq!(replace_all("a-b-c", "-", "+"), "a+b+c");
    assert_eq!(replace_all("aaa", "aa", "b"), "ba");
    assert_eq!(replace_all("abc", "x", "y"), "abc");
    assert_eq!(replace_all("", "x", "y"), "");
    assert_eq!(replace_all("héllo", "é", "e"), "hello");
}

#[test]
fn document_update_merges_fields_and_skips_no_change() {
    let hash = content_hash("t", "http://a", "s");
    assert!(plan_document_update("t", "http://a", "s", &hash, None, None, None).is_none());
    assert!(plan_document_update("t", "http://a", "s", &hash, Some("t"), Some("http://a"), None).is_none());
    let d = plan_document_update("t", "http://a", "s", &hash, Some("t2"), None, None).unwrap();
    assert_eq!(d.title, "t2");
    assert_eq!(d.url, "http://a");
    assert_eq!(d.summary, "s");
    assert_eq!(d.hash, content_hash("t2", "http://a", "s"));
    assert!(!d.url_changed);
    let d = plan_document_update("t", "http://a", "s", &hash, None, Some("http://b"), None).unwrap();
    assert!(d.url_changed);
    assert_eq!(d.hash, content_hash("t", "http://b", "s"));
}
