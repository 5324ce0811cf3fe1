use opai::errors::OpaiError;
use opai::service_config::{
    api_key_variable, candidate_files, config_dir_name, config_file_name, find_service_config,
    load_service_config, select_service_config, service_name, Candidate, ServiceConfig,
};

const DEFAULT_URL: &str = "https://api.openai.com/v1/chat/completions";

fn text(s: &str) -> Option<String> {
    Some(s.to_string())
}

fn config(api_key: &str, chat_url: &str) -> ServiceConfig {
    ServiceConfig { api_key: api_key.to_string(), chat_url: chat_url.to_string() }
}

#[test]
fn env_fallback_uses_default_url() {
    let sources: Vec<Option<String>> = vec![None, None];
    let found = find_service_config(&sources, None, text("sk-env")).unwrap();
    assert_eq!(found, config("sk-env", DEFAULT_URL));
}

#[test]
fn env_fallback_without_any_source() {
    let sources: Vec<Option<String>> = Vec::new();
    let found = find_service_config(&sources, None, text("sk-env")).unwrap();
    assert_eq!(found, config("sk-env", DEFAULT_URL));
}

#[test]
fn nothing_found_without_key_anywhere() {
    let sources = vec![None, text("[openai]\nchat_url = http://a\n"), text("[other]\napi_key = k\n")];
    assert_eq!(find_service_config(&sources, None, None), None);
}

#[test]
fn first_source_with_key_wins() {
    let sources = vec![
        None,
        text("not an ini ["),
        text("[openai]\nchat_url = http://a\n"),
        text("[openai]\napi_key = k1\nchat_url = http://b\n"),
        text("[openai]\napi_key = k2\nchat_url = http://c\n"),
    ];
    let found = find_service_config(&sources, None, text("sk-env")).unwrap();
    assert_eq!(found, config("k1", "http://b"));
}

#[test]
fn explicit_source_beats_later_ones() {
    let sources = vec![
        text("[openai]\napi_key = first\nchat_url = http://first\n"),
        text("[openai]\napi_key = second\nchat_url = http://second\n"),
    ];
    let found = find_service_config(&sources, None, None).unwrap();
    assert_eq!(found, config("first", "http://first"));
}

#[test]
fn unparsable_source_is_skipped() {
    let sources = vec![text("[openai\napi_key = broken"), text("[openai]\napi_key = good\n")];
    let found = find_service_config(&sources, None, None).unwrap();
    assert_eq!(found, config("good", ""));
}

#[test]
fn key_without_url_is_returned_with_empty_url() {
    let sources = vec![
        text("[openai]\napi_key = only-key\n"),
        text("[openai]\napi_key = other\nchat_url = http://other\n"),
    ];
    let found = find_service_config(&sources, None, text("sk-env")).unwrap();
    assert_eq!(found, config("only-key", ""));
    assert!(found.has_key());
    assert!(!found.has_endpoint());
}

#[test]
fn empty_key_does_not_count() {
    let sources = vec![
        text("[openai]\napi_key =\nchat_url = http://a\n"),
        text("[openai]\napi_key = real\nchat_url = http://b\n"),
    ];
    let found = find_service_config(&sources, None, None).unwrap();
    assert_eq!(found, config("real", "http://b"));
}

#[test]
fn named_service_selects_its_section() {
    let sources = vec![text(
        "[openai]\napi_key = a\nchat_url = http://a\n[perplexity]\napi_key = p\nchat_url = http://p\n",
    )];
    let found = find_service_config(&sources, text("perplexity"), None).unwrap();
    assert_eq!(found, config("p", "http://p"));
    let found = find_service_config(&sources, None, None).unwrap();
    assert_eq!(found, config("a", "http://a"));
}

#[test]
fn missing_section_falls_through_to_env() {
    let sources = vec![text("[openai]\napi_key = a\nchat_url = http://a\n")];
    let found = find_service_config(&sources, text("elsewhere"), text("sk-env")).unwrap();
    assert_eq!(found, config("sk-env", DEFAULT_URL));
}

#[test]
fn service_name_defaults_to_openai() {
    assert_eq!(service_name(None), "openai");
    assert_eq!(service_name(text("perplexity")), "perplexity");
    assert_eq!(service_name(text("")), "");
}

#[test]
fn load_reads_both_entries() {
    let loaded = load_service_config("[openai]\napi_key = k\nchat_url = http://u\n", "openai");
    assert_eq!(loaded, Ok(config("k", "http://u")));
}

#[test]
fn load_leaves_absent_entries_empty() {
    assert_eq!(load_service_config("", "openai"), Ok(config("", "")));
    assert_eq!(load_service_config("[openai]\napi_key = k\n", "openai"), Ok(config("k", "")));
    assert_eq!(load_service_config("[openai]\nchat_url = http://u\n", "openai"), Ok(config("", "http://u")));
    assert_eq!(load_service_config("[other]\napi_key = k\n", "openai"), Ok(config("", "")));
}

#[test]
fn load_does_not_hand_back_its_text() {
    let text = "[openai]\napi_key = k\nchat_url = http://u\n";
    let loaded = load_service_config(text, "openai").unwrap();
    assert_ne!(loaded.api_key, text);
    assert_ne!(loaded.chat_url, text);
    assert_ne!(loaded.api_key, "openai");
}

#[test]
fn load_takes_the_first_value_of_a_key() {
    let loaded = load_service_config("[openai]\napi_key = one\napi_key = two\n", "openai");
    assert_eq!(loaded, Ok(config("one", "")));
}

#[test]
fn load_reports_text_that_is_no_document() {
    match load_service_config("[openai\napi_key = k", "openai") {
        Err(OpaiError::Config(detail)) => assert!(!detail.is_empty()),
        other => panic!("expected a configuration error, got {:?}", other),
    }
    assert!(matches!(load_service_config("= value\n", "openai"), Err(OpaiError::Config(_))));
}

#[test]
fn select_takes_first_loaded_key() {
    let loaded = vec![None, Some(config("", "http://a")), Some(config("k", "http://b")), Some(config("z", "http://c"))];
    assert_eq!(select_service_config(&loaded, text("sk-env")), Some(config("k", "http://b")));
}

#[test]
fn select_falls_back_to_env() {
    let loaded = vec![None, Some(config("", "http://a"))];
    assert_eq!(select_service_config(&loaded, text("sk-env")), Some(config("sk-env", DEFAULT_URL)));
    assert_eq!(select_service_config(&loaded, text("")), Some(config("", DEFAULT_URL)));
    assert_eq!(select_service_config(&loaded, None), None);
    assert_eq!(select_service_config(&Vec::new(), None), None);
}

#[test]
fn from_entries_fills_absent_with_empty() {
    assert_eq!(ServiceConfig::from_entries(None, None), config("", ""));
    assert_eq!(ServiceConfig::from_entries(text("k"), None), config("k", ""));
    assert_eq!(ServiceConfig::from_entries(None, text("u")), config("", "u"));
    assert_eq!(ServiceConfig::from_entries(text("k"), text("u")), config("k", "u"));
}

#[test]
fn candidates_come_in_priority_order() {
    let found = candidate_files(text("/tmp/mine.ini"), text("/home/me"), text("/work"));
    assert_eq!(
        found,
        vec![
            Candidate::Given("/tmp/mine.ini".to_string()),
            Candidate::PerUser("/home/me".to_string()),
            Candidate::Local("/work".to_string()),
        ]
    );
}

#[test]
fn candidates_leave_out_what_is_unknown() {
    assert_eq!(candidate_files(None, None, None), Vec::<Candidate>::new());
    assert_eq!(candidate_files(None, text(""), text("/work")), vec![Candidate::Local("/work".to_string())]);
    assert_eq!(candidate_files(None, text("/home/me"), None), vec![Candidate::PerUser("/home/me".to_string())]);
    assert_eq!(candidate_files(text(""), None, None), vec![Candidate::Given(String::new())]);
}

#[test]
fn well_known_names() {
    assert_eq!(config_file_name(), "openai.ini");
    assert_eq!(config_dir_name(), ".config");
    assert_eq!(api_key_variable(), "OPENAI_API_KEY");
}
