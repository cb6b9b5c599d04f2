use anthropic_proxy::config::{Config, EffortMap};

#[test]
fn effort_map_global_tiers_pick_by_budget() {
    let map = EffortMap::parse("low:2048,medium:8192,high:16384");
    assert_eq!(map.resolve("any", 500).as_deref(), Some("low"));
    assert_eq!(map.resolve("any", 2048).as_deref(), Some("low"));
    assert_eq!(map.resolve("any", 4000).as_deref(), Some("medium"));
    assert_eq!(map.resolve("any", 10000).as_deref(), Some("high"));
    // Above the top tier (and beyond the 16K clamp) → highest tier.
    assert_eq!(map.resolve("any", 31999).as_deref(), Some("high"));
}

#[test]
fn effort_map_per_model_override_wins() {
    let map =
        EffortMap::parse("low:2048,medium:8192,high:16384;haiku-3-5=low:512,high:16384");
    // Override model: 1000 > 512 → next tier (high).
    assert_eq!(
        map.resolve("haiku-3-5", 1000).as_deref(),
        Some("high")
    );
    // Unlisted model falls back to the global tiers.
    assert_eq!(map.resolve("opus-4-7", 1000).as_deref(), Some("low"));
}

#[test]
fn effort_map_passes_labels_through_verbatim() {
    // Labels are forwarded as-is (lowercased); the upstream validates/defaults them.
    let map = EffortMap::parse("ULTRA:2048,high:16384");
    assert_eq!(map.resolve("any", 1000).as_deref(), Some("ultra"));
}

#[test]
fn effort_map_empty_when_unset() {
    assert!(EffortMap::default().is_empty());
    assert_eq!(EffortMap::default().resolve("any", 5000), None);
}

#[test]
fn base_url_without_version_defaults_to_v1_endpoint() {
    let url = Config::resolve_chat_completions_url("https://api.openai.com").unwrap();
    assert_eq!(url, "https://api.openai.com/v1/chat/completions");
}

#[test]
fn versioned_base_url_preserves_existing_version() {
    let url = Config::resolve_chat_completions_url("https://gateway.example.com/v2").unwrap();
    assert_eq!(url, "https://gateway.example.com/v2/chat/completions");
}

#[test]
fn full_chat_completions_endpoint_is_used_as_is() {
    let url = Config::resolve_chat_completions_url(
        "https://gateway.example.com/v2/chat/completions/",
    )
    .unwrap();
    assert_eq!(url, "https://gateway.example.com/v2/chat/completions");
}

#[test]
fn models_url_without_version_defaults_to_v1_endpoint() {
    let url = Config::resolve_models_url("https://api.openai.com").unwrap();
    assert_eq!(url, "https://api.openai.com/v1/models");
}

#[test]
fn versioned_models_url_preserves_existing_version() {
    let url = Config::resolve_models_url("https://gateway.example.com/v2").unwrap();
    assert_eq!(url, "https://gateway.example.com/v2/models");
}

#[test]
fn full_chat_completions_endpoint_resolves_models_url() {
    let url =
        Config::resolve_models_url("https://gateway.example.com/v2/chat/completions").unwrap();
    assert_eq!(url, "https://gateway.example.com/v2/models");
}

#[test]
fn partial_chat_path_is_rejected() {
    let err = Config::resolve_chat_completions_url("https://gateway.example.com/v2/chat")
        .unwrap_err();
    assert!(err.message().contains("service base URL, a versioned base URL"));
}

#[test]
fn query_strings_are_rejected() {
    let err = Config::resolve_chat_completions_url("https://gateway.example.com/v2?foo=bar")
        .unwrap_err();
    assert!(err.message().contains("must not include query parameters or fragments"));
}

#[test]
fn fragments_are_rejected() {
    let err = Config::resolve_chat_completions_url("https://gateway.example.com/v2#section")
        .unwrap_err();
    assert!(err.message().contains("must not include query parameters or fragments"));
}

#[test]
fn empty_url_is_rejected() {
    let err = Config::resolve_chat_completions_url("").unwrap_err();
    assert!(err.message().contains("must not be empty"));
}

#[test]
fn non_http_scheme_is_rejected() {
    let err = Config::resolve_chat_completions_url("ftp://gateway.example.com").unwrap_err();
    assert!(err.message().contains("must use http or https"));
}

#[test]
fn explicit_v1_is_preserved_not_doubled() {
    let url = Config::resolve_chat_completions_url("https://openrouter.ai/api/v1").unwrap();
    assert_eq!(url, "https://openrouter.ai/api/v1/chat/completions");
}

#[test]
fn trailing_slash_on_base_url_is_normalized() {
    let url = Config::resolve_chat_completions_url("https://api.openai.com/").unwrap();
    assert_eq!(url, "https://api.openai.com/v1/chat/completions");
}

#[test]
fn models_url_from_explicit_v1() {
    let url = Config::resolve_models_url("https://openrouter.ai/api/v1").unwrap();
    assert_eq!(url, "https://openrouter.ai/api/v1/models");
}

#[test]
fn models_url_with_trailing_slash() {
    let url = Config::resolve_models_url("https://api.openai.com/").unwrap();
    assert_eq!(url, "https://api.openai.com/v1/models");
}

#[test]
fn url_with_subpath_and_no_version_defaults_to_v1() {
    let url = Config::resolve_chat_completions_url("https://openrouter.ai/api").unwrap();
    assert_eq!(url, "https://openrouter.ai/api/v1/chat/completions");
}

#[test]
fn only_completions_path_is_rejected() {
    let err =
        Config::resolve_chat_completions_url("https://gateway.example.com/v2/completions")
            .unwrap_err();
    assert!(err.message().contains("service base URL, a versioned base URL"));
}

#[test]
fn uppercase_version_prefix_is_accepted() {
    let url = Config::resolve_chat_completions_url("https://gateway.example.com/V2").unwrap();
    assert_eq!(url, "https://gateway.example.com/V2/chat/completions");
}

#[test]
fn parse_system_prompt_ignore_terms_supports_semicolons_and_newlines() {
    let terms =
        Config::parse_system_prompt_ignore_terms("rm -rf;git reset --hard\nsudo rm -rf");

    assert_eq!(
        terms,
        vec![
            "rm -rf".to_string(),
            "git reset --hard".to_string(),
            "sudo rm -rf".to_string()
        ]
    );
}

#[test]
fn dedupe_ignore_terms_normalizes_case_and_whitespace() {
    let mut terms = vec![
        "rm -rf".to_string(),
        " RM\t-rF ".to_string(),
        "git reset --hard".to_string(),
    ];

    Config::dedupe_ignore_terms(&mut terms);

    assert_eq!(
        terms,
        vec!["rm -rf".to_string(), "git reset --hard".to_string()]
    );
}

#[test]
fn parse_model_map_supports_semicolons_and_newlines() {
    let model_map = Config::parse_model_map(
        "3-5-sonnet=openai/gpt-5.2-chat\nhaiku=openai/gpt-4.1-mini",
    )
    .unwrap();

    assert_eq!(
        model_map.get("3-5-sonnet"),
        Some(&"openai/gpt-5.2-chat".to_string())
    );
    assert_eq!(
        model_map.get("haiku"),
        Some(&"openai/gpt-4.1-mini".to_string())
    );
}

#[test]
fn parse_model_map_rejects_invalid_entries() {
    let err = Config::parse_model_map("3-5-sonnet").unwrap_err();

    assert!(err.message().contains("Expected source=target"));
}

#[test]
fn parse_upstream_urls_splits_on_semicolons() {
    let urls = Config::parse_upstream_urls("https://openrouter.ai/api;https://api.openai.com")
        .unwrap();

    assert_eq!(urls.len(), 2);
    assert_eq!(urls[0], "https://openrouter.ai/api");
    assert_eq!(urls[1], "https://api.openai.com");
}

#[test]
fn parse_upstream_urls_single_url_still_works() {
    let urls = Config::parse_upstream_urls("https://api.openai.com").unwrap();
    assert_eq!(urls.len(), 1);
}

#[test]
fn parse_upstream_urls_rejects_empty() {
    let err = Config::parse_upstream_urls("").unwrap_err();
    assert!(err.message().contains("must not be empty"));
}

#[test]
fn parse_upstream_urls_validates_each_url() {
    let err = Config::parse_upstream_urls("https://api.openai.com;not-a-url").unwrap_err();
    assert!(err.message().contains("valid http"));
}

#[test]
fn chat_completions_urls_resolves_all() {
    let config = Config {
        upstream_urls: vec![
            "https://openrouter.ai/api".to_string(),
            "https://api.openai.com".to_string(),
        ],
        ..Default::default()
    };

    let urls = config.chat_completions_urls();
    assert_eq!(urls.len(), 2);
    assert_eq!(urls[0], "https://openrouter.ai/api/v1/chat/completions");
    assert_eq!(urls[1], "https://api.openai.com/v1/chat/completions");
}

#[test]
fn passthrough_api_key_defaults_to_false() {
    let config = Config::default();
    assert!(!config.passthrough_api_key);
}

#[test]
fn passthrough_disabled_with_static_key_works() {
    let config = Config {
        api_key: Some("sk-test".to_string()),
        passthrough_api_key: false,
        ..Default::default()
    };
    assert!(!config.passthrough_api_key);
    assert_eq!(config.api_key, Some("sk-test".to_string()));
}

#[test]
fn passthrough_enabled_with_no_static_key() {
    let config = Config {
        api_key: None,
        passthrough_api_key: true,
        ..Default::default()
    };
    assert!(config.passthrough_api_key);
    assert!(config.api_key.is_none());
}

#[test]
fn bind_defaults_to_zero_zero_zero_zero() {
    let config = Config::default();
    assert_eq!(config.bind, "0.0.0.0");
}

#[test]
fn bind_accepts_loopback() {
    let config = Config {
        bind: "127.0.0.1".to_string(),
        ..Default::default()
    };
    assert_eq!(config.bind, "127.0.0.1");
}
