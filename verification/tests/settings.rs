use anthropic_proxy::config::settings::{SkillsConfig, SkillsVars};
use anthropic_proxy::config::urls::{chat_endpoint, models_endpoint};
use anthropic_proxy::config::{Config, ConfigError, ConfigVars, EffortMap, Overrides};
use anthropic_proxy::skills::switches::{keeps_facts, learns, merges, researches, shows_docs};

fn unset() -> SkillsVars {
    SkillsVars {
        enabled: None,
        qdrant_url: None,
        collection: None,
        facts_collection: None,
        embed_url: None,
        embed_model: None,
        top_k: None,
        min_score: None,
        inject_tiers: None,
        learn: None,
        llm_model: None,
        api_key: None,
        retention_days: None,
        llm_url: None,
        verify_interval_secs: None,
        soak_secs: None,
        verify_backoff_secs: None,
        curate_interval_secs: None,
        proactive: None,
        facts: None,
        proactive_interval_secs: None,
        facts_validity_interval_secs: None,
        eventlog_path: None,
        eventlog_retention_days: None,
        tools: None,
        docs_mcp_url: None,
        docs_inject: None,
        reflect: None,
        reflect_interval_secs: None,
        openrouter_key: None,
    }
}

fn vars() -> ConfigVars {
    ConfigVars {
        port: None,
        bind: None,
        upstream_base_url: Some("https://api.example.com".to_string()),
        base_url: None,
        upstream_api_key: None,
        openrouter_api_key: None,
        model_map: None,
        effort_map: None,
        system_prompt_ignore_terms: None,
        reasoning_model: None,
        completion_model: None,
        debug: None,
        verbose: None,
        passthrough: None,
        log_requests: None,
        upstream_tokenize: None,
        heartbeat_secs: None,
        websearch_url: None,
        websearch_model: None,
        searxng_url: None,
        skills: unset(),
    }
}

fn some(text: &str) -> Option<String> {
    Some(text.to_string())
}

#[test]
fn unset_variables_leave_the_defaults() {
    let config = Config::from_vars(&vars()).unwrap();
    assert_eq!(config.port, 3000);
    assert_eq!(config.bind, "0.0.0.0");
    assert_eq!(config.upstream_urls, ["https://api.example.com"]);
    assert_eq!(config.heartbeat_secs, 15);
    assert_eq!(config.websearch_url, "http://localhost:3100/mcp");
    assert_eq!(config.log_filter(), "anthropic_proxy=INFO");
    assert_eq!(config.address(), "0.0.0.0:3000");
    assert!(config.is_exposed());
    assert!(config.effort_map.is_empty());
    assert!(!config.skills.enabled);
    assert_eq!(config.skills.inject_tiers, ["verified", "trusted"]);
}

#[test]
fn set_variables_are_read() {
    let config = Config::from_vars(&ConfigVars {
        port: some("8080"),
        bind: some(" 127.0.0.1 "),
        upstream_api_key: some("sk-1"),
        openrouter_api_key: some("sk-2"),
        model_map: some("a=b"),
        effort_map: some("low:1000"),
        system_prompt_ignore_terms: some("rm -rf; RM  -RF ;sudo"),
        debug: some("TRUE"),
        verbose: some("yes"),
        heartbeat_secs: some("0"),
        searxng_url: some("http://searx:8080//"),
        skills: SkillsVars {
            enabled: some("1"),
            top_k: some("x"),
            inject_tiers: some("trusted, ,candidate"),
            embed_model: some(" m "),
            reflect: some("True"),
            reflect_interval_secs: some("90"),
            openrouter_key: some(" k "),
            ..unset()
        },
        ..vars()
    })
    .unwrap();
    assert_eq!(config.port, 8080);
    assert_eq!(config.bind, "127.0.0.1");
    assert_eq!(config.api_key.as_deref(), Some("sk-1"));
    assert_eq!(config.model_map.get("a"), Some(&"b".to_string()));
    assert_eq!(config.effort_map.resolve("any", 1).as_deref(), Some("low"));
    assert_eq!(config.system_prompt_ignore_terms, ["rm -rf", "sudo"]);
    assert!(config.debug);
    assert!(!config.verbose);
    assert_eq!(config.heartbeat_secs, 0);
    assert_eq!(config.searxng_url.as_deref(), Some("http://searx:8080"));
    assert_eq!(config.log_filter(), "anthropic_proxy=DEBUG");
    assert!(!config.is_exposed());
    assert!(config.skills.enabled);
    assert_eq!(config.skills.top_k, 3);
    assert_eq!(config.skills.inject_tiers, ["trusted"]);
    assert_eq!(config.skills.embed_model, "m");
    assert!(config.skills.reflect);
    assert_eq!(config.skills.reflect_interval_secs, 90);
    assert_eq!(config.skills.openrouter_key.as_deref(), Some("k"));
}

fn error_of(vars: ConfigVars) -> ConfigError {
    Config::from_vars(&vars).unwrap_err()
}

#[test]
fn every_configuration_error_is_reported() {
    let missing = error_of(ConfigVars {
        upstream_base_url: None,
        ..vars()
    });
    assert!(missing.message().starts_with("UPSTREAM_BASE_URL is required"));
    let of_url = |url: &str| {
        error_of(ConfigVars {
            upstream_base_url: some(url),
            ..vars()
        })
    };
    assert!(matches!(of_url(" ; "), ConfigError::UrlEmpty));
    assert!(matches!(of_url("nowhere"), ConfigError::UrlInvalid(_)));
    assert!(matches!(of_url("ftp://x.org"), ConfigError::UrlScheme));
    assert!(matches!(of_url("http://x.org/?a"), ConfigError::UrlQuery));
    assert!(matches!(of_url("http://x.org/chat"), ConfigError::UrlPartial));
    let of_map = |map: &str| {
        error_of(ConfigVars {
            model_map: some(map),
            ..vars()
        })
    };
    match of_map("a=b;c") {
        ConfigError::ModelMapEntry(entry) => assert_eq!(entry, "c"),
        other => panic!("{other:?}"),
    }
    match of_map("a= ") {
        ConfigError::ModelMapEmpty(entry) => assert_eq!(entry, "a="),
        other => panic!("{other:?}"),
    }
    let conflict = error_of(ConfigVars {
        upstream_api_key: some("sk"),
        passthrough: some("1"),
        ..vars()
    });
    assert!(matches!(conflict, ConfigError::KeyConflict));
}

#[test]
fn the_url_parser_is_asked() {
    // The parser lowers the case of schemes; the base itself stays as it was written.
    let url = Config::resolve_chat_completions_url("HTTPS://API.Example.com:443/").unwrap();
    assert_eq!(url, "HTTPS://API.Example.com:443/v1/chat/completions");
    match Config::resolve_chat_completions_url("http://") {
        Err(ConfigError::UrlInvalid(reason)) => assert_eq!(reason, "empty host"),
        other => panic!("{other:?}"),
    }
}

#[test]
fn the_command_line_goes_first() {
    let mut config = Config::from_vars(&vars()).unwrap();
    config.apply(&Overrides {
        debug: false,
        verbose: true,
        port: Some(99),
        bind: some("  "),
        system_prompt_ignore: vec!["a".to_string(), " A ".to_string(), " ".to_string()],
    });
    assert_eq!(config.port, 99);
    assert_eq!(config.bind, "0.0.0.0");
    assert_eq!(config.system_prompt_ignore_terms, ["a"]);
    assert_eq!(config.log_filter(), "anthropic_proxy=TRACE");
}

#[test]
fn all_endpoints_follow_the_upstreams() {
    let config = Config {
        upstream_urls: vec![
            "https://a.org/api".to_string(),
            "https://b.org/v2/chat/completions".to_string(),
        ],
        ..Default::default()
    };
    assert_eq!(
        config.models_urls(),
        ["https://a.org/api/v1/models", "https://b.org/v2/models"]
    );
    assert_eq!(
        config.tokenize_urls(),
        ["https://a.org/api/v1/tokenize", "https://b.org/v2/tokenize"]
    );
    assert_eq!(
        config.embeddings_urls(),
        ["https://a.org/api/v1/embeddings", "https://b.org/v2/embeddings"]
    );
    assert_eq!(
        config.skills_embed_url().as_deref(),
        Some("https://a.org/api/v1/embeddings")
    );
    let all = config.endpoints().unwrap();
    assert_eq!(all.chat, config.chat_completions_urls());
    let broken = Config {
        upstream_urls: vec!["x".to_string()],
        ..Default::default()
    };
    assert!(matches!(broken.endpoints(), Err(ConfigError::UrlInvalid(_))));
}

#[test]
fn endpoints_are_made_of_the_path() {
    let path = |parts: &[&str]| parts.iter().map(|p| p.to_string()).collect::<Vec<String>>();
    assert_eq!(
        chat_endpoint("http://x.org/v3", &path(&["v3"])).unwrap(),
        "http://x.org/v3/chat/completions"
    );
    assert_eq!(
        models_endpoint("http://x.org", &path(&[])).unwrap(),
        "http://x.org/v1/models"
    );
    assert!(chat_endpoint("http://x.org/chat", &path(&["chat"])).is_err());
}

#[test]
fn model_maps_keep_the_last_target() {
    let map = Config::parse_model_map("a=b; a = c ;").unwrap();
    assert_eq!(map.len(), 1);
    assert_eq!(map.get("a"), Some(&"c".to_string()));
}

#[test]
fn more_budget_is_no_less_effort() {
    let map = EffortMap::parse("high:16384,low:2048,medium:8192");
    let rank = |effort: Option<String>| match effort.as_deref() {
        Some("low") => 1,
        Some("medium") => 2,
        Some("high") => 3,
        _ => 0,
    };
    let mut last = 0;
    for budget in (0..40_000).step_by(97) {
        let now = rank(map.resolve("any", budget));
        assert!(now >= last);
        last = now;
    }
    assert_eq!(last, 3);
}

#[test]
fn tiers_can_be_listed_in_any_order() {
    let one = EffortMap::parse("high:16384,low:2048,medium:8192");
    let other = EffortMap::parse("low:2048,medium:8192,high:16384");
    for budget in [0, 2048, 2049, 8192, 8193, 16384, 31999] {
        assert_eq!(one.resolve("any", budget), other.resolve("any", budget));
    }
    assert_eq!(one.resolve("any", 2049).as_deref(), Some("medium"));
}

#[test]
fn broken_tiers_are_left_out() {
    let map = EffortMap::parse("low:abc,high:100,medium; =x:1");
    assert_eq!(map.resolve("any", 1).as_deref(), Some("high"));
    assert!(EffortMap::parse("nothing").is_empty());
}

#[test]
fn distinct_terms_stay_in_order() {
    let mut terms = vec!["b".to_string(), "a".to_string(), "B ".to_string()];
    Config::dedupe_ignore_terms(&mut terms);
    assert_eq!(terms, ["b", "a"]);
}

#[test]
fn default_settings_are_off() {
    let skills = SkillsConfig::default();
    assert!(!skills.enabled);
    assert!(!skills.learn);
    assert_eq!(skills.qdrant_url, "http://qdrant:6333");
    assert_eq!(skills.soak_secs, 1_209_600);
    assert!(!skills.reflect);
    assert_eq!(skills.reflect_interval_secs, 600);
    assert!(skills.openrouter_key.is_none());
    let read = SkillsConfig::from_vars(&unset());
    assert_eq!(format!("{skills:?}"), format!("{read:?}"));
}

#[test]
fn candidates_are_never_injected() {
    let tiers = |text: &str| {
        let vars = SkillsVars {
            inject_tiers: some(text),
            ..unset()
        };
        SkillsConfig::from_vars(&vars).inject_tiers
    };
    assert_eq!(tiers("candidate"), ["verified", "trusted"]);
    assert_eq!(tiers("candidate,verified"), ["verified"]);
    assert_eq!(tiers("gold , verified"), ["gold", "verified"]);
}

#[test]
fn one_switch_is_above_all_others() {
    let mut skills = SkillsConfig::default();
    skills.learn = true;
    skills.proactive = true;
    skills.reflect = true;
    skills.facts = true;
    skills.docs_inject = true;
    let on = |s: &SkillsConfig| {
        [learns(s), researches(s), merges(s), keeps_facts(s), shows_docs(s)]
    };
    assert_eq!(on(&skills), [false; 5]);
    skills.enabled = true;
    assert_eq!(on(&skills), [true, true, true, true, false]);
    skills.docs_mcp_url = Some("http://docs".to_string());
    assert!(shows_docs(&skills));
    skills.proactive = false;
    assert_eq!(on(&skills), [true, false, true, false, true]);
    skills.learn = false;
    assert_eq!(on(&skills), [false, false, false, false, true]);
}
