use anthropic_proxy::config::Config;
use anthropic_proxy::json::Json;
use anthropic_proxy::search::{background_search, client_search, Backend};
use anthropic_proxy::searx::{read_answer, read_results, SearxClient};
use anthropic_proxy::skills::gate::{wait_for, GateState, SearchLane};
use anthropic_proxy::skills::research::{evidence, host_of, hosts};
use anthropic_proxy::websearch::{
    call_request, initialize_request, initialized_request, open_session, read_data, read_envelope,
    read_payload, read_search, FetchResult, SearchResult, WebSearchClient,
};

fn json(text: &str) -> Json {
    Json::parse(text).unwrap()
}

fn found(title: &str, url: &str, description: &str) -> SearchResult {
    SearchResult {
        title: title.to_string(),
        url: url.to_string(),
        description: description.to_string(),
    }
}

#[test]
fn searx_results_need_a_url() {
    let body = json(
        r#"{"results": [
            {"title": "A", "url": "https://a.org", "content": "one"},
            {"title": "B", "url": ""},
            {"title": 3, "url": "https://c.org"},
            {"url": "https://d.org"}
        ]}"#,
    );
    assert_eq!(
        read_results(&body, 9),
        [found("A", "https://a.org", "one"), found("", "https://d.org", "")]
    );
    assert_eq!(read_results(&body, 1).len(), 1);
    assert!(read_results(&json("{}"), 5).is_empty());
}

#[test]
fn searx_is_asked_below_its_base() {
    let client = SearxClient::new("http://searx:8080//".to_string());
    assert_eq!(client.search(), "http://searx:8080/search");
}

#[test]
fn answers_may_be_event_streams() {
    assert_eq!(read_data("event: message\r\ndata: {\"a\":1}\r\n\r\n"), "{\"a\":1}");
    assert_eq!(read_data("  {\"a\":1}\n"), "{\"a\":1}");
    assert_eq!(read_envelope("").unwrap(), Json::Null);
    assert!(read_envelope("data: {\"a\":1}\n").unwrap().get("a").is_some());
    assert_eq!(
        read_envelope("data: oops\n"),
        Err("parsing open-websearch response: oops".to_string())
    );
}

#[test]
fn payloads_are_json_in_a_text() {
    let good = json(r#"{"result": {"content": [{"text": "{\"results\": []}"}]}}"#);
    assert!(read_payload("search", &good).unwrap().get("results").is_some());
    let failed = json(r#"{"result": {"isError": true, "content": [{"text": "boom"}]}}"#);
    assert_eq!(
        read_payload("search", &failed),
        Err("open-websearch search error: boom".to_string())
    );
    let silent = json(r#"{"result": {"isError": true}}"#);
    assert_eq!(
        read_payload("search", &silent),
        Err("open-websearch search error: unknown error".to_string())
    );
    let broken = json(r#"{"result": {"content": [{"text": "nope"}]}}"#);
    assert_eq!(
        read_payload("search", &broken),
        Err("parsing inner search JSON".to_string())
    );
    assert!(read_payload("search", &json("{}")).is_err());
}

#[test]
fn results_are_read_from_records() {
    let inner = json(
        r#"{"results": [
            {"title": "A", "url": "u", "description": "d", "engine": "x"},
            ["B", "v"],
            {"title": null}
        ]}"#,
    );
    assert_eq!(read_search(&inner), [found("A", "u", "d"), found("B", "v", "")]);
    let page = FetchResult::read(&json(r#"{"finalUrl": "u", "content": "c"}"#)).unwrap();
    assert_eq!(page.final_url, "u");
    assert_eq!(page.title, "");
    assert_eq!(page.content, "c");
    assert_eq!(
        FetchResult::read(&json("7")),
        Err("parsing fetchWebContent result".to_string())
    );
}

#[test]
fn sessions_are_opened_by_the_answer() {
    assert_eq!(open_session(Some("s1".to_string())), Ok("s1".to_string()));
    assert_eq!(
        open_session(None),
        Err("open-websearch did not return an Mcp-Session-Id".to_string())
    );
    assert!(initialize_request().str_is("method", "initialize"));
    assert!(initialized_request().str_is("method", "notifications/initialized"));
    assert!(initialized_request().get("id").is_none());
}

#[test]
fn tool_calls_carry_their_arguments() {
    let client = WebSearchClient::new("http://localhost:3100/mcp".to_string());
    let search = client.search("q", 5, &["duckduckgo".to_string()], "request");
    assert_eq!(
        search.to_text(),
        json(
            r#"{"jsonrpc": "2.0", "id": 2, "method": "tools/call", "params": {"name": "search",
               "arguments": {"query": "q", "limit": 5, "searchMode": "request",
               "engines": ["duckduckgo"]}}}"#
        )
        .to_text()
    );
    let params = |request: &Json| request.get("params").unwrap().get("arguments").unwrap().copy();
    assert!(params(&client.search("q", 5, &[], "request")).get("engines").is_none());
    assert_eq!(
        params(&client.fetch("https://a.org", 10)).to_text(),
        json(r#"{"url": "https://a.org", "maxChars": 10}"#).to_text()
    );
    assert!(call_request("x", Json::Null).get("params").unwrap().str_is("name", "x"));
}

#[test]
fn hosts_are_counted_once() {
    assert_eq!(host_of("https://Docs.RS/serde?x#y").as_deref(), Some("docs.rs"));
    assert_eq!(host_of("mailto:a@b.org"), None);
    assert_eq!(host_of("not a url"), None);
    let results = vec![
        found("1", "https://b.org/1", ""),
        found("2", "https://a.org/", ""),
        found("3", "http://B.org/2", ""),
        found("4", "nowhere", ""),
    ];
    assert_eq!(hosts(&results), ["a.org", "b.org"]);
}

#[test]
fn evidence_is_the_first_results() {
    let results = (0..7).map(|i| found(&format!("t{i}"), "u", "d")).collect();
    let text = evidence(&results);
    assert_eq!(text.lines().count(), 5);
    assert!(text.starts_with("- t0 (u): d\n"));
}

#[test]
fn searches_are_spaced() {
    let mut gate = GateState::new();
    assert_eq!(gate.search_gate(SearchLane::User, 1_000), 1_000);
    assert_eq!(gate.search_gate(SearchLane::User, 1_000), 3_000);
    assert_eq!(gate.search_gate(SearchLane::User, 9_000), 9_000);
    // The background yields to the users.
    assert_eq!(gate.search_gate(SearchLane::Background, 9_500), 21_000);
    assert_eq!(wait_for(21_000, 9_500), 11_500);
    assert_eq!(wait_for(5, 9_500), 0);
}

#[test]
fn an_idle_lane_leaves_the_budget_to_the_other() {
    let mut gate = GateState::new();
    let mut last = gate.search_gate(SearchLane::Background, 0);
    for _ in 0..5 {
        let next = gate.search_gate(SearchLane::Background, last);
        assert_eq!(next, last + 2_000);
        last = next;
    }
    // A lane that shares the budget gets every other slot.
    let first = gate.search_gate(SearchLane::User, last);
    assert_eq!(first, last + 2_000);
    assert_eq!(gate.search_gate(SearchLane::User, last), first + 4_000);
}

#[test]
fn a_reserved_slot_delays_no_client() {
    let mut gate = GateState::new();
    assert_eq!(gate.search_gate(SearchLane::User, 0), 0);
    assert_eq!(gate.search_gate(SearchLane::Background, 500), 12_000);
    assert_eq!(gate.global_last, Some(12_000));
    let mut other = gate;
    assert_eq!(gate.search_gate(SearchLane::User, 1_000), 2_000);
    assert_eq!(gate.global_last, Some(12_000));
    // The background gives its slot up, and waits for the client once more.
    assert!(!gate.takes_slot(12_000));
    assert_eq!(gate.bg_ran, None);
    assert_eq!(gate.search_gate(SearchLane::Background, 12_000), 14_000);
    assert!(gate.takes_slot(14_000));
    assert_eq!(gate.bg_ran, Some(14_000));
    assert_eq!(gate.search_gate(SearchLane::Background, 14_000), 16_000);
    assert_eq!(gate.search_gate(SearchLane::User, 14_500), 16_000);
    // Where no client came in between, the slot stands.
    assert!(other.takes_slot(12_000));
    assert_eq!(other.search_gate(SearchLane::User, 12_500), 14_000);
}

#[test]
fn times_leave_room_for_the_longest_wait() {
    let mut gate = GateState::new();
    assert!(gate.leaves_room());
    gate.user_last = Some(u64::MAX - 12_000);
    assert!(gate.leaves_room());
    gate.user_last = Some(u64::MAX - 11_999);
    assert!(!gate.leaves_room());
}

fn configured(searxng_url: Option<&str>) -> Config {
    let mut config = Config::default();
    config.searxng_url = searxng_url.map(str::to_string);
    config
}

#[test]
fn clients_search_with_searx_where_it_is_set() {
    let plan = client_search(&configured(Some("http://searx:8080")));
    assert_eq!(plan.lane, Some(SearchLane::User));
    assert_eq!(plan.backends.len(), 1);
    assert!(matches!(&plan.backends[0], Backend::Searx(u) if u == "http://searx:8080"));
    let plan = client_search(&configured(None));
    assert_eq!(plan.lane, None);
    assert_eq!(plan.backends.len(), 1);
    assert!(matches!(&plan.backends[0], Backend::Server(u) if u == "http://localhost:3100/mcp"));
}

#[test]
fn the_background_falls_back_to_the_server() {
    let plan = background_search(&configured(Some("http://searx:8080")));
    assert_eq!(plan.lane, Some(SearchLane::Background));
    assert_eq!(plan.backends.len(), 2);
    assert!(matches!(&plan.backends[0], Backend::Searx(_)));
    assert!(matches!(&plan.backends[1], Backend::Server(_)));
    assert_eq!(background_search(&configured(None)).backends.len(), 1);
}

#[test]
fn searx_answers_are_read_from_their_text() {
    let text = r#"{"results": [{"title": "A", "url": "https://a.org", "content": "one"}]}"#;
    assert_eq!(read_answer(text, 3), Ok(vec![found("A", "https://a.org", "one")]));
    assert_eq!(read_answer(text, 0), Ok(vec![]));
    assert_eq!(read_answer("<html>", 3), Err("parsing searxng json".to_string()));
}

#[test]
fn a_tool_text_may_stand_under_a_name() {
    let envelope = json(r#"{"result": {"content": {"0": {"text": "{\"a\": \"b\"}"}}}}"#);
    assert!(read_payload("search", &envelope).unwrap().str_is("a", "b"));
    let envelope = json(r#"{"result": {"content": {"1": {"text": "{}"}}}}"#);
    assert!(read_payload("search", &envelope).is_err());
}
