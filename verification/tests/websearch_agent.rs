use anthropic_proxy::error::ProxyError;
use anthropic_proxy::json::Json;
use anthropic_proxy::models::{anthropic, openai};
use anthropic_proxy::translate::blocks::{fetch_error, render_block_events, search_error};
use anthropic_proxy::translate::websearch_agent::{
    closing_frames, detect, disable_thinking, error_frame, format_search, heartbeat_period,
    message_value, parse_args, rewrite_tools, sanitize_answer, start_frame, strip_web_tools,
    web_kind, Attempts, CallResult, IdSource, Next, Patience, Plan, Step, WebAgent, WebKind,
    AGENT_MAX_TOKENS, MAX_ROUNDS,
};
use anthropic_proxy::websearch::{FetchResult, SearchResult};

fn json(text: &str) -> Json {
    Json::parse(text).unwrap()
}

fn req_with_tools(tools: Vec<anthropic::Tool>) -> anthropic::AnthropicRequest {
    anthropic::AnthropicRequest {
        model: "opus-4-8".to_string(),
        max_tokens: 64,
        messages: vec![anthropic::Message {
            role: "user".to_string(),
            content: anthropic::MessageContent::Text("hi".to_string()),
        }],
        system: None,
        tools: Some(tools),
    }
}

fn tool(ty: Option<&str>, name: &str) -> anthropic::Tool {
    anthropic::Tool {
        name: name.to_string(),
        description: None,
        input_schema: if ty.is_some() {
            Json::Null
        } else {
            json(r#"{"type": "object"}"#)
        },
        tool_type: ty.map(str::to_string),
    }
}

#[test]
fn detect_finds_search_and_fetch_across_versions() {
    // No web tools → false (normal path).
    assert!(!detect(&req_with_tools(vec![tool(None, "Bash")])));
    // Either server browsing tool, any version, is detected.
    assert!(detect(&req_with_tools(vec![
        tool(None, "Bash"),
        tool(Some("web_search_20250305"), "web_search"),
    ])));
    assert!(detect(&req_with_tools(vec![tool(
        Some("web_fetch_20260209"),
        "web_fetch"
    )])));
}

#[test]
fn rewrite_turns_server_tools_into_callable_functions() {
    let mut req = req_with_tools(vec![
        tool(None, "Bash"),
        tool(Some("web_search_20250305"), "web_search"),
        tool(Some("web_fetch_20250910"), "web_fetch"),
    ]);
    rewrite_tools(&mut req);
    let tools = req.tools.unwrap();
    // Client tool untouched.
    assert_eq!(tools[0].name, "Bash");
    assert!(tools[0].tool_type.is_none());
    // web_search → callable function with a query schema, server type stripped.
    assert_eq!(tools[1].name, "web_search");
    assert!(tools[1].tool_type.is_none());
    let properties = tools[1].input_schema.get("properties").unwrap();
    assert!(properties.get("query").unwrap().str_is("type", "string"));
    // web_fetch → callable function with a url schema.
    assert_eq!(tools[2].name, "web_fetch");
    let properties = tools[2].input_schema.get("properties").unwrap();
    assert!(properties.get("url").unwrap().str_is("type", "string"));
}

#[test]
fn render_emits_full_block_sequence_for_a_search_turn() {
    let blocks = vec![
        json(
            r#"{"type": "server_tool_use", "id": "srvtoolu_1", "name": "web_search",
               "input": {"query": "rust"}}"#,
        ),
        json(
            r#"{"type": "web_search_tool_result", "tool_use_id": "srvtoolu_1",
               "content": [{"type": "web_search_result", "url": "https://r.org", "title": "Rust"}]}"#,
        ),
        json(r#"{"type": "text", "text": "Rust is a language."}"#),
    ];
    let sse = render_block_events(&blocks).join("");
    // server_tool_use streams its input as input_json_delta.
    assert!(sse.contains("\"type\":\"server_tool_use\""));
    assert!(sse.contains("input_json_delta"));
    assert!(sse.contains("\\\"query\\\":\\\"rust\\\""));
    // result block is emitted whole on its start frame.
    assert!(sse.contains("web_search_tool_result"));
    assert!(sse.contains("web_search_result"));
    // final text is delta'd and every block is closed (one stop per block).
    assert!(sse.contains("Rust is a language."));
    assert_eq!(sse.matches("\"type\":\"content_block_stop\"").count(), 3);
}

#[test]
fn search_and_fetch_errors_use_documented_shapes() {
    assert!(search_error("srvtoolu_1", "max_uses_exceeded")
        .get("content")
        .unwrap()
        .str_is("type", "web_search_tool_result_error"));
    assert!(fetch_error("srvtoolu_1", "url_not_accessible")
        .get("content")
        .unwrap()
        .str_is("type", "web_fetch_tool_error"));
}

#[test]
fn stripping_leaves_the_other_tools() {
    let mut req = req_with_tools(vec![
        tool(Some("web_search_20250305"), "web_search"),
        tool(None, "Bash"),
    ]);
    strip_web_tools(&mut req);
    let names: Vec<String> = req.tools.unwrap().into_iter().map(|t| t.name).collect();
    assert_eq!(names, ["Bash"]);

    let mut req = req_with_tools(vec![tool(Some("web_search_20250305"), "web_search")]);
    strip_web_tools(&mut req);
    assert!(req.tools.is_none());
}

#[test]
fn identifiers_are_numbered_in_hexadecimal() {
    let mut ids = IdSource::new();
    assert_eq!(ids.next_id("msg"), "msg_00000000000000000001");
    for _ in 0..14 {
        ids.next_id("msg");
    }
    assert_eq!(ids.next_id("srvtoolu"), "srvtoolu_00000000000000000010");
}

#[test]
fn answers_lose_thoughts_and_tool_syntax() {
    assert_eq!(sanitize_answer("plain"), "plain");
    assert_eq!(sanitize_answer("a</think> b </think> answer "), "answer");
    assert_eq!(sanitize_answer("Done. <tool_call>{}</tool_call>"), "Done.");
    assert_eq!(sanitize_answer("Done. <function=x>"), "Done.");
    assert_eq!(sanitize_answer("<|tool_call|>x"), "");
    assert_eq!(sanitize_answer("Yes <think> no"), "Yes");
}

#[test]
fn web_functions_are_told_by_name() {
    assert_eq!(web_kind("web_search"), Some(WebKind::Search));
    assert_eq!(web_kind("web_fetch"), Some(WebKind::Fetch));
    assert_eq!(web_kind("Bash"), None);
}

#[test]
fn broken_arguments_are_an_empty_object() {
    assert_eq!(parse_args("{\"query\":\"x\"}").str_or_empty("query"), "x");
    assert_eq!(parse_args("{broken").to_text(), "{}");
}

fn found(title: &str, url: &str, description: &str) -> SearchResult {
    SearchResult {
        title: title.to_string(),
        url: url.to_string(),
        description: description.to_string(),
    }
}

#[test]
fn found_pages_are_listed() {
    assert_eq!(format_search(&vec![]), "No results found.");
    let list = vec![
        found(" One ", "https://one.org", "first\n"),
        found("Two", "https://two.org", "second"),
    ];
    assert_eq!(
        format_search(&list),
        "1. One — https://one.org\nfirst\n\n2. Two — https://two.org\nsecond"
    );
}

fn chat_request() -> openai::OpenAIRequest {
    openai::OpenAIRequest {
        model: "gpt-4o".to_string(),
        messages: vec![openai::Message::plain("user", "What is new?")],
        max_tokens: Some(64_000),
        stream: Some(true),
        stream_options: Some(json(r#"{"include_usage": true}"#)),
        tools: Some(vec![openai::Tool {
            tool_type: "function".to_string(),
            function: openai::Function {
                name: "web_search".to_string(),
                description: None,
                parameters: json("{}"),
            },
        }]),
        tool_choice: Some(Json::text("auto")),
        parallel_tool_calls: Some(true),
        reasoning_effort: Some("high".to_string()),
    }
}

fn call(id: &str, name: &str, arguments: &str) -> openai::ToolCall {
    openai::ToolCall {
        id: id.to_string(),
        call_type: "function".to_string(),
        function: openai::FunctionCall {
            name: name.to_string(),
            arguments: arguments.to_string(),
        },
    }
}

fn answer(content: Option<&str>, calls: Vec<openai::ToolCall>) -> openai::OpenAIResponse {
    openai::OpenAIResponse {
        model: Some("qwen".to_string()),
        choices: vec![openai::Choice {
            message: openai::ResponseMessage {
                content: content.map(str::to_string),
                reasoning_content: None,
                tool_calls: if calls.is_empty() { None } else { Some(calls) },
            },
            finish_reason: None,
        }],
        usage: openai::Usage {
            prompt_tokens: 10,
            completion_tokens: 4,
            total_tokens: 14,
            prompt_tokens_details: None,
        },
    }
}

fn plans_of(step: Step) -> Vec<Plan> {
    match step {
        Step::Browse(plans) => plans,
        Step::Done => panic!("the run ended"),
        Step::Failed(e) => panic!("{}", e.describe()),
    }
}

#[test]
fn a_run_searches_and_then_answers() {
    let mut ids = IdSource::new();
    let mut agent = WebAgent::begin(chat_request(), None);

    let first = agent.round_request();
    assert_eq!(first.model, "auto");
    assert_eq!(first.max_tokens, Some(AGENT_MAX_TOKENS));
    assert_eq!(first.stream, Some(false));
    assert!(first.stream_options.is_none());
    assert_eq!(first.reasoning_effort.as_deref(), Some("low"));
    assert_eq!(first.tools.unwrap().len(), 1);

    let step = agent.on_response(
        answer(None, vec![call("c1", "web_search", "{\"query\":\"news\"}")]),
        &mut ids,
    );
    let plans = plans_of(step);
    assert_eq!(plans.len(), 1);
    assert_eq!(plans[0].tc_id, "c1");
    assert_eq!(plans[0].kind, WebKind::Search);
    assert_eq!(plans[0].arg, "news");
    assert!(!plans[0].over_budget);

    let page = found("News", "https://n.org", "today");
    agent.on_results(&plans, &vec![Some(CallResult::Search(Ok(vec![page])))]);

    let second = agent.round_request();
    let last = second.messages.last().unwrap();
    assert_eq!(last.role, "tool");
    assert_eq!(last.tool_call_id.as_deref(), Some("c1"));
    assert_eq!(
        last.content,
        Some(openai::MessageContent::Text(
            "1. News — https://n.org\ntoday".to_string()
        ))
    );

    let step = agent.on_response(answer(Some("<think>x</think>It is quiet."), vec![]), &mut ids);
    assert!(matches!(step, Step::Done));
    let out = agent.finish();
    assert_eq!(out.model, "qwen");
    assert_eq!(out.stop_reason, "end_turn");
    assert_eq!(out.input_tokens, 10);
    assert_eq!(out.output_tokens, 8);
    assert_eq!(out.search_requests, 1);
    let kinds: Vec<String> = out.blocks.iter().map(|b| b.str_or_empty("type")).collect();
    assert_eq!(kinds, ["server_tool_use", "web_search_tool_result", "text"]);
    assert!(out.blocks[2].str_is("text", "It is quiet."));

    let message = message_value("msg_1", &out);
    assert!(message.str_is("id", "msg_1"));
    assert!(message.str_is("stop_reason", "end_turn"));
    let frames = closing_frames(&out);
    assert!(frames.last().unwrap().starts_with("event: message_stop\n"));
}

#[test]
fn a_call_of_the_client_ends_the_run() {
    let mut ids = IdSource::new();
    let mut agent = WebAgent::begin(chat_request(), Some("picked".to_string()));
    let calls = vec![
        call("c1", "web_search", "{}"),
        call("c2", "Bash", "{\"command\":\"ls\"}"),
    ];
    let step = agent.on_response(answer(Some("Running."), calls), &mut ids);
    assert!(matches!(step, Step::Done));
    let out = agent.finish();
    assert_eq!(out.stop_reason, "tool_use");
    let kinds: Vec<String> = out.blocks.iter().map(|b| b.str_or_empty("type")).collect();
    assert_eq!(kinds, ["text", "tool_use", "tool_use"]);
}

#[test]
fn an_answer_without_choices_fails() {
    let mut ids = IdSource::new();
    let mut agent = WebAgent::begin(chat_request(), None);
    let mut empty = answer(None, vec![]);
    empty.choices = vec![];
    match agent.on_response(empty, &mut ids) {
        Step::Failed(e) => assert_eq!(e.status_code(), 502),
        _ => panic!("expected a failure"),
    }
}

#[test]
fn the_last_round_offers_no_tools() {
    let mut ids = IdSource::new();
    let mut agent = WebAgent::begin(chat_request(), None);
    for round in 0..3 {
        let name = format!("c{round}");
        let step = agent.on_response(
            answer(None, vec![call(&name, "web_fetch", "{\"url\":\"https://x.org\"}")]),
            &mut ids,
        );
        let plans = plans_of(step);
        let results = plans
            .iter()
            .map(|_| {
                Some(CallResult::Fetch(Ok(FetchResult {
                    final_url: String::new(),
                    title: "X".to_string(),
                    content: "text".to_string(),
                })))
            })
            .collect();
        agent.on_results(&plans, &results);
    }
    let last = agent.round_request();
    assert!(last.tools.is_none());
    assert!(last.tool_choice.is_none());
    assert!(last.parallel_tool_calls.is_none());
    assert_eq!(last.messages.last().unwrap().role, "user");
    // A call is not run in such a round, and the run ends with a text all the same.
    assert!(agent.must_answer());
    let more = vec![call("c9", "web_search", "{\"query\":\"more\"}")];
    assert!(matches!(
        agent.on_response(answer(Some("<tool_call>x"), more), &mut ids),
        Step::Done
    ));
    assert!(agent.next_request().is_none());
    let out = agent.finish();
    assert_eq!(out.stop_reason, "end_turn");
    assert_eq!(out.fetch_requests, 3);
    assert_eq!(out.search_requests, 0);
    let text = out.blocks.last().unwrap();
    assert!(text.str_is("type", "text"));
    assert!(text.str_is("text", "No answer was written."));
}

#[test]
fn an_empty_answer_becomes_a_text() {
    let mut ids = IdSource::new();
    let mut agent = WebAgent::begin(chat_request(), None);
    assert!(agent.next_request().is_some());
    assert!(matches!(agent.on_response(answer(None, vec![]), &mut ids), Step::Done));
    assert!(agent.over);
    let out = agent.finish();
    assert_eq!(out.blocks.len(), 1);
    assert!(out.blocks[0].str_is("text", "No answer was written."));
}

#[test]
fn the_last_of_all_rounds_has_to_answer() {
    let mut agent = WebAgent::begin(chat_request(), None);
    agent.round = MAX_ROUNDS - 1;
    assert!(agent.must_answer());
    assert!(agent.next_request().unwrap().tools.is_none());
    agent.round = MAX_ROUNDS;
    assert!(agent.next_request().is_none());
}

#[test]
fn calls_over_the_budget_are_told_so() {
    let mut ids = IdSource::new();
    let mut agent = WebAgent::begin(chat_request(), None);
    let calls = (0..6)
        .map(|i| call(&format!("c{i}"), "web_search", "{\"query\":\"q\"}"))
        .collect();
    let plans = plans_of(agent.on_response(answer(None, calls), &mut ids));
    let over: Vec<bool> = plans.iter().map(|p| p.over_budget).collect();
    assert_eq!(over, [false, false, false, false, false, true]);
    let results = plans
        .iter()
        .map(|p| {
            if p.over_budget {
                None
            } else {
                Some(CallResult::Search(Err("down".to_string())))
            }
        })
        .collect();
    agent.on_results(&plans, &results);
    let sent = agent.round_request();
    let texts: Vec<Option<openai::MessageContent>> =
        sent.messages.into_iter().map(|m| m.content).collect();
    let text = |s: &str| Some(openai::MessageContent::Text(s.to_string()));
    assert!(texts.contains(&text("Search failed: down")));
    assert!(texts.contains(&text("Tool use limit reached.")));
    let codes: Vec<String> = agent
        .out
        .blocks
        .iter()
        .filter_map(|b| b.get("content").map(|c| c.str_or_empty("error_code")))
        .collect();
    assert_eq!(codes[0], "unavailable");
    assert_eq!(codes[5], "max_uses_exceeded");
}

#[test]
fn thinking_is_switched_off_in_the_first_system_message() {
    let mut messages = vec![
        openai::Message::plain("system", "Be brief."),
        openai::Message::plain("user", "hi"),
    ];
    disable_thinking(&mut messages);
    match &messages[0].content {
        Some(openai::MessageContent::Text(t)) => {
            assert!(t.starts_with("Be brief."));
            assert!(t.ends_with("/no_think"));
        }
        _ => panic!("expected a text"),
    }
    assert_eq!(messages.len(), 2);
}

#[test]
fn frames_are_server_sent_events() {
    let start = start_frame("msg_1", "auto");
    assert!(start.starts_with("event: message_start\ndata: {"));
    assert!(start.ends_with("}\n\n"));
    let failed = error_frame("down");
    assert!(failed.starts_with("event: error\ndata: "));
    assert!(failed.contains("\"message\":\"down\""));
    assert!(failed.contains("\"type\":\"api_error\""));
}

#[test]
fn no_heartbeat_is_a_year() {
    assert_eq!(heartbeat_period(0), 31_536_000);
    assert_eq!(heartbeat_period(15), 15);
}

fn busy() -> ProxyError {
    ProxyError::UpstreamStatus {
        status: 503,
        message: "busy".to_string(),
    }
}

#[test]
fn attempts_go_through_the_upstreams() {
    let mut attempts = match Attempts::start(2, Patience::Agent) {
        Ok(a) => a,
        Err(e) => panic!("{}", e.describe()),
    };
    assert!(matches!(attempts.failed(busy()), Next::Again(150)));
    assert!(matches!(attempts.failed(busy()), Next::Again(300)));
    assert!(matches!(attempts.failed(busy()), Next::Upstream));
    assert!(matches!(attempts.failed(busy()), Next::Again(150)));
    assert!(matches!(
        attempts.failed(ProxyError::Http("reset".to_string())),
        Next::Again(300)
    ));
    match attempts.failed(busy()) {
        Next::Fail(e) => assert_eq!(e.status_code(), 503),
        _ => panic!("expected the end"),
    }
}

#[test]
fn a_refusal_is_not_tried_again() {
    let mut attempts = match Attempts::start(3, Patience::Agent) {
        Ok(a) => a,
        Err(e) => panic!("{}", e.describe()),
    };
    let refusal = ProxyError::UpstreamStatus {
        status: 429,
        message: "slow down".to_string(),
    };
    match attempts.failed(refusal) {
        Next::Fail(e) => assert_eq!(e.status_code(), 429),
        _ => panic!("expected the end"),
    }
    match Attempts::start(0, Patience::Client) {
        Err(e) => assert_eq!(e.message(), "all upstreams failed"),
        Ok(_) => panic!("there is no upstream"),
    }
}

#[test]
fn requests_that_are_passed_on_are_more_patient() {
    let mut attempts = match Attempts::start(1, Patience::Client) {
        Ok(a) => a,
        Err(e) => panic!("{}", e.describe()),
    };
    let failure = |status: u16| ProxyError::UpstreamStatus {
        status,
        message: "no".to_string(),
    };
    assert!(matches!(attempts.failed(failure(429)), Next::Again(150)));
    assert!(matches!(attempts.failed(failure(500)), Next::Again(300)));
    assert!(matches!(attempts.failed(failure(429)), Next::Fail(_)));
    let mut attempts = match Attempts::start(1, Patience::Client) {
        Ok(a) => a,
        Err(e) => panic!("{}", e.describe()),
    };
    assert!(matches!(attempts.failed(failure(404)), Next::Fail(_)));
}
