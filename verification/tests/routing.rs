use anthropic_proxy::config::{Config, EffortMap};
use anthropic_proxy::json::Json;
use anthropic_proxy::models::{anthropic, openai};
use anthropic_proxy::numerals::{decimal_text, parse_u64};
use anthropic_proxy::skills::llm::{openrouter_url, route_model, Route};
use anthropic_proxy::translate::order::normalize_system_first;
use anthropic_proxy::translate::request::{translate_request, Options};
use anthropic_proxy::translate::response::{
    estimate_tokens, translate_models, translate_response,
};
use anthropic_proxy::translate::routing::{clean_prompt, next_frame, pick_model, request_key};
use anthropic_proxy::translate::websearch_agent::{search_engine, search_mode};

#[test]
fn models_are_chosen_and_then_mapped() {
    let mut config = Config {
        model_map: Config::parse_model_map("big=upstream/big;asked=upstream/asked").unwrap(),
        ..Default::default()
    };
    assert_eq!(pick_model(&config, "asked", false), "upstream/asked");
    assert_eq!(pick_model(&config, "other", true), "other");
    config.reasoning_model = Some("big".to_string());
    assert_eq!(pick_model(&config, "asked", true), "upstream/big");
    assert_eq!(pick_model(&config, "asked", false), "upstream/asked");
    config.completion_model = Some("small".to_string());
    assert_eq!(pick_model(&config, "asked", false), "small");
}

#[test]
fn keys_are_passed_through_or_configured() {
    let mut config = Config {
        api_key: Some("own".to_string()),
        ..Default::default()
    };
    assert_eq!(request_key(&config, Some("theirs")).as_deref(), Some("own"));
    config.api_key = None;
    assert_eq!(request_key(&config, Some("theirs")), None);
    config.passthrough_api_key = true;
    assert_eq!(request_key(&config, Some("theirs")).as_deref(), Some("theirs"));
    assert_eq!(request_key(&config, Some("")), None);
    assert_eq!(request_key(&config, None), None);
}

#[test]
fn prompts_lose_every_term() {
    let terms = vec!["rm -rf".to_string(), "sudo".to_string()];
    assert_eq!(clean_prompt("sudo RM  -rf / now", &terms), "  / now");
    assert_eq!(clean_prompt("harmless", &terms), "harmless");
}

#[test]
fn frames_end_with_an_empty_line() {
    let cut = |s: &str| next_frame(s).map(|(a, b)| format!("{a}|{b}"));
    assert_eq!(cut("data: a\n\ndata: b").as_deref(), Some("data: a|data: b"));
    assert_eq!(cut("data: a\r\n\r\nrest\n\n").as_deref(), Some("data: a|rest\n\n"));
    assert_eq!(cut("a\n\nb\r\n\r\n").as_deref(), Some("a|b\r\n\r\n"));
    assert_eq!(cut("data: a\n"), None);
}

#[test]
fn hard_tasks_have_models() {
    assert!(route_model(Route::Auto).is_none());
    let (model, web) = route_model(Route::Nemotron).unwrap();
    assert!(model.starts_with("nvidia/") && !web);
    let (model, web) = route_model(Route::Gemini).unwrap();
    assert!(model.starts_with("google/") && web);
    assert!(openrouter_url().ends_with("/chat/completions"));
    assert_eq!((search_engine(), search_mode()), ("duckduckgo", "request"));
}

#[test]
fn decimals_are_read_back() {
    for n in [0, 7, 10, 65_536, u64::MAX] {
        assert_eq!(decimal_text(n), n.to_string());
        assert_eq!(parse_u64(&decimal_text(n)), Some(n));
    }
}

fn tool(name: &str, tool_type: Option<&str>) -> anthropic::Tool {
    anthropic::Tool {
        name: name.to_string(),
        description: None,
        input_schema: Json::parse("{\"type\":\"object\"}").unwrap(),
        tool_type: tool_type.map(str::to_string),
    }
}

fn block(text: &str) -> anthropic::SystemMessage {
    anthropic::SystemMessage {
        message_type: "text".to_string(),
        text: text.to_string(),
        cache_control: None,
    }
}

#[test]
fn whole_requests_are_translated() {
    let config = Config {
        effort_map: EffortMap::parse("low:1000,high:9000"),
        reasoning_model: Some("thinker".to_string()),
        system_prompt_ignore_terms: vec!["secret".to_string()],
        ..Default::default()
    };
    let request = anthropic::AnthropicRequest {
        model: "asked".to_string(),
        max_tokens: 77,
        messages: vec![anthropic::Message {
            role: "user".to_string(),
            content: anthropic::MessageContent::Text("hi".to_string()),
        }],
        system: Some(anthropic::SystemPrompt::Multiple(vec![
            block("no secret here"),
            block("be brief"),
        ])),
        tools: Some(vec![tool("a", None), tool("b", Some("BatchTool"))]),
    };
    let options = Options {
        stream: true,
        tool_choice: Some(Json::parse("{\"type\":\"any\"}").unwrap()),
        thinking: Some(5000),
    };
    let sent = translate_request(&config, request, &options).unwrap();
    assert_eq!(sent.model, "thinker");
    assert_eq!(sent.max_tokens, Some(77));
    assert_eq!(sent.reasoning_effort.as_deref(), Some("high"));
    assert_eq!(sent.tool_choice, Some(Json::text("required")));
    assert_eq!(sent.stream_options.unwrap().to_text(), "{\"include_usage\":true}");
    assert_eq!(sent.tools.unwrap().len(), 1);
    assert_eq!(sent.messages.len(), 2);
    assert_eq!(
        sent.messages[0],
        openai::Message::plain("system", "no  here\n\nbe brief")
    );
    assert_eq!(sent.messages[1], openai::Message::plain("user", "hi"));
}

#[test]
fn whole_answers_are_translated() {
    let mut resp = openai::OpenAIResponse {
        model: None,
        choices: vec![openai::Choice {
            message: openai::ResponseMessage {
                content: Some("Done.".to_string()),
                reasoning_content: Some("hm".to_string()),
                tool_calls: Some(vec![openai::ToolCall {
                    id: "c".to_string(),
                    call_type: "function".to_string(),
                    function: openai::FunctionCall {
                        name: "Bash".to_string(),
                        arguments: "{\"a\":1}".to_string(),
                    },
                }]),
            },
            finish_reason: Some("tool_calls".to_string()),
        }],
        usage: openai::Usage {
            prompt_tokens: 10,
            completion_tokens: 2,
            total_tokens: 12,
            prompt_tokens_details: Some(openai::PromptTokensDetails { cached_tokens: 4 }),
        },
    };
    let message = translate_response("msg_1", "asked", &resp).unwrap();
    let wanted = r#"{"id": "msg_1", "type": "message", "role": "assistant", "model": "asked",
        "content": [{"type": "thinking", "thinking": "hm"}, {"type": "text", "text": "Done."},
        {"type": "tool_use", "id": "c", "name": "Bash", "input": {"a": 1}}],
        "stop_reason": "tool_use", "stop_sequence": null,
        "usage": {"input_tokens": 6, "output_tokens": 2, "cache_read_input_tokens": 4}}"#;
    assert_eq!(message.to_text(), Json::parse(wanted).unwrap().to_text());
    resp.choices.clear();
    assert!(translate_response("msg_1", "asked", &resp).is_err());
}

#[test]
fn models_are_listed() {
    let listed = Json::parse(r#"{"data": [{"id": "a"}, {"name": "x"}, {"id": "b"}]}"#).unwrap();
    let models = translate_models(&listed);
    assert!(models.str_is("first_id", "a"));
    assert!(models.str_is("last_id", "b"));
    assert!(models.get("data").unwrap().at(1).unwrap().str_is("display_name", "b"));
    let none = translate_models(&Json::Null);
    assert_eq!(
        none.to_text(),
        "{\"data\":[],\"first_id\":null,\"has_more\":false,\"last_id\":null}"
    );
    assert_eq!(
        [0, 1, 4, 5].map(estimate_tokens),
        [0, 1, 1, 2]
    );
}

#[test]
fn system_messages_come_first() {
    let mut messages = vec![
        openai::Message::plain("user", "1"),
        openai::Message::plain("system", "2"),
        openai::Message::plain("assistant", "3"),
        openai::Message::plain("system", "4"),
    ];
    normalize_system_first(&mut messages);
    let order: Vec<(String, Option<openai::MessageContent>)> =
        messages.into_iter().map(|m| (m.role, m.content)).collect();
    let text = |t: &str| Some(openai::MessageContent::Text(t.to_string()));
    assert_eq!(
        order,
        [
            ("system".to_string(), text("2")),
            ("system".to_string(), text("4")),
            ("user".to_string(), text("1")),
            ("assistant".to_string(), text("3")),
        ]
    );
}
