use anthropic_proxy::json::Json;
use anthropic_proxy::models::{anthropic, openai};
use anthropic_proxy::translate::limits::clamp_max_tokens_for_overflow;
use anthropic_proxy::translate::messages::{
    map_stop_reason, split_prompt_tokens, translate_message,
};
use anthropic_proxy::translate::schema::normalize_schema;
use anthropic_proxy::translate::terms::remove_term;
use anthropic_proxy::translate::tools::{is_batch_tool, translate_tool, translate_tool_choice};

fn json(text: &str) -> Json {
    Json::parse(text).unwrap()
}

fn member<'a>(value: &'a Json, path: &[&str]) -> &'a Json {
    let mut at = value;
    for key in path {
        at = at.get(key).unwrap();
    }
    at
}

#[test]
fn thinking_block_becomes_reasoning_content() {
    let msg = anthropic::Message {
        role: "assistant".to_string(),
        content: anthropic::MessageContent::Blocks(vec![
            anthropic::ContentBlock::Thinking {
                thinking: "I should preserve this".to_string(),
            },
            anthropic::ContentBlock::Text {
                text: "Answer".to_string(),
                cache_control: None,
            },
        ]),
    };

    let translated = translate_message(msg).unwrap();

    assert_eq!(translated.len(), 1);
    assert_eq!(
        translated[0].reasoning_content.as_deref(),
        Some("I should preserve this")
    );
    assert!(matches!(
        translated[0].content,
        Some(openai::MessageContent::Text(_))
    ));
}

#[test]
fn thinking_only_block_still_becomes_assistant_message() {
    let msg = anthropic::Message {
        role: "assistant".to_string(),
        content: anthropic::MessageContent::Blocks(vec![anthropic::ContentBlock::Thinking {
            thinking: "hidden chain".to_string(),
        }]),
    };

    let translated = translate_message(msg).unwrap();

    assert_eq!(translated.len(), 1);
    assert!(translated[0].content.is_none());
    assert_eq!(
        translated[0].reasoning_content.as_deref(),
        Some("hidden chain")
    );
}

#[test]
fn normalize_schema_adds_empty_required_to_object_schemas() {
    let schema = json(r#"{
        "type": "object",
        "properties": {
            "prompt": { "type": "string", "format": "uri" }
        }
    }"#);

    let cleaned = normalize_schema(schema);

    assert_eq!(*member(&cleaned, &["required"]), json(r#"[]"#));
    assert!(member(&cleaned, &["properties", "prompt"]).get("format").is_none());
}

#[test]
fn normalize_schema_normalizes_non_array_required() {
    let schema = json(r#"{ "type": "object", "required": null }"#);
    let cleaned = normalize_schema(schema);
    assert_eq!(*member(&cleaned, &["required"]), json(r#"[]"#));
}

#[test]
fn normalize_schema_recursively_processes_all_of() {
    let schema = json(r#"{
        "allOf": [
            { "type": "object", "properties": { "a": { "type": "string", "format": "uri" } } },
            { "type": "object", "properties": { "b": { "type": "integer" } } }
        ]
    }"#);

    let cleaned = normalize_schema(schema);

    let all_of = member(&cleaned, &["allOf"]);
    assert!(member(all_of.at(0).unwrap(), &["properties", "a"])
        .get("format")
        .is_none());
    assert_eq!(*member(all_of.at(0).unwrap(), &["required"]), json(r#"[]"#));
    assert_eq!(*member(all_of.at(1).unwrap(), &["required"]), json(r#"[]"#));
}

#[test]
fn normalize_schema_removes_null_values() {
    let schema = json(r#"{
        "type": "object",
        "description": null,
        "properties": { "a": { "type": "string" } }
    }"#);

    let cleaned = normalize_schema(schema);
    assert!(cleaned.get("description").is_none());
}

#[test]
fn remove_term_case_insensitive_with_flexible_whitespace() {
    let result = remove_term("Avoid destructive operations such as RM\t-rF.", "rm -rf");
    assert_eq!(result, "Avoid destructive operations such as .");
}

#[test]
fn remove_term_respects_word_boundaries() {
    let result = remove_term("farm -rf should not match rm -rf", "rm -rf");
    assert_eq!(result, "farm -rf should not match ");
}

#[test]
fn map_stop_reason_translates_all_known_reasons() {
    assert_eq!(map_stop_reason(Some("stop")), Some("end_turn".to_string()));
    assert_eq!(
        map_stop_reason(Some("tool_calls")),
        Some("tool_use".to_string())
    );
    assert_eq!(
        map_stop_reason(Some("length")),
        Some("max_tokens".to_string())
    );
    assert_eq!(
        map_stop_reason(Some("content_filter")),
        Some("refusal".to_string())
    );
    assert_eq!(
        map_stop_reason(Some("unknown")),
        Some("end_turn".to_string())
    );
    assert_eq!(map_stop_reason(None), None);
}

#[test]
fn translate_tool_choice_maps_simple_variants() {
    assert_eq!(
        translate_tool_choice(&json(r#"{"type": "auto"}"#)),
        (Some(json(r#""auto""#)), None)
    );
    assert_eq!(
        translate_tool_choice(&json(r#"{"type": "any"}"#)),
        (Some(json(r#""required""#)), None)
    );
    assert_eq!(
        translate_tool_choice(&json(r#"{"type": "none"}"#)),
        (Some(json(r#""none""#)), None)
    );
}

#[test]
fn translate_tool_choice_maps_specific_tool() {
    let (choice, parallel) = translate_tool_choice(&json(r#"{"type": "tool", "name": "search"}"#));
    assert_eq!(
        choice.unwrap().to_text(),
        json(r#"{"type": "function", "function": {"name": "search"}}"#).to_text()
    );
    assert_eq!(parallel, None);
}

#[test]
fn translate_tool_choice_inverts_disable_parallel() {
    let (choice, parallel) =
        translate_tool_choice(&json(r#"{"type": "any", "disable_parallel_tool_use": true}"#));
    assert_eq!(choice, Some(json(r#""required""#)));
    assert_eq!(parallel, Some(false));
}

#[test]
fn translate_tool_choice_ignores_unknown_shapes() {
    assert_eq!(translate_tool_choice(&json(r#""auto""#)), (None, None));
    assert_eq!(
        translate_tool_choice(&json(r#"{"type": "tool"}"#)),
        (None, None)
    );
}

#[test]
fn clamp_reduces_max_tokens_to_fit_context() {
    // The real deadlock: 88737 input + 16384 output = 105121 > 105120.
    let msg = "This model's maximum context length is 105120 tokens. However, you \
               requested 16384 output tokens and your prompt contains at least 88737 \
               input tokens, for a total of at least 105121 tokens.";
    // margin = max(105120/200, 256) = 525; available = 105120 - 88737 - 525 = 15858
    let clamped = clamp_max_tokens_for_overflow(Some(16384), msg).unwrap();
    assert_eq!(clamped, 15858);
    // The retry must fit even if the real input is somewhat higher than reported.
    assert!(88737 + clamped <= 105120);
}

#[test]
fn clamp_absorbs_underreported_input() {
    // Reproduces the field failure: first error under-reports input as 88737, but the
    // real input is 88802. The generous margin must still keep the retry under the cap.
    let msg =
        "maximum context length is 105120 tokens ... contains at least 88737 input tokens";
    let clamped = clamp_max_tokens_for_overflow(Some(16384), msg).unwrap();
    assert!(88802 + clamped <= 105120, "clamped={clamped}");
}

#[test]
fn clamp_none_when_prompt_alone_exceeds_window() {
    let msg = "This model's maximum context length is 1000 tokens and your prompt \
               contains at least 1200 input tokens.";
    assert_eq!(clamp_max_tokens_for_overflow(Some(500), msg), None);
}

#[test]
fn clamp_none_for_unrelated_errors() {
    assert_eq!(
        clamp_max_tokens_for_overflow(Some(16384), "invalid api key"),
        None
    );
}

#[test]
fn clamp_none_when_available_not_smaller_than_current() {
    // Plenty of room — no need to clamp a small request.
    let msg = "maximum context length is 105120 tokens; contains at least 1000 input tokens";
    assert_eq!(clamp_max_tokens_for_overflow(Some(8000), msg), None);
}

#[test]
fn clamp_parses_input_via_trailing_fallback() {
    // No "contains at least" phrasing — fall back to "<n> input tokens".
    // margin = max(200000/200, 256) = 1000; available = 200000 - 100000 - 1000 = 99000
    let msg = "maximum context length is 200000 tokens, but you have 100000 input tokens";
    assert_eq!(
        clamp_max_tokens_for_overflow(Some(150000), msg),
        Some(99000)
    );
}

#[test]
fn batch_tool_detected() {
    let tool = anthropic::Tool {
        name: "x".into(),
        description: None,
        input_schema: json(r#"{}"#),
        tool_type: Some("BatchTool".into()),
    };
    assert!(is_batch_tool(&tool));
}

#[test]
fn regular_tool_not_batch() {
    let tool = anthropic::Tool {
        name: "x".into(),
        description: None,
        input_schema: json(r#"{}"#),
        tool_type: None,
    };
    assert!(!is_batch_tool(&tool));
}

#[test]
fn normal_schemas_stay_as_they_are() {
    let schema = json(
        r#"{"type": "object", "properties": {"a": {"type": ["string"], "anyOf": [{"format": "uri"}]}},
           "items": [{"type": "object"}], "required": ["a"]}"#,
    );
    let once = normalize_schema(schema);
    let text = once.to_text();
    assert_eq!(normalize_schema(once).to_text(), text);
}

#[test]
fn other_text_is_kept() {
    assert_eq!(remove_term("a rm -rf b", ""), "a rm -rf b");
    assert_eq!(remove_term("nothing here", "rm -rf"), "nothing here");
    assert_eq!(remove_term("é sudo é", "SUDO"), "é  é");
    assert_eq!(remove_term("sudoers", "sudo"), "sudoers");
}

#[test]
fn clamping_a_missing_limit_still_fits() {
    let msg = "maximum context length is 100000 tokens; contains at least 90000 input tokens";
    assert_eq!(clamp_max_tokens_for_overflow(None, msg), Some(9500));
    assert_eq!(clamp_max_tokens_for_overflow(Some(9500), msg), None);
}

#[test]
fn prompt_tokens_are_split() {
    let mut usage = openai::Usage {
        prompt_tokens: 100,
        completion_tokens: 1,
        total_tokens: 101,
        prompt_tokens_details: None,
    };
    assert_eq!(split_prompt_tokens(&usage), (100, None));
    usage.prompt_tokens_details = Some(openai::PromptTokensDetails { cached_tokens: 80 });
    assert_eq!(split_prompt_tokens(&usage), (20, Some(80)));
    usage.prompt_tokens_details = Some(openai::PromptTokensDetails { cached_tokens: 180 });
    assert_eq!(split_prompt_tokens(&usage), (0, Some(180)));
}

#[test]
fn tool_results_come_first_and_are_answered() {
    let msg = anthropic::Message {
        role: "user".to_string(),
        content: anthropic::MessageContent::Blocks(vec![
            anthropic::ContentBlock::Text {
                text: "look".to_string(),
                cache_control: None,
            },
            anthropic::ContentBlock::ToolResult {
                tool_use_id: "t1".to_string(),
                content: anthropic::ToolResultContent::Blocks(vec![
                    anthropic::ContentBlock::Text {
                        text: "a".to_string(),
                        cache_control: None,
                    },
                    anthropic::ContentBlock::Text {
                        text: "b".to_string(),
                        cache_control: None,
                    },
                ]),
                is_error: Some(false),
            },
            anthropic::ContentBlock::Image {
                source: anthropic::ImageSource {
                    source_type: "base64".to_string(),
                    media_type: "image/png".to_string(),
                    data: "AAAA".to_string(),
                },
            },
        ]),
    };
    let sent = translate_message(msg).unwrap();
    assert_eq!(sent.len(), 2);
    assert_eq!(sent[0].role, "tool");
    assert_eq!(sent[0].tool_call_id.as_deref(), Some("t1"));
    assert_eq!(
        sent[0].content,
        Some(openai::MessageContent::Text("a\nb".to_string()))
    );
    assert_eq!(sent[1].role, "user");
    match &sent[1].content {
        Some(openai::MessageContent::Parts(parts)) => assert_eq!(
            parts[1],
            openai::ContentPart::ImageUrl {
                image_url: openai::ImageUrl {
                    url: "data:image/png;base64,AAAA".to_string()
                }
            }
        ),
        _ => panic!("expected parts"),
    }
}

#[test]
fn tool_uses_are_sent_as_calls() {
    let msg = anthropic::Message {
        role: "assistant".to_string(),
        content: anthropic::MessageContent::Blocks(vec![anthropic::ContentBlock::ToolUse {
            id: "t1".to_string(),
            name: "Bash".to_string(),
            input: json(r#"{"command": "ls"}"#),
        }]),
    };
    let sent = translate_message(msg).unwrap();
    let calls = sent[0].tool_calls.as_ref().unwrap();
    assert!(sent[0].content.is_none());
    assert_eq!(calls[0].id, "t1");
    assert_eq!(calls[0].function.arguments, "{\"command\":\"ls\"}");
}

#[test]
fn tools_become_functions() {
    let tool = translate_tool(anthropic::Tool {
        name: "Read".to_string(),
        description: Some("Reads.".to_string()),
        input_schema: json(r#"{"type": "object", "properties": {}}"#),
        tool_type: None,
    });
    assert_eq!(tool.tool_type, "function");
    assert_eq!(tool.function.name, "Read");
    assert_eq!(tool.function.parameters.get("required").unwrap().to_text(), "[]");
}
