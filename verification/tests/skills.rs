use anthropic_proxy::config::Config;
use anthropic_proxy::json::Json;
use anthropic_proxy::models::{anthropic, openai};
use anthropic_proxy::skills::agent::{
    closing_frames, docs_search, enabled, inject_tools, is_proxy_tool, job_for, message_value,
    read_docs_answer, recall_skills, render_block_events, search_docs, search_docs_failed,
    strip_proxy_tools, Job, Recalled, SkillsAgent, Step, MAX_ROUNDS,
};
use anthropic_proxy::skills::docs::{
    is_fresh, libraries, list_request, matched_libraries, relevant_docs,
};
use anthropic_proxy::skills::embed::embed_request;
use anthropic_proxy::skills::inject::{
    background_api_key, fresh_user_query, inject, inject_docs, inject_facts, remember_api_key,
    wants_skills, RetrievedSkill,
};
use anthropic_proxy::skills::store::{
    id_as_u64, numbered_points, point_id_string, stable_id, QdrantClient, SkillPayload,
};
use std::hash::{DefaultHasher, Hash, Hasher};

fn json(text: &str) -> Json {
    Json::parse(text).unwrap()
}

fn request(messages: Vec<(&str, &str)>) -> anthropic::AnthropicRequest {
    anthropic::AnthropicRequest {
        model: "m".to_string(),
        max_tokens: 64,
        messages: messages
            .into_iter()
            .map(|(role, text)| anthropic::Message {
                role: role.to_string(),
                content: anthropic::MessageContent::Text(text.to_string()),
            })
            .collect(),
        system: None,
        tools: None,
    }
}

fn system_texts(req: &anthropic::AnthropicRequest) -> Vec<String> {
    match &req.system {
        Some(anthropic::SystemPrompt::Multiple(v)) => v.iter().map(|m| m.text.clone()).collect(),
        _ => panic!("expected blocks"),
    }
}

#[test]
fn skills_follow_the_prompt_of_the_client() {
    let mut req = request(vec![("user", "hi")]);
    req.system = Some(anthropic::SystemPrompt::Single("Be brief.".to_string()));
    assert!(inject(&mut req, &vec![]).is_empty());
    let ids = inject(
        &mut req,
        &vec![RetrievedSkill {
            id: "7".to_string(),
            title: "Locks".to_string(),
            body: "Hold them briefly.".to_string(),
        }],
    );
    assert_eq!(ids, ["7"]);
    let texts = system_texts(&req);
    assert_eq!(texts.len(), 2);
    assert_eq!(texts[0], "Be brief.");
    assert!(texts[1].starts_with("# Auto-injected learned knowledge\n"));
    assert!(texts[1].ends_with("\n## Locks\nHold them briefly.\n"));
}

#[test]
fn blank_documents_are_not_injected() {
    let mut req = request(vec![("user", "hi")]);
    inject_docs(&mut req, " \n");
    inject_facts(&mut req, "");
    assert!(req.system.is_none());
    inject_docs(&mut req, "serde docs");
    inject_facts(&mut req, "Rust is at 1.90");
    let texts = system_texts(&req);
    assert!(texts[0].starts_with("# Library documentation"));
    assert!(texts[0].ends_with("\n\nserde docs"));
    assert!(texts[1].starts_with("# Current facts"));
}

#[test]
fn only_a_fresh_user_turn_is_a_query() {
    assert_eq!(
        fresh_user_query(&request(vec![("user", "  why? ")])).as_deref(),
        Some("why?")
    );
    assert_eq!(fresh_user_query(&request(vec![("assistant", "so")])), None);
    assert_eq!(fresh_user_query(&request(vec![("user", " ")])), None);
    assert_eq!(fresh_user_query(&request(vec![])), None);
    let mut req = request(vec![("user", "x")]);
    req.messages[0].content =
        anthropic::MessageContent::Blocks(vec![anthropic::ContentBlock::ToolResult {
            tool_use_id: "t".to_string(),
            content: anthropic::ToolResultContent::Text("done".to_string()),
            is_error: None,
        }]);
    assert_eq!(fresh_user_query(&req), None);
}

#[test]
fn keys_are_remembered_for_the_background() {
    let mut remembered = None;
    remember_api_key(&mut remembered, Some(""));
    assert_eq!(remembered, None);
    remember_api_key(&mut remembered, Some("k1"));
    remember_api_key(&mut remembered, None);
    let mut config = Config::default();
    assert_eq!(background_api_key(&config, &remembered).as_deref(), Some("k1"));
    config.skills.api_key = Some("own".to_string());
    assert_eq!(background_api_key(&config, &remembered).as_deref(), Some("own"));
}

#[test]
fn skills_are_wanted_for_questions() {
    let mut config = Config::default();
    assert!(!wants_skills(&config, "why?"));
    config.skills.enabled = true;
    assert!(wants_skills(&config, "why?"));
    assert!(!wants_skills(&config, "  "));
    assert!(!enabled(&config));
    config.skills.tools = true;
    assert!(enabled(&config));
}

fn chat() -> openai::OpenAIRequest {
    openai::OpenAIRequest {
        model: "m".to_string(),
        messages: vec![openai::Message::plain("user", "hi")],
        max_tokens: Some(100),
        stream: Some(true),
        stream_options: None,
        tools: None,
        tool_choice: None,
        parallel_tool_calls: None,
        reasoning_effort: None,
    }
}

fn tool_names(req: &openai::OpenAIRequest) -> Vec<String> {
    match &req.tools {
        Some(tools) => tools.iter().map(|t| t.function.name.clone()).collect(),
        None => vec![],
    }
}

#[test]
fn tools_of_the_proxy_come_and_go() {
    let mut config = Config::default();
    let mut req = chat();
    inject_tools(&config, &mut req);
    assert_eq!(tool_names(&req), ["recall_skills"]);
    config.skills.docs_mcp_url = Some("http://docs".to_string());
    let mut req = chat();
    inject_tools(&config, &mut req);
    assert_eq!(tool_names(&req), ["recall_skills", "search_docs"]);
    assert!(is_proxy_tool("search_docs"));
    assert!(!is_proxy_tool("Bash"));
    strip_proxy_tools(&mut req);
    assert!(tool_names(&req).is_empty());
}

fn response(content: Option<&str>, calls: Vec<(&str, &str)>) -> openai::OpenAIResponse {
    openai::OpenAIResponse {
        model: Some("qwen".to_string()),
        choices: vec![openai::Choice {
            message: openai::ResponseMessage {
                content: content.map(str::to_string),
                reasoning_content: None,
                tool_calls: if calls.is_empty() {
                    None
                } else {
                    Some(
                        calls
                            .into_iter()
                            .map(|(id, name)| openai::ToolCall {
                                id: id.to_string(),
                                call_type: "function".to_string(),
                                function: openai::FunctionCall {
                                    name: name.to_string(),
                                    arguments: "{\"query\":\"q\"}".to_string(),
                                },
                            })
                            .collect(),
                    )
                },
            },
            finish_reason: Some("stop".to_string()),
        }],
        usage: openai::Usage {
            prompt_tokens: 3,
            completion_tokens: 2,
            total_tokens: 5,
            prompt_tokens_details: None,
        },
    }
}

#[test]
fn a_run_recalls_and_then_answers() {
    let config = Config::default();
    let mut req = chat();
    inject_tools(&config, &mut req);
    let mut agent = SkillsAgent::begin(req);
    let calls = match agent.on_response(response(None, vec![("c1", "recall_skills")])) {
        Step::Run(calls) => calls,
        _ => panic!("expected calls"),
    };
    assert_eq!(calls.len(), 1);
    agent.on_results(&calls, &vec!["nothing".to_string()]);
    let next = agent.round_request();
    let last = next.messages.last().unwrap();
    assert_eq!(last.role, "tool");
    assert_eq!(last.tool_call_id.as_deref(), Some("c1"));
    assert!(matches!(
        agent.on_response(response(Some("Answer."), vec![])),
        Step::Done
    ));
    let out = agent.finish();
    let message = message_value("msg_1", &out);
    assert!(message.str_is("model", "qwen"));
    assert!(message.str_is("stop_reason", "end_turn"));
    assert!(message.get("content").unwrap().at(0).unwrap().str_is("text", "Answer."));
    let frames = closing_frames(&out);
    assert!(frames[0].starts_with("event: content_block_start\n"));
    assert!(frames.last().unwrap().starts_with("event: message_stop\n"));
}

#[test]
fn the_last_round_has_no_tools_of_the_proxy() {
    let config = Config::default();
    let mut req = chat();
    inject_tools(&config, &mut req);
    let mut agent = SkillsAgent::begin(req);
    for _ in 0..MAX_ROUNDS - 1 {
        assert_eq!(tool_names(&agent.round_request()), ["recall_skills"]);
        match agent.on_response(response(None, vec![("c", "recall_skills")])) {
            Step::Run(calls) => agent.on_results(&calls, &vec!["x".to_string()]),
            _ => panic!("expected calls"),
        }
    }
    assert!(tool_names(&agent.round_request()).is_empty());
    // A call of a tool that it was not given is run all the same, but nothing is asked after.
    match agent.on_response(response(Some("Hm."), vec![("c", "recall_skills")])) {
        Step::Run(calls) => agent.on_results(&calls, &vec!["x".to_string()]),
        _ => panic!("expected calls"),
    }
    assert!(agent.next_request().is_none());
    let out = agent.finish();
    assert_eq!(out.stop_reason, "end_turn");
    assert!(out.blocks.is_empty());
}

#[test]
fn a_spent_budget_takes_the_tools_away() {
    let config = Config::default();
    let mut req = chat();
    inject_tools(&config, &mut req);
    let mut agent = SkillsAgent::begin(req);
    let calls = (0..6).map(|_| ("c", "recall_skills")).collect();
    let calls = match agent.on_response(response(None, calls)) {
        Step::Run(calls) => calls,
        _ => panic!("expected calls"),
    };
    agent.on_results(&calls, &vec!["x".to_string(); 6]);
    assert!(agent.must_answer());
    assert!(tool_names(&agent.next_request().unwrap()).is_empty());
    match agent.on_response(response(None, vec![("c", "search_docs")])) {
        Step::Run(calls) => agent.on_results(&calls, &vec!["x".to_string()]),
        _ => panic!("expected calls"),
    }
    assert_eq!(agent.uses, 7);
    assert!(agent.next_request().is_some());
    let step = agent.on_response(response(Some("So."), vec![]));
    assert!(matches!(step, Step::Done));
    assert!(agent.next_request().is_none());
    let out = agent.finish();
    assert_eq!(out.blocks.len(), 1);
    assert!(out.blocks[0].str_is("text", "So."));
}

#[test]
fn the_client_is_not_shown_calls_of_the_proxy() {
    let mut agent = SkillsAgent::begin(chat());
    let calls = vec![("c1", "recall_skills"), ("c2", "Bash"), ("c3", "search_docs")];
    let step = agent.on_response(response(None, calls));
    assert!(matches!(step, Step::Done));
    assert!(agent.over);
    let out = agent.finish();
    assert_eq!(out.stop_reason, "tool_use");
    assert_eq!(out.blocks.len(), 1);
    assert!(out.blocks[0].str_is("type", "tool_use"));
    assert!(out.blocks[0].str_is("id", "c2"));
    assert!(out.blocks[0].str_is("name", "Bash"));
    let mut agent = SkillsAgent::begin(chat());
    assert!(agent.next_request().is_some());
    assert!(matches!(agent.on_response(response(None, vec![])), Step::Done));
    assert!(agent.finish().blocks.is_empty());
}

#[test]
fn a_response_without_choices_fails() {
    let mut agent = SkillsAgent::begin(chat());
    let mut empty = response(None, vec![]);
    empty.choices = vec![];
    assert!(matches!(agent.on_response(empty), Step::Failed(_)));
}

#[test]
fn rendered_blocks_are_started_and_stopped() {
    let frames = render_block_events(&vec![
        json(r#"{"type": "thinking", "thinking": "hm"}"#),
        json(r#"{"type": "tool_use", "id": "t", "name": "Bash", "input": {"a": 1}}"#),
    ]);
    assert_eq!(frames.len(), 6);
    assert!(frames[1].contains("\"thinking_delta\""));
    assert!(frames[4].contains("{\\\"a\\\":1}"));
    assert!(frames[5].starts_with("event: content_block_stop\n"));
}

#[test]
fn calls_become_jobs() {
    let query = json(r#"{"query": "q", "library": "serde"}"#);
    assert!(matches!(job_for("recall_skills", &query, false), Job::Recall { query } if query == "q"));
    assert!(matches!(
        job_for("search_docs", &query, true),
        Job::Docs { library, .. } if library == "serde"
    ));
    let reply = |name: &str, args: &str, docs: bool| match job_for(name, &json(args), docs) {
        Job::Reply(text) => text,
        _ => panic!("expected a reply"),
    };
    assert_eq!(reply("recall_skills", "{}", true), "No query provided.");
    assert_eq!(reply("search_docs", "{}", false), "Docs search not configured.");
    assert_eq!(
        reply("search_docs", "{\"query\":\"q\"}", true),
        "Provide both 'library' and 'query'."
    );
    assert_eq!(reply("rm", "{}", true), "Unknown tool: rm");
}

#[test]
fn recalled_skills_are_listed() {
    assert_eq!(
        recall_skills(&None),
        "Skill recall unavailable (embedding failed)."
    );
    assert_eq!(recall_skills(&Some(vec![])), "No relevant learned skills found.");
    let one = Recalled {
        title: "T".to_string(),
        body: "B".to_string(),
    };
    assert_eq!(recall_skills(&Some(vec![one])), "1. T — B");
}

#[test]
fn documentation_is_read_from_the_answer() {
    let body = "data: {\"result\":{\"content\":[{\"text\":\"use it\"}]}}\n\n";
    assert_eq!(read_docs_answer(body).as_deref(), Some("use it"));
    assert_eq!(search_docs(body), "use it");
    let member = "{\"result\":{\"content\":{\"0\":{\"text\":\"by name\"}}}}";
    assert_eq!(read_docs_answer(member).as_deref(), Some("by name"));
    assert_eq!(search_docs("nothing"), "No documentation found.");
    assert_eq!(search_docs_failed("down"), "Docs search failed: down");
    let asked = docs_search("serde", "derive", 5);
    let params = asked.get("params").unwrap();
    assert!(params.str_is("name", "search_docs"));
    assert!(params.get("arguments").unwrap().str_is("library", "serde"));
}

#[test]
fn libraries_are_found_in_a_question() {
    let libs = libraries("Known:\n- serde\n  - Tokio \n- ab\n-\n- Straße\n");
    assert_eq!(libs, ["serde", "Tokio", "ab", "Straße"]);
    assert_eq!(matched_libraries(&libs, "Why does TOKIO block?"), ["Tokio"]);
    assert_eq!(matched_libraries(&libs, "ab or serde_json"), Vec::<String>::new());
    assert_eq!(
        matched_libraries(&libs, "STRASSE, straße, serde; tokio!"),
        ["serde", "Tokio"]
    );
    assert_eq!(matched_libraries(&libs, "STRAẞE"), ["Straße"]);
    assert!(is_fresh(10, 300_009));
    assert!(!is_fresh(10, 300_010));
    assert!(list_request().get("params").unwrap().str_is("name", "list_libraries"));
}

#[test]
fn found_documentation_is_shown() {
    let libs = vec!["a".to_string(), "b".to_string()];
    assert_eq!(relevant_docs(&libs, &vec![None, None]), None);
    assert_eq!(
        relevant_docs(&libs, &vec![None, Some("text".to_string())]).as_deref(),
        Some("## b\ntext\n\n")
    );
}

#[test]
fn embeddings_need_a_model_and_an_endpoint() {
    assert!(embed_request("", Some("u".to_string()), "x").is_none());
    assert!(embed_request("m", None, "x").is_none());
    let long = "é".repeat(3_000);
    let (url, body) = embed_request("m", Some("u".to_string()), &long).unwrap();
    assert_eq!(url, "u");
    assert_eq!(body.str_or_empty("input").chars().count(), 2_000);
}

#[test]
fn the_store_is_addressed() {
    let store = QdrantClient::new("http://q:6333/", "skills");
    let (url, body) = store.search(json("[1]"), 4, json("0.5"), &vec!["trusted".to_string()]);
    assert_eq!(url, "http://q:6333/collections/skills/points/search");
    assert_eq!(
        body.to_text(),
        json(
            r#"{"vector": [1], "limit": 4, "with_payload": true, "score_threshold": 0.5,
               "filter": {"should": [{"key": "tier", "match": {"value": "trusted"}}]}}"#
        )
        .to_text()
    );
    let (_, open) = store.search(json("[1]"), 4, json("0.5"), &vec![]);
    assert!(open.get("filter").is_none());
    let (url, raw) = store.search_raw(json("[1]"), 4, json("0.5"), &vec![], true);
    assert_eq!(url, "http://q:6333/collections/skills/points/search");
    assert_eq!(
        raw.to_text(),
        json(
            r#"{"vector": [1], "limit": 4, "with_payload": true, "score_threshold": 0.5,
               "with_vector": true}"#
        )
        .to_text()
    );
    let (url, body) = store.scroll_all_with_vectors(500);
    assert_eq!(url, "http://q:6333/collections/skills/points/scroll");
    assert_eq!(
        body.to_text(),
        json(r#"{"limit": 500, "with_payload": true, "with_vector": true}"#).to_text()
    );
    let (url, body) = store.scroll_tier("candidate", 20);
    assert_eq!(url, "http://q:6333/collections/skills/points/scroll");
    assert!(body.get("filter").unwrap().get("must").is_some());
    let (url, body) = store.set_payload(5, json("{\"tier\":\"x\"}"));
    assert_eq!(url, "http://q:6333/collections/skills/points/payload?wait=true");
    assert_eq!(body.to_text(), "{\"payload\":{\"tier\":\"x\"},\"points\":[5]}");
    let (url, body) = store.delete(5);
    assert_eq!(url, "http://q:6333/collections/skills/points/delete?wait=true");
    assert_eq!(body.to_text(), "{\"points\":[5]}");
    let (url, body) = store.ensure_collection(3);
    assert_eq!(url, "http://q:6333/collections/skills");
    assert_eq!(
        body.to_text(),
        json(r#"{"vectors": {"size": 3, "distance": "Cosine"}}"#).to_text()
    );
    let (url, body) = store.upsert(5, json("[1]"), json("{}"));
    assert_eq!(url, "http://q:6333/collections/skills/points?wait=true");
    assert_eq!(
        body.to_text(),
        json(r#"{"points": [{"id": 5, "vector": [1], "payload": {}}]}"#).to_text()
    );
}

#[test]
fn points_are_known_by_numbers() {
    assert_eq!(id_as_u64(&json("18446744073709551615")), Some(u64::MAX));
    assert_eq!(id_as_u64(&json("\"42\"")), Some(42));
    assert_eq!(id_as_u64(&json("-1")), None);
    assert_eq!(id_as_u64(&json("\"x\"")), None);
    assert_eq!(point_id_string(&json("7")), "7");
    assert_eq!(point_id_string(&json("\"u-1\"")), "u-1");
    let points = vec![
        (json("1"), SkillPayload::default()),
        (json("\"u\""), SkillPayload::default()),
        (json("3"), SkillPayload::default()),
    ];
    let ids: Vec<u64> = numbered_points(points).into_iter().map(|p| p.0).collect();
    assert_eq!(ids, [1, 3]);
}

#[test]
fn identifiers_are_stable() {
    let mut hasher = DefaultHasher::new();
    "hold locks briefly".hash(&mut hasher);
    assert_eq!(stable_id("hold locks briefly"), hasher.finish());
    assert_ne!(stable_id("a"), stable_id("b"));
}
