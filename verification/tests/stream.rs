use anthropic_proxy::models::anthropic::{ContentBlockStart, Delta, StreamEvent};
use anthropic_proxy::models::openai;
use anthropic_proxy::translate::stream::{
    has_room, initial_state, translate_chunk, translate_done, translate_error,
};

fn silence() -> openai::ChunkDelta {
    openai::ChunkDelta {
        content: None,
        reasoning: None,
        reasoning_content: None,
        tool_calls: None,
    }
}

fn chunk_of(
    id: &str,
    model: &str,
    delta: openai::ChunkDelta,
    finish_reason: Option<&str>,
) -> openai::StreamChunk {
    openai::StreamChunk {
        id: Some(id.to_string()),
        model: Some(model.to_string()),
        choices: vec![openai::StreamChoice {
            delta,
            finish_reason: finish_reason.map(|r| r.to_string()),
        }],
        usage: None,
    }
}

fn text_chunk(id: &str, model: &str, content: &str) -> openai::StreamChunk {
    let delta = openai::ChunkDelta {
        content: Some(content.to_string()),
        ..silence()
    };
    chunk_of(id, model, delta, None)
}

fn reasoning_chunk(id: &str, model: &str, reasoning: &str) -> openai::StreamChunk {
    let delta = openai::ChunkDelta {
        reasoning: Some(reasoning.to_string()),
        ..silence()
    };
    chunk_of(id, model, delta, None)
}

fn reasoning_content_chunk(id: &str, model: &str, reasoning: &str) -> openai::StreamChunk {
    let delta = openai::ChunkDelta {
        reasoning_content: Some(reasoning.to_string()),
        ..silence()
    };
    chunk_of(id, model, delta, None)
}

fn finish_chunk(id: &str, model: &str, reason: &str) -> openai::StreamChunk {
    chunk_of(id, model, silence(), Some(reason))
}

fn usage(prompt_tokens: u32, completion_tokens: u32) -> openai::Usage {
    openai::Usage {
        prompt_tokens,
        completion_tokens,
        total_tokens: prompt_tokens + completion_tokens,
        prompt_tokens_details: None,
    }
}

fn finish_chunk_with_usage(
    id: &str,
    model: &str,
    reason: &str,
    prompt_tokens: u32,
    completion_tokens: u32,
) -> openai::StreamChunk {
    openai::StreamChunk {
        usage: Some(usage(prompt_tokens, completion_tokens)),
        ..finish_chunk(id, model, reason)
    }
}

fn tool_chunk(id: &str, model: &str, call: openai::DeltaToolCall) -> openai::StreamChunk {
    let delta = openai::ChunkDelta {
        tool_calls: Some(vec![call]),
        ..silence()
    };
    chunk_of(id, model, delta, None)
}

fn tool_start_chunk(id: &str, model: &str, tool_id: &str, name: &str) -> openai::StreamChunk {
    let call = openai::DeltaToolCall {
        id: Some(tool_id.to_string()),
        function: Some(openai::DeltaFunction {
            name: Some(name.to_string()),
            arguments: None,
        }),
    };
    tool_chunk(id, model, call)
}

fn tool_args_chunk(id: &str, model: &str, args: &str) -> openai::StreamChunk {
    let call = openai::DeltaToolCall {
        id: None,
        function: Some(openai::DeltaFunction {
            name: None,
            arguments: Some(args.to_string()),
        }),
    };
    tool_chunk(id, model, call)
}

fn event_types(events: &[StreamEvent]) -> Vec<&str> {
    events.iter().map(|e| e.event_type()).collect()
}

#[test]
fn text_stream_produces_correct_event_sequence() {
    let mut state = initial_state("fallback".into(), 0);

    let e1 = translate_chunk(&mut state, &text_chunk("1", "gpt-4o", "Hello"));
    assert_eq!(
        event_types(&e1),
        [
            "message_start",
            "content_block_start",
            "content_block_delta"
        ]
    );

    let e2 = translate_chunk(&mut state, &text_chunk("1", "gpt-4o", " world"));
    assert_eq!(event_types(&e2), ["content_block_delta"]);

    // finish_reason closes the block; the message_delta is deferred to stream end so
    // it can carry the real usage (which arrives in a later frame).
    let e3 = translate_chunk(&mut state, &finish_chunk("1", "gpt-4o", "stop"));
    assert_eq!(event_types(&e3), ["content_block_stop"]);

    let e4 = translate_done(&mut state);
    assert_eq!(event_types(&e4), ["message_delta", "message_stop"]);
}

#[test]
fn thinking_then_text_produces_two_blocks() {
    let mut state = initial_state("fallback".into(), 0);

    let e1 = translate_chunk(&mut state, &reasoning_chunk("1", "gpt-4o", "Let me think"));
    assert_eq!(
        event_types(&e1),
        [
            "message_start",
            "content_block_start",
            "content_block_delta"
        ]
    );

    let e2 = translate_chunk(&mut state, &text_chunk("1", "gpt-4o", "Answer: 42"));
    assert_eq!(
        event_types(&e2),
        [
            "content_block_stop",
            "content_block_start",
            "content_block_delta"
        ]
    );

    if let StreamEvent::ContentBlockStart { index, .. } = &e2[1] {
        assert_eq!(*index, 1);
    }
}

#[test]
fn reasoning_content_produces_thinking_block() {
    let mut state = initial_state("fallback".into(), 0);

    let events = translate_chunk(&mut state, &reasoning_content_chunk("1", "gpt-4o", "Think"));

    assert_eq!(
        event_types(&events),
        [
            "message_start",
            "content_block_start",
            "content_block_delta"
        ]
    );
    if let StreamEvent::ContentBlockDelta { delta, .. } = &events[2] {
        assert!(matches!(delta, Delta::ThinkingDelta { thinking } if thinking == "Think"));
    }
}

#[test]
fn tool_call_stream() {
    let mut state = initial_state("fallback".into(), 0);

    let e1 = translate_chunk(
        &mut state,
        &tool_start_chunk("1", "gpt-4o", "call_abc", "read_file"),
    );
    assert_eq!(event_types(&e1), ["message_start", "content_block_start"]);

    if let StreamEvent::ContentBlockStart { content_block, .. } = &e1[1] {
        match content_block {
            ContentBlockStart::ToolUse { id, name } => {
                assert_eq!(id, "call_abc");
                assert_eq!(name, "read_file");
            }
            _ => panic!("expected tool_use block"),
        }
    }

    let e2 = translate_chunk(
        &mut state,
        &tool_args_chunk("1", "gpt-4o", "{\"path\":\"/tmp\"}"),
    );
    assert_eq!(event_types(&e2), ["content_block_delta"]);

    let e3 = translate_chunk(&mut state, &finish_chunk("1", "gpt-4o", "tool_calls"));
    assert_eq!(event_types(&e3), ["content_block_stop"]);

    let e4 = translate_done(&mut state);
    assert_eq!(event_types(&e4), ["message_delta", "message_stop"]);
    if let StreamEvent::MessageDelta { delta, .. } = &e4[0] {
        assert_eq!(delta.stop_reason.as_deref(), Some("tool_use"));
    }
}

#[test]
fn finish_chunk_maps_cached_tokens_to_cache_read() {
    let mut state = initial_state("fallback".into(), 0);
    translate_chunk(&mut state, &text_chunk("1", "gpt-4o", "hi"));

    let chunk = openai::StreamChunk {
        usage: Some(openai::Usage {
            prompt_tokens: 100,
            completion_tokens: 5,
            total_tokens: 105,
            prompt_tokens_details: Some(openai::PromptTokensDetails { cached_tokens: 80 }),
        }),
        ..finish_chunk("1", "gpt-4o", "stop")
    };
    // The finish+usage chunk only closes the block; the usage surfaces in the deferred
    // message_delta emitted at stream end.
    translate_chunk(&mut state, &chunk);
    let events = translate_done(&mut state);

    if let StreamEvent::MessageDelta { usage, .. } = &events[0] {
        // input = prompt(100) - cached(80); cache_read = 80
        assert_eq!(usage.input_tokens, Some(20));
        assert_eq!(usage.cache_read_input_tokens, Some(80));
        assert_eq!(usage.output_tokens, 5);
    } else {
        panic!("expected message_delta");
    }
}

#[test]
fn finish_chunk_with_usage_maps_input_and_output_tokens() {
    let mut state = initial_state("fallback".into(), 0);

    translate_chunk(&mut state, &text_chunk("1", "gpt-4o", "Hello"));
    translate_chunk(
        &mut state,
        &finish_chunk_with_usage("1", "gpt-4o", "stop", 7, 3),
    );
    let events = translate_done(&mut state);

    if let StreamEvent::MessageDelta { usage, .. } = &events[0] {
        assert_eq!(usage.input_tokens, Some(7));
        assert_eq!(usage.output_tokens, 3);
    } else {
        panic!("expected message_delta");
    }
}

#[test]
fn usage_in_trailing_empty_choices_frame_is_captured() {
    // OpenAI streams send usage in a final `choices: []` frame
    // *after* finish_reason. That frame must not be dropped.
    let mut state = initial_state("fallback".into(), 11);
    translate_chunk(&mut state, &text_chunk("1", "gpt-4o", "hi"));
    translate_chunk(&mut state, &finish_chunk("1", "gpt-4o", "stop"));
    let trailing = openai::StreamChunk {
        id: Some("1".to_string()),
        model: Some("gpt-4o".to_string()),
        choices: vec![],
        usage: Some(usage(42, 7)),
    };
    assert!(translate_chunk(&mut state, &trailing).is_empty());

    let events = translate_done(&mut state);
    if let StreamEvent::MessageDelta { usage, .. } = &events[0] {
        assert_eq!(usage.input_tokens, Some(42));
        assert_eq!(usage.output_tokens, 7);
    } else {
        panic!("expected message_delta");
    }
}

#[test]
fn message_start_carries_input_estimate() {
    let mut state = initial_state("fallback".into(), 123);
    let events = translate_chunk(&mut state, &text_chunk("1", "gpt-4o", "hi"));
    if let StreamEvent::MessageStart { message } = &events[0] {
        assert_eq!(message.usage.input_tokens, 123);
    } else {
        panic!("expected message_start");
    }
}

#[test]
fn text_then_tool_call() {
    let mut state = initial_state("fallback".into(), 0);

    translate_chunk(&mut state, &text_chunk("1", "gpt-4o", "I'll read that."));

    let e2 = translate_chunk(
        &mut state,
        &tool_start_chunk("1", "gpt-4o", "call_xyz", "read_file"),
    );

    assert!(event_types(&e2).contains(&"content_block_stop"));
    assert!(event_types(&e2).contains(&"content_block_start"));
}

#[test]
fn message_start_uses_chunk_metadata() {
    let mut state = initial_state("my-fallback".into(), 0);

    let events = translate_chunk(&mut state, &text_chunk("chatcmpl-42", "gpt-4o", "hi"));

    if let StreamEvent::MessageStart { message } = &events[0] {
        assert_eq!(message.id, "chatcmpl-42");
        assert_eq!(message.model, "gpt-4o");
        assert_eq!(message.role, "assistant");
    }
}

#[test]
fn fallback_model_used_when_chunk_omits_model() {
    let mut state = initial_state("my-fallback".into(), 0);

    let chunk = openai::StreamChunk {
        id: None,
        model: None,
        ..text_chunk("", "", "hey")
    };

    let events = translate_chunk(&mut state, &chunk);

    if let StreamEvent::MessageStart { message } = &events[0] {
        assert_eq!(message.model, "my-fallback");
    }
}

#[test]
fn error_event_produced() {
    let events = translate_error("connection reset".into());
    assert_eq!(event_types(&events), ["error"]);

    if let StreamEvent::Error { error } = &events[0] {
        assert!(error.message.contains("connection reset"));
    }
}

#[test]
fn empty_content_not_emitted() {
    let mut state = initial_state("fallback".into(), 0);

    let chunk = text_chunk("1", "gpt-4o", "");

    let events = translate_chunk(&mut state, &chunk);

    let deltas: Vec<_> = events
        .iter()
        .filter(|e| matches!(e, StreamEvent::ContentBlockDelta { .. }))
        .collect();
    assert!(deltas.is_empty());
}

#[test]
fn a_stream_is_completed_once() {
    let mut state = initial_state("fallback".into(), 0);
    let mut all = translate_chunk(&mut state, &reasoning_chunk("1", "gpt-4o", "a"));
    all.extend(translate_chunk(&mut state, &text_chunk("1", "gpt-4o", "b")));
    all.extend(translate_chunk(
        &mut state,
        &tool_start_chunk("1", "gpt-4o", "c", "Bash"),
    ));
    all.extend(translate_chunk(&mut state, &finish_chunk("1", "gpt-4o", "stop")));
    all.extend(translate_done(&mut state));
    assert!(translate_done(&mut state).is_empty());
    let mut open: Option<usize> = None;
    let mut next = 0;
    for event in &all {
        match event {
            StreamEvent::ContentBlockStart { index, .. } => {
                assert_eq!(open, None);
                assert_eq!(*index, next);
                open = Some(*index);
                next += 1;
            }
            StreamEvent::ContentBlockDelta { index, .. } => assert_eq!(open, Some(*index)),
            StreamEvent::ContentBlockStop { index } => {
                assert_eq!(open, Some(*index));
                open = None;
            }
            _ => assert_eq!(open, None),
        }
    }
    assert_eq!(open, None);
    assert_eq!(event_types(&all)[0], "message_start");
    assert_eq!(*event_types(&all).last().unwrap(), "message_stop");
}

#[test]
fn an_empty_stream_only_stops() {
    let mut state = initial_state("fallback".into(), 0);
    assert_eq!(event_types(&translate_done(&mut state)), ["message_stop"]);
}

#[test]
fn there_is_room_for_ordinary_chunks() {
    let mut state = initial_state("fallback".into(), 0);
    let chunk = text_chunk("1", "gpt-4o", "Hello");
    assert!(has_room(&state, &chunk));
    translate_chunk(&mut state, &chunk);
    assert!(has_room(&state, &finish_chunk("1", "gpt-4o", "stop")));
    let mut empty = chunk;
    empty.choices = vec![];
    assert!(has_room(&state, &empty));
}

#[test]
fn an_unruly_stream_keeps_its_blocks_apart() {
    let mut state = initial_state("fallback".into(), 0);
    let chunks = [
        text_chunk("1", "m", "a"),
        finish_chunk("1", "m", "stop"),
        text_chunk("1", "m", "b"),
        reasoning_chunk("1", "m", "c"),
        text_chunk("1", "m", ""),
    ];
    let mut events = Vec::new();
    for chunk in &chunks {
        events.extend(translate_chunk(&mut state, chunk));
    }
    assert_eq!(
        event_types(&events),
        [
            "message_start",
            "content_block_start",
            "content_block_delta",
            "content_block_stop",
            "content_block_delta",
            "content_block_stop",
            "content_block_start",
            "content_block_delta",
        ]
    );
    assert!(matches!(events[5], StreamEvent::ContentBlockStop { index: 0 }));
    assert!(matches!(events[6], StreamEvent::ContentBlockStart { index: 1, .. }));
}
