use api_switch::anthropic::{
    AnthropicResponseContentBlock, AnthropicSSEEvent, AnthropicStreamMessage, AnthropicUsage,
    ContentDelta, MessageDeltaData, OutputUsage,
};
use api_switch::openai::{
    OpenAIDelta, OpenAIDeltaChoice, OpenAIDeltaFunction, OpenAIDeltaToolCall, OpenAISSEChunk,
    OpenAIUsage,
};
use api_switch::transform::sse::format_sse;
use api_switch::transform::stream::{
    chunk_fits_state, convert_stream_chunk, message_id_from_uuid, stream_error_events, StreamState,
};

fn make_chunk(
    role: Option<&str>,
    content: Option<&str>,
    finish_reason: Option<&str>,
    model: Option<&str>,
    usage: Option<OpenAIUsage>,
    tool_calls: Option<Vec<OpenAIDeltaToolCall>>,
) -> OpenAISSEChunk {
    let has_choice_data =
        role.is_some() || content.is_some() || finish_reason.is_some() || tool_calls.is_some();
    OpenAISSEChunk {
        id: Some("chatcmpl-123".into()),
        model: model.map(String::from),
        choices: if has_choice_data {
            Some(vec![OpenAIDeltaChoice {
                index: 0,
                delta: OpenAIDelta {
                    role: role.map(String::from),
                    content: content.map(String::from),
                    tool_calls,
                },
                finish_reason: finish_reason.map(String::from),
            }])
        } else {
            None
        },
        usage,
    }
}

fn tool_call(index: u32, id: Option<&str>, name: Option<&str>, args: Option<&str>) -> OpenAIDeltaToolCall {
    OpenAIDeltaToolCall {
        index,
        id: id.map(String::from),
        call_type: id.map(|_| "function".to_string()),
        function: Some(OpenAIDeltaFunction {
            name: name.map(String::from),
            arguments: args.map(String::from),
        }),
    }
}

fn convert(chunk: &OpenAISSEChunk, state: &mut StreamState) -> Vec<AnthropicSSEEvent> {
    assert!(chunk_fits_state(chunk, state));
    convert_stream_chunk(chunk, state)
}

#[test]
fn test_stream_state_new() {
    let state = StreamState::new();
    assert!(!state.started);
    assert!(!state.content_block_open);
    assert_eq!(state.content_index, 0);
}

#[test]
fn new_state_has_a_message_id_of_24_hex_digits() {
    let state = StreamState::new();
    assert_eq!(state.message_id.len(), 28);
    assert!(state.message_id.starts_with("msg_"));
    assert!(state.message_id[4..].chars().all(|c| c.is_ascii_hexdigit() && !c.is_ascii_uppercase()));
    assert_ne!(StreamState::new().message_id, state.message_id);
}

#[test]
fn message_id_from_uuid_drops_hyphens_and_keeps_24_digits() {
    assert_eq!(
        message_id_from_uuid("67e55044-10b1-426f-9247-bb680e5fe0c8"),
        "msg_67e5504410b1426f9247bb68"
    );
}

#[test]
fn test_first_chunk_with_role_emits_start_and_block_start() {
    let chunk = make_chunk(Some("assistant"), None, None, None, None, None);
    let mut state = StreamState::new();
    let events = convert(&chunk, &mut state);

    assert!(state.started);
    assert!(state.content_block_open);
    let has_msg_start = events.iter().any(|e| matches!(e, AnthropicSSEEvent::MessageStart { .. }));
    let has_block_start =
        events.iter().any(|e| matches!(e, AnthropicSSEEvent::ContentBlockStart { .. }));
    assert!(has_msg_start);
    assert!(has_block_start);
}

#[test]
fn test_content_delta_emits_delta_event() {
    let chunk = make_chunk(None, Some("Hello"), None, None, None, None);
    let mut state = StreamState::new();
    let events = convert(&chunk, &mut state);

    let has_delta = events.iter().any(|e| matches!(e, AnthropicSSEEvent::ContentBlockDelta { .. }));
    assert!(has_delta);
}

#[test]
fn test_finish_reason_emits_stop_events() {
    let usage = OpenAIUsage { prompt_tokens: 10, completion_tokens: 5, total_tokens: 15 };
    let chunk = make_chunk(None, None, Some("stop"), Some("gpt-4"), Some(usage), None);
    let mut state = StreamState::new();
    state.started = true;
    let events = convert(&chunk, &mut state);

    let has_msg_delta = events.iter().any(|e| matches!(e, AnthropicSSEEvent::MessageDelta { .. }));
    let has_msg_stop = events.iter().any(|e| matches!(e, AnthropicSSEEvent::MessageStop));
    assert!(has_msg_delta);
    assert!(has_msg_stop);
}

#[test]
fn finish_reports_mapped_reason_and_output_tokens() {
    let usage = OpenAIUsage { prompt_tokens: 10, completion_tokens: 5, total_tokens: 15 };
    let chunk = make_chunk(None, None, Some("length"), None, Some(usage), None);
    let mut state = StreamState::new();
    state.started = true;
    let events = convert(&chunk, &mut state);
    assert_eq!(events.len(), 2);
    match &events[0] {
        AnthropicSSEEvent::MessageDelta { delta, usage } => {
            assert_eq!(delta.stop_reason, "max_tokens");
            assert_eq!(delta.stop_sequence, None);
            assert_eq!(usage.output_tokens, 5);
        }
        _ => panic!("expected message_delta"),
    }
    assert!(matches!(events[1], AnthropicSSEEvent::MessageStop));
    assert_eq!(state.input_tokens, 10);
}

#[test]
fn test_format_sse_ping() {
    let event = AnthropicSSEEvent::Ping;
    let output = format_sse(&event, r#"{"type":"ping"}"#);
    assert!(output.starts_with("event: ping\n"));
    assert!(output.ends_with("\n\n"));
}

#[test]
fn format_sse_writes_event_data_and_blank_line() {
    let output = format_sse(&AnthropicSSEEvent::MessageStop, r#"{"type":"message_stop"}"#);
    assert_eq!(output, "event: message_stop\ndata: {\"type\":\"message_stop\"}\n\n");
}

#[test]
fn test_stream_tool_call_start() {
    let chunk = make_chunk(
        None,
        None,
        None,
        Some("gpt-4"),
        None,
        Some(vec![tool_call(0, Some("call_abc"), Some("get_weather"), Some(""))]),
    );
    let mut state = StreamState::new();
    state.started = true;
    let events = convert(&chunk, &mut state);

    let has_tool_start = events.iter().any(|e| match e {
        AnthropicSSEEvent::ContentBlockStart { content_block, .. } => {
            matches!(content_block, AnthropicResponseContentBlock::ToolUse { name, .. } if name == "get_weather")
        }
        _ => false,
    });
    assert!(has_tool_start);
    assert!(state.content_block_open);
    assert!(state.tool_block_open);
}

#[test]
fn tool_use_block_starts_with_an_empty_input_object() {
    let chunk = make_chunk(
        None,
        None,
        None,
        None,
        None,
        Some(vec![tool_call(0, Some("call_abc"), Some("get_weather"), Some(""))]),
    );
    let mut state = StreamState::new();
    state.started = true;
    let events = convert(&chunk, &mut state);
    assert_eq!(events.len(), 1);
    match &events[0] {
        AnthropicSSEEvent::ContentBlockStart {
            index,
            content_block: AnthropicResponseContentBlock::ToolUse { id, name, input },
        } => {
            assert_eq!(*index, 0);
            assert_eq!(id, "call_abc");
            assert_eq!(name, "get_weather");
            assert_eq!(input, "{}");
        }
        _ => panic!("expected a tool_use block start"),
    }
}

#[test]
fn test_stream_tool_call_arguments_delta() {
    let mut state = StreamState::new();
    state.started = true;

    let chunk1 = make_chunk(
        None,
        None,
        None,
        None,
        None,
        Some(vec![tool_call(0, Some("call_abc"), Some("get_weather"), Some(""))]),
    );
    convert(&chunk1, &mut state);

    let chunk2 = make_chunk(None, None, None, None, None, Some(vec![tool_call(0, None, None, Some(r#"{"loc"#))]));
    let events = convert(&chunk2, &mut state);

    let has_json_delta = events.iter().any(|e| match e {
        AnthropicSSEEvent::ContentBlockDelta { delta, .. } => {
            matches!(delta, ContentDelta::InputJsonDelta { partial_json } if partial_json == r#"{"loc"#)
        }
        _ => false,
    });
    assert!(has_json_delta);
}

#[test]
fn test_stream_tool_call_finish() {
    let mut state = StreamState::new();
    state.started = true;

    let chunk1 = make_chunk(
        None,
        None,
        None,
        None,
        None,
        Some(vec![tool_call(0, Some("call_abc"), Some("get_weather"), Some(r#"{"location":"NYC"}"#))]),
    );
    convert(&chunk1, &mut state);

    let chunk2 = make_chunk(None, None, Some("tool_calls"), None, None, None);
    let events = convert(&chunk2, &mut state);

    let has_block_stop = events.iter().any(|e| matches!(e, AnthropicSSEEvent::ContentBlockStop { .. }));
    let has_msg_delta = events.iter().any(|e| match e {
        AnthropicSSEEvent::MessageDelta { delta, .. } => delta.stop_reason == "tool_use",
        _ => false,
    });
    let has_msg_stop = events.iter().any(|e| matches!(e, AnthropicSSEEvent::MessageStop));

    assert!(has_block_stop);
    assert!(has_msg_delta);
    assert!(has_msg_stop);
}

#[test]
fn test_stream_multiple_tool_calls() {
    let mut state = StreamState::new();
    state.started = true;

    let chunk1 = make_chunk(None, None, None, None, None, Some(vec![tool_call(0, Some("call_1"), Some("tool_a"), Some("{}"))]));
    let events1 = convert(&chunk1, &mut state);
    let start_count_1 = events1
        .iter()
        .filter(|e| matches!(e, AnthropicSSEEvent::ContentBlockStart { .. }))
        .count();
    assert_eq!(start_count_1, 1);

    let chunk2 = make_chunk(None, None, None, None, None, Some(vec![tool_call(1, Some("call_2"), Some("tool_b"), Some("{}"))]));
    let events2 = convert(&chunk2, &mut state);

    let has_stop = events2.iter().any(|e| matches!(e, AnthropicSSEEvent::ContentBlockStop { .. }));
    let has_start = events2.iter().any(|e| matches!(e, AnthropicSSEEvent::ContentBlockStart { .. }));
    assert!(has_stop);
    assert!(has_start);
    assert_eq!(state.content_index, 1);
}

#[test]
fn test_stream_full_text_sequence() {
    let mut state = StreamState::new();

    let c1 = make_chunk(Some("assistant"), None, None, Some("gpt-4"), None, None);
    let e1 = convert(&c1, &mut state);
    assert!(e1.iter().any(|e| matches!(e, AnthropicSSEEvent::MessageStart { .. })));
    assert!(e1.iter().any(|e| matches!(e, AnthropicSSEEvent::ContentBlockStart { .. })));

    let c2 = make_chunk(None, Some("Hello"), None, None, None, None);
    let e2 = convert(&c2, &mut state);
    assert!(e2.iter().any(|e| matches!(e, AnthropicSSEEvent::ContentBlockDelta { .. })));

    let c3 = make_chunk(None, Some(" world"), None, None, None, None);
    let e3 = convert(&c3, &mut state);
    assert!(e3.iter().any(|e| matches!(e, AnthropicSSEEvent::ContentBlockDelta { .. })));

    let c4 = make_chunk(None, None, Some("stop"), None, None, None);
    let e4 = convert(&c4, &mut state);
    assert!(e4.iter().any(|e| matches!(e, AnthropicSSEEvent::ContentBlockStop { .. })));
    assert!(e4.iter().any(|e| matches!(e, AnthropicSSEEvent::MessageDelta { .. })));
    assert!(e4.iter().any(|e| matches!(e, AnthropicSSEEvent::MessageStop)));
}

#[test]
fn message_start_is_sent_once_with_the_first_model() {
    let mut state = StreamState::new();
    let c1 = make_chunk(Some("assistant"), None, None, Some("gpt-4"), None, None);
    let e1 = convert(&c1, &mut state);
    match &e1[0] {
        AnthropicSSEEvent::MessageStart { message } => {
            assert_eq!(message.id, state.message_id);
            assert_eq!(message.model, "gpt-4");
            assert_eq!(message.msg_type, "message");
            assert_eq!(message.role, "assistant");
            assert!(message.content.is_empty());
        }
        _ => panic!("expected message_start first"),
    }
    let c2 = make_chunk(None, Some("x"), None, Some("other"), None, None);
    let e2 = convert(&c2, &mut state);
    assert!(!e2.iter().any(|e| matches!(e, AnthropicSSEEvent::MessageStart { .. })));
    assert_eq!(state.model, "gpt-4");
}

#[test]
fn test_convert_stream_chunk_no_choices() {
    let chunk = OpenAISSEChunk {
        id: Some("chatcmpl-123".into()),
        model: Some("gpt-4".into()),
        choices: None,
        usage: None,
    };
    let mut state = StreamState::new();
    let events = convert(&chunk, &mut state);

    assert!(state.started);
    assert_eq!(state.model, "gpt-4");
    let has_msg_start = events.iter().any(|e| matches!(e, AnthropicSSEEvent::MessageStart { .. }));
    assert!(has_msg_start);
    assert!(!state.content_block_open);
}

#[test]
fn test_stream_tool_call_arguments_accumulation() {
    let mut state = StreamState::new();
    state.started = true;

    let chunk1 = make_chunk(None, None, None, None, None, Some(vec![tool_call(0, Some("call_abc"), Some("get_weather"), Some(""))]));
    convert(&chunk1, &mut state);

    let chunk2 = make_chunk(None, None, None, None, None, Some(vec![tool_call(0, None, None, Some("{\"location\""))]));
    convert(&chunk2, &mut state);

    let chunk3 = make_chunk(None, None, None, None, None, Some(vec![tool_call(0, None, None, Some(":\"NYC\"}"))]));
    convert(&chunk3, &mut state);

    let tc_state = state.tool_calls.get(&0).unwrap();
    assert_eq!(tc_state.arguments_buffer, "{\"location\":\"NYC\"}");
    assert_eq!(state.tool_call(0).unwrap().name, "get_weather");
    assert!(state.tool_call(1).is_none());
}

#[test]
fn test_format_sse_all_event_types() {
    let events: Vec<AnthropicSSEEvent> = vec![
        AnthropicSSEEvent::MessageStart {
            message: AnthropicStreamMessage {
                id: "msg_test".into(),
                msg_type: "message".into(),
                role: "assistant".into(),
                content: vec![],
                model: "gpt-4".into(),
                stop_reason: None,
                stop_sequence: None,
                usage: AnthropicUsage { input_tokens: 0, output_tokens: 0 },
            },
        },
        AnthropicSSEEvent::ContentBlockStart {
            index: 0,
            content_block: AnthropicResponseContentBlock::Text { text: String::new() },
        },
        AnthropicSSEEvent::ContentBlockDelta { index: 0, delta: ContentDelta::TextDelta { text: "hi".into() } },
        AnthropicSSEEvent::ContentBlockStop { index: 0 },
        AnthropicSSEEvent::MessageDelta {
            delta: MessageDeltaData { stop_reason: "end_turn".into(), stop_sequence: None },
            usage: OutputUsage { output_tokens: 5 },
        },
        AnthropicSSEEvent::MessageStop,
        AnthropicSSEEvent::Ping,
    ];

    let expected_types = [
        "message_start",
        "content_block_start",
        "content_block_delta",
        "content_block_stop",
        "message_delta",
        "message_stop",
        "ping",
    ];

    for (event, expected_type) in events.iter().zip(expected_types.iter()) {
        let output = format_sse(event, "{}");
        assert!(
            output.starts_with(&format!("event: {}\n", expected_type)),
            "Expected event type '{}', got: {}",
            expected_type,
            output.lines().next().unwrap_or("")
        );
        assert!(output.ends_with("\n\n"));
    }
}

#[test]
fn stream_error_closes_open_block_and_message() {
    let mut state = StreamState::new();
    assert!(stream_error_events(&state).is_empty());

    let c1 = make_chunk(Some("assistant"), Some("partial"), None, None, None, None);
    convert(&c1, &mut state);
    let events = stream_error_events(&state);
    assert_eq!(events.len(), 3);
    assert!(matches!(events[0], AnthropicSSEEvent::ContentBlockStop { index: 0 }));
    match &events[1] {
        AnthropicSSEEvent::MessageDelta { delta, usage } => {
            assert_eq!(delta.stop_reason, "error");
            assert_eq!(usage.output_tokens, 0);
        }
        _ => panic!("expected message_delta"),
    }
    assert!(matches!(events[2], AnthropicSSEEvent::MessageStop));
}

#[test]
fn stream_error_after_finish_sends_no_block_stop() {
    let mut state = StreamState::new();
    convert(&make_chunk(None, Some("done"), Some("stop"), None, None, None), &mut state);
    let events = stream_error_events(&state);
    assert_eq!(events.len(), 2);
    assert!(matches!(events[0], AnthropicSSEEvent::MessageDelta { .. }));
}

#[test]
fn chunk_that_would_overflow_the_block_index_does_not_fit() {
    let mut state = StreamState::new();
    state.started = true;
    state.content_index = u32::MAX;
    let chunk = make_chunk(None, None, None, None, None, Some(vec![tool_call(0, Some("c"), Some("t"), None)]));
    assert!(!chunk_fits_state(&chunk, &state));
    let plain = make_chunk(None, Some("x"), None, None, None, None);
    assert!(chunk_fits_state(&plain, &state));
}

/// Follows the content blocks of `events` from a cursor, as a client does:
/// a block starts when none is open, at an index not below the latest;
/// text deltas and stops fall in the open block.
fn follow(mut open: bool, mut index: u32, events: &[AnthropicSSEEvent]) -> Option<(bool, u32)> {
    for e in events {
        match e {
            AnthropicSSEEvent::ContentBlockStart { index: i, .. } => {
                if open || *i < index {
                    return None;
                }
                open = true;
                index = *i;
            }
            AnthropicSSEEvent::ContentBlockDelta { index: i, delta } => {
                let needs_open = matches!(delta, ContentDelta::TextDelta { .. });
                if (needs_open && !open) || *i != index {
                    return None;
                }
            }
            AnthropicSSEEvent::ContentBlockStop { index: i } => {
                if !open || *i != index {
                    return None;
                }
                open = false;
            }
            AnthropicSSEEvent::MessageDelta { .. } | AnthropicSSEEvent::MessageStop => {
                if open {
                    return None;
                }
            }
            _ => {}
        }
    }
    Some((open, index))
}

#[test]
fn block_events_follow_the_protocol() {
    let mut state = StreamState::new();
    let chunks = vec![
        make_chunk(Some("assistant"), Some("Let me look."), None, Some("gpt-4"), None, None),
        make_chunk(None, None, None, None, None, Some(vec![tool_call(0, Some("call_1"), Some("a"), Some("{\"q\""))])),
        make_chunk(None, None, None, None, None, Some(vec![tool_call(0, None, None, Some(":1}"))])),
        make_chunk(None, None, None, None, None, Some(vec![tool_call(1, Some("call_2"), Some("b"), Some("{}"))])),
        make_chunk(None, None, Some("tool_calls"), None, None, None),
    ];
    for chunk in &chunks {
        let before = (state.content_block_open, state.content_index);
        let events = convert(chunk, &mut state);
        assert_eq!(
            follow(before.0, before.1, &events),
            Some((state.content_block_open, state.content_index))
        );
    }
    assert!(!state.content_block_open);
    assert_eq!(state.content_index, 2);
}

/// Reads a whole stream of events as a client does and reports what is
/// out of order: a second `message_start`, a block started while one is
/// open or with a gap in the indices, a delta outside a block of its kind,
/// or the message ended with a block open.
fn check_whole_stream(events: &[AnthropicSSEEvent]) -> Result<(), String> {
    let mut started = false;
    let mut open: Option<(u32, bool)> = None;
    let mut blocks = 0u32;
    for (n, e) in events.iter().enumerate() {
        match e {
            AnthropicSSEEvent::MessageStart { .. } => {
                if started || n != 0 {
                    return Err(format!("message_start at {}", n));
                }
                started = true;
            }
            AnthropicSSEEvent::ContentBlockStart { index, content_block } => {
                if open.is_some() || *index != blocks {
                    return Err(format!("block start at {}", n));
                }
                let tool = matches!(content_block, AnthropicResponseContentBlock::ToolUse { .. });
                open = Some((*index, tool));
                blocks += 1;
            }
            AnthropicSSEEvent::ContentBlockDelta { index, delta } => {
                let json = matches!(delta, ContentDelta::InputJsonDelta { .. });
                if open != Some((*index, json)) {
                    return Err(format!("delta at {}", n));
                }
            }
            AnthropicSSEEvent::ContentBlockStop { index } => {
                if open.map(|o| o.0) != Some(*index) {
                    return Err(format!("stop at {}", n));
                }
                open = None;
            }
            AnthropicSSEEvent::MessageDelta { .. } | AnthropicSSEEvent::MessageStop => {
                if open.is_some() {
                    return Err(format!("message end at {}", n));
                }
            }
            AnthropicSSEEvent::Ping => {}
        }
    }
    Ok(())
}

#[test]
fn whole_well_formed_stream_keeps_the_event_protocol() {
    let mut state = StreamState::new();
    let chunks = vec![
        make_chunk(Some("assistant"), None, None, Some("gpt-4"), None, None),
        make_chunk(None, Some("Checking."), None, None, None, None),
        make_chunk(None, None, None, None, None, Some(vec![tool_call(0, Some("call_1"), Some("a"), None)])),
        make_chunk(None, None, None, None, None, Some(vec![tool_call(0, None, None, Some("{\"q\":1}"))])),
        make_chunk(None, None, None, None, None, Some(vec![tool_call(1, Some("call_2"), Some("b"), Some("{}"))])),
        make_chunk(None, None, Some("tool_calls"), None, None, None),
        make_chunk(
            None,
            None,
            None,
            None,
            Some(OpenAIUsage { prompt_tokens: 3, completion_tokens: 4, total_tokens: 7 }),
            None,
        ),
    ];
    let mut all = Vec::new();
    for chunk in &chunks {
        all.extend(convert(chunk, &mut state));
    }
    assert_eq!(check_whole_stream(&all), Ok(()));
    let n = all.len();
    assert!(matches!(all[n - 2], AnthropicSSEEvent::MessageDelta { .. }));
    assert!(matches!(all[n - 1], AnthropicSSEEvent::MessageStop));
    assert!(!state.content_block_open);
}

#[test]
fn text_after_a_tool_call_falls_in_the_tool_block() {
    let mut state = StreamState::new();
    let mut all = Vec::new();
    all.extend(convert(&make_chunk(None, None, None, None, None, Some(vec![tool_call(0, Some("c"), Some("t"), None)])), &mut state));
    all.extend(convert(&make_chunk(None, Some("late text"), None, None, None, None), &mut state));
    assert!(check_whole_stream(&all).is_err());
}
