use grok_anthropic_bridge::reasoning_signature::{decode_reasoning_signature, ReasoningReplay};
use grok_anthropic_bridge::responses::{
    FunctionToolCall, OutputItem, ReasoningItem, ResponseStreamEvent, ResponseUsage,
};
use grok_anthropic_bridge::translate::{
    anthropic_out_debug, event_type_name, AnthropicOut, StreamReducer,
};

fn function_call_item() -> OutputItem {
    OutputItem::FunctionCall(FunctionToolCall {
        arguments: "{\"text\":\"banana\"}".into(),
        call_id: "call-1".into(),
        name: "echo_tool".into(),
        id: Some("fc_item_1".into()),
    })
}

fn count_tool_stops(events: &[AnthropicOut]) -> usize {
    events
        .iter()
        .filter(|e| matches!(e, AnthropicOut::ToolUseStop { .. }))
        .count()
}

#[test]
fn tool_use_stop_emitted_exactly_once_when_item_done() {
    let mut r = StreamReducer::new();
    let mut stops = 0;
    stops += count_tool_stops(&r.push_event(&ResponseStreamEvent::ResponseOutputItemAdded {
        output_index: 0,
        item: function_call_item(),
    }));
    stops += count_tool_stops(&r.push_event(&ResponseStreamEvent::ResponseOutputItemDone {
        output_index: 0,
        item: function_call_item(),
    }));
    let tail = r.finish_if_needed();
    stops += count_tool_stops(&tail);
    assert_eq!(stops, 1, "tool block closed more than once");
    assert!(matches!(tail.last(), Some(AnthropicOut::MessageStop)));
}

#[test]
fn unclosed_tool_drain_dedupes_alias_keys() {
    let mut r = StreamReducer::new();
    r.push_event(&ResponseStreamEvent::ResponseOutputItemAdded {
        output_index: 0,
        item: function_call_item(),
    });
    assert_eq!(count_tool_stops(&r.finish_if_needed()), 1);
}

#[test]
fn finish_if_needed_emits_empty_text_and_stop_on_blank_stream() {
    let mut r = StreamReducer::new();
    let out = r.finish_if_needed();
    assert!(
        out.iter()
            .any(|e| matches!(e, AnthropicOut::TextStart { .. })),
        "empty upstream must still open a content block: {out:?}"
    );
    assert!(
        out.iter()
            .any(|e| matches!(e, AnthropicOut::TextStop { .. }))
    );
    assert!(matches!(out.last(), Some(AnthropicOut::MessageStop)));
    let stop = out.iter().find_map(|e| match e {
        AnthropicOut::MessageDelta { stop_reason, .. } => stop_reason.clone(),
        _ => None,
    });
    assert_eq!(stop.as_deref(), Some("end_turn"));
    assert!(r.is_finished());
    assert!(r.finish_if_needed().is_empty(), "idempotent");
}

fn text_delta(s: &str) -> ResponseStreamEvent {
    ResponseStreamEvent::ResponseOutputTextDelta { delta: s.into() }
}

fn run(events: Vec<ResponseStreamEvent>) -> Vec<AnthropicOut> {
    let mut r = StreamReducer::new();
    let mut outs = Vec::new();
    for e in &events {
        outs.extend(r.push_event(e));
    }
    outs.extend(r.finish_if_needed());
    outs
}

#[test]
fn a_plain_answer() {
    let outs = run(vec![
        text_delta("a"),
        text_delta(""),
        text_delta("b"),
        ResponseStreamEvent::ResponseOutputTextDone,
        ResponseStreamEvent::ResponseOutputTextDone,
        ResponseStreamEvent::ResponseCompleted {
            usage: Some(ResponseUsage { input_tokens: 3, output_tokens: 4 }),
        },
    ]);
    assert_eq!(
        outs,
        vec![
            AnthropicOut::TextStart { index: 0 },
            AnthropicOut::TextDelta { index: 0, text: "a".into() },
            AnthropicOut::TextDelta { index: 0, text: "b".into() },
            AnthropicOut::TextStop { index: 0 },
            AnthropicOut::MessageDelta {
                stop_reason: Some("end_turn".into()),
                input_tokens: Some(3),
                output_tokens: Some(4),
            },
            AnthropicOut::MessageStop,
        ]
    );
}

#[test]
fn thinking_then_a_tool_call() {
    let reasoning = OutputItem::Reasoning(ReasoningItem {
        id: "rs_1".into(),
        encrypted_content: Some("enc".into()),
    });
    let outs = run(vec![
        ResponseStreamEvent::ResponseReasoningSummaryTextDelta { delta: "hm".into() },
        ResponseStreamEvent::ResponseOutputItemDone { output_index: 0, item: reasoning },
        text_delta("so"),
        ResponseStreamEvent::ResponseOutputItemAdded { output_index: 1, item: function_call_item() },
        ResponseStreamEvent::ResponseFunctionCallArgumentsDelta {
            output_index: 1,
            item_id: "other".into(),
            delta: "more".into(),
        },
        ResponseStreamEvent::ResponseFunctionCallArgumentsDelta {
            output_index: 9,
            item_id: "fc_item_1".into(),
            delta: "".into(),
        },
        ResponseStreamEvent::ResponseFunctionCallArgumentsDelta {
            output_index: 9,
            item_id: "unknown".into(),
            delta: "lost".into(),
        },
        ResponseStreamEvent::ResponseIncomplete { usage: None },
    ]);
    let signature = match &outs[2] {
        AnthropicOut::ThinkingSignature { signature, .. } => signature.clone(),
        other => panic!("no signature: {other:?}"),
    };
    assert_eq!(
        decode_reasoning_signature(&signature),
        Some(ReasoningReplay { id: "rs_1".into(), encrypted_content: "enc".into() })
    );
    assert_eq!(
        outs,
        vec![
            AnthropicOut::ThinkingStart { index: 0 },
            AnthropicOut::ThinkingDelta { index: 0, text: "hm".into() },
            AnthropicOut::ThinkingSignature { index: 0, signature },
            AnthropicOut::ThinkingStop { index: 0 },
            AnthropicOut::TextStart { index: 1 },
            AnthropicOut::TextDelta { index: 1, text: "so".into() },
            AnthropicOut::TextStop { index: 1 },
            AnthropicOut::ToolUseStart {
                index: 2,
                id: "call-1".into(),
                name: "echo_tool".into(),
            },
            AnthropicOut::ToolUseDelta { index: 2, partial_json: "{\"text\":\"banana\"}".into() },
            AnthropicOut::ToolUseDelta { index: 2, partial_json: "more".into() },
            AnthropicOut::ToolUseDelta { index: 2, partial_json: "".into() },
            AnthropicOut::ToolUseStop { index: 2 },
            AnthropicOut::MessageDelta {
                stop_reason: Some("tool_use".into()),
                input_tokens: None,
                output_tokens: None,
            },
            AnthropicOut::MessageStop,
        ]
    );
}

#[test]
fn a_signature_without_thinking_opens_a_block() {
    let mut r = StreamReducer::new();
    let outs = r.push_event(&ResponseStreamEvent::ResponseOutputItemDone {
        output_index: 0,
        item: OutputItem::Reasoning(ReasoningItem {
            id: "rs_1".into(),
            encrypted_content: Some("enc".into()),
        }),
    });
    assert!(matches!(
        outs[..],
        [
            AnthropicOut::ThinkingStart { index: 0 },
            AnthropicOut::ThinkingSignature { index: 0, .. },
            AnthropicOut::ThinkingStop { index: 0 },
        ]
    ));
    assert_eq!(
        r.last_reasoning_replay(),
        Some(ReasoningReplay { id: "rs_1".into(), encrypted_content: "enc".into() })
    );
}

#[test]
fn open_blocks_end_in_order() {
    let call = |call_id: &str, id: Option<&str>| {
        OutputItem::FunctionCall(FunctionToolCall {
            arguments: "".into(),
            call_id: call_id.into(),
            name: "n".into(),
            id: id.map(str::to_string),
        })
    };
    let outs = run(vec![
        ResponseStreamEvent::ResponseOutputItemAdded { output_index: 0, item: call("z", None) },
        ResponseStreamEvent::ResponseOutputItemAdded { output_index: 1, item: call("", Some("a")) },
        ResponseStreamEvent::ResponseOutputItemAdded { output_index: 2, item: call("", None) },
        ResponseStreamEvent::ResponseReasoningTextDelta { delta: "t".into() },
        text_delta("x"),
        ResponseStreamEvent::ResponseOutputItemDone { output_index: 1, item: call("", Some("a")) },
        ResponseStreamEvent::ResponseOutputItemDone { output_index: 2, item: call("", None) },
    ]);
    let ids: Vec<&str> = outs
        .iter()
        .filter_map(|o| match o {
            AnthropicOut::ToolUseStart { id, .. } => Some(id.as_str()),
            _ => None,
        })
        .collect();
    assert_eq!(ids, vec!["z", "a", "call_2"]);
    let tail = outs[outs.len() - 7..].to_vec();
    assert_eq!(
        tail,
        vec![
            AnthropicOut::ToolUseStop { index: 1 },
            AnthropicOut::ThinkingStop { index: 3 },
            AnthropicOut::TextStop { index: 4 },
            AnthropicOut::ToolUseStop { index: 0 },
            AnthropicOut::ToolUseStop { index: 2 },
            AnthropicOut::MessageDelta {
                stop_reason: Some("tool_use".into()),
                input_tokens: None,
                output_tokens: None,
            },
            AnthropicOut::MessageStop,
        ]
    );
}

#[test]
fn thinking_ends_with_the_signature_it_is_given() {
    let mut r = StreamReducer::new();
    r.thinking_delta("hm");
    assert_eq!(
        r.end_thinking(Some("sig".into())),
        vec![
            AnthropicOut::ThinkingSignature { index: 0, signature: "sig".into() },
            AnthropicOut::ThinkingStop { index: 0 },
        ]
    );
    assert!(r.end_thinking(None).is_empty());
    r.thinking_delta("");
    let outs = r.finish_with_signature(None, Some("last".into()));
    assert_eq!(outs[0], AnthropicOut::ThinkingSignature { index: 1, signature: "last".into() });
    assert_eq!(outs[1], AnthropicOut::ThinkingStop { index: 1 });
    assert_eq!(r.next_index(), 2);
}

#[test]
fn a_failure_is_an_error() {
    let mut r = StreamReducer::new();
    assert_eq!(
        r.push_event(&ResponseStreamEvent::ResponseFailed { message: Some("boom".into()) }),
        vec![AnthropicOut::Error { message: "boom".into() }]
    );
    assert_eq!(
        r.push_event(&ResponseStreamEvent::ResponseFailed { message: None }),
        vec![AnthropicOut::Error { message: "upstream response failed".into() }]
    );
    assert!(!r.is_finished());
}

#[test]
fn text_and_thinking_are_carried_over() {
    let outs = run(vec![
        text_delta("one "),
        ResponseStreamEvent::ResponseReasoningTextDelta { delta: "a".into() },
        ResponseStreamEvent::ResponseOutputItemDone { output_index: 0, item: OutputItem::Message },
        text_delta("two"),
        ResponseStreamEvent::ResponseReasoningTextDelta { delta: "b".into() },
        ResponseStreamEvent::Other,
    ]);
    let mut text = String::new();
    let mut thinking = String::new();
    for o in &outs {
        match o {
            AnthropicOut::TextDelta { text: t, .. } => text.push_str(t),
            AnthropicOut::ThinkingDelta { text: t, .. } => thinking.push_str(t),
            _ => {}
        }
    }
    assert_eq!((text.as_str(), thinking.as_str()), ("one two", "ab"));
}

#[test]
fn events_are_named() {
    assert_eq!(event_type_name(&text_delta("x")), "response.output_text.delta");
    assert_eq!(
        event_type_name(&ResponseStreamEvent::ResponseCompleted { usage: None }),
        "response.completed"
    );
    assert_eq!(
        event_type_name(&ResponseStreamEvent::ResponseFailed { message: None }),
        "response.failed"
    );
    assert_eq!(
        event_type_name(&ResponseStreamEvent::ResponseOutputItemAdded {
            output_index: 0,
            item: OutputItem::Other,
        }),
        "response.output_item.added"
    );
    assert_eq!(
        event_type_name(&ResponseStreamEvent::ResponseOutputItemDone {
            output_index: 0,
            item: OutputItem::Other,
        }),
        "response.output_item.done"
    );
    assert_eq!(
        event_type_name(&ResponseStreamEvent::ResponseFunctionCallArgumentsDelta {
            output_index: 0,
            item_id: "".into(),
            delta: "".into(),
        }),
        "response.function_call_arguments.delta"
    );
    assert_eq!(
        event_type_name(&ResponseStreamEvent::ResponseIncomplete { usage: None }),
        "response.other"
    );
}

#[test]
fn descriptions_match_the_debug_text() {
    let shortened = vec![
        AnthropicOut::ThinkingStart { index: 12 },
        AnthropicOut::ThinkingDelta { index: 0, text: "a\"b\né and much more than fits".into() },
        AnthropicOut::ThinkingStop { index: 0 },
        AnthropicOut::TextStart { index: 0 },
        AnthropicOut::TextStop { index: 7 },
        AnthropicOut::ToolUseDelta { index: 3, partial_json: "{}".into() },
        AnthropicOut::ToolUseStop { index: 3 },
        AnthropicOut::MessageDelta {
            stop_reason: Some("tool_use".into()),
            input_tokens: Some(1),
            output_tokens: None,
        },
        AnthropicOut::MessageDelta { stop_reason: None, input_tokens: None, output_tokens: None },
    ];
    for out in shortened {
        let expected: String = format!("{out:?}").chars().take(40).collect();
        assert_eq!(anthropic_out_debug(&out).str_at("type"), Some(expected.as_str()));
    }
    assert_eq!(
        anthropic_out_debug(&AnthropicOut::TextDelta { index: 1, text: "é!".into() }).to_text(),
        r#"{"index":1,"len":3,"type":"text_delta"}"#
    );
    assert_eq!(
        anthropic_out_debug(&AnthropicOut::ThinkingSignature { index: 1, signature: "s".into() })
            .to_text(),
        r#"{"index":1,"type":"thinking_signature"}"#
    );
    assert_eq!(
        anthropic_out_debug(&AnthropicOut::ToolUseStart {
            index: 2,
            id: "i".into(),
            name: "n".into(),
        })
        .to_text(),
        r#"{"id":"i","index":2,"name":"n","type":"tool_use_start"}"#
    );
    assert_eq!(anthropic_out_debug(&AnthropicOut::MessageStop).to_text(), r#"{"type":"message_stop"}"#);
    assert_eq!(
        anthropic_out_debug(&AnthropicOut::Error { message: "m".into() }).to_text(),
        r#"{"message":"m","type":"error"}"#
    );
}

fn begin_call(output_index: u32, call_id: &str, item_id: &str) -> ResponseStreamEvent {
    ResponseStreamEvent::ResponseOutputItemAdded {
        output_index,
        item: OutputItem::FunctionCall(FunctionToolCall {
            arguments: String::new(),
            call_id: call_id.into(),
            name: "tool".into(),
            id: Some(item_id.into()),
        }),
    }
}

fn arguments(output_index: u32, item_id: &str, delta: &str) -> ResponseStreamEvent {
    ResponseStreamEvent::ResponseFunctionCallArgumentsDelta {
        output_index,
        item_id: item_id.into(),
        delta: delta.into(),
    }
}

#[test]
fn interleaved_arguments_reach_their_calls() {
    let outs = run(vec![
        begin_call(0, "a", "fa"),
        begin_call(1, "b", "fb"),
        arguments(1, "fb", "b1"),
        arguments(0, "fa", "a1"),
        arguments(0, "other", "a2"),
        arguments(9, "fb", "b2"),
    ]);
    let mut of_calls = vec![String::new(), String::new()];
    for o in &outs {
        if let AnthropicOut::ToolUseDelta { index, partial_json } = o {
            of_calls[*index].push_str(partial_json);
        }
    }
    assert_eq!(of_calls, vec!["a1a2".to_string(), "b1b2".to_string()]);
    assert_eq!(count_tool_stops(&outs), 2);
}

fn end_call(call_id: &str, item_id: &str) -> ResponseStreamEvent {
    ResponseStreamEvent::ResponseOutputItemDone {
        output_index: 0,
        item: OutputItem::FunctionCall(FunctionToolCall {
            arguments: String::new(),
            call_id: call_id.into(),
            name: "tool".into(),
            id: Some(item_id.into()),
        }),
    }
}

#[test]
fn a_call_that_ended_is_over() {
    let mut r = StreamReducer::new();
    r.push_event(&begin_call(0, "a", "fa"));
    r.push_event(&begin_call(1, "b", "fb"));
    assert_eq!(r.push_event(&end_call("a", "fa")), vec![AnthropicOut::ToolUseStop { index: 0 }]);
    assert!(r.push_event(&end_call("a", "fa")).is_empty());
    assert!(r.push_event(&end_call("", "fa")).is_empty());
    assert!(r.push_event(&arguments(0, "fa", "late")).is_empty());
    assert!(r.push_event(&arguments(0, "a", "late")).is_empty());
    assert_eq!(r.push_event(&end_call("", "fb")), vec![AnthropicOut::ToolUseStop { index: 1 }]);
}
