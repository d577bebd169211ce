use grok_anthropic_bridge::json::Json;
use grok_anthropic_bridge::sse::{
    encode_out, error_event, format_sse_data, format_sse_event, message_start, ping,
};
use grok_anthropic_bridge::translate::AnthropicOut;

#[test]
fn message_start_uses_named_event() {
    let frame = message_start("msg_1", "grok-4.5");
    assert!(frame.starts_with("event: message_start\n"), "got: {frame:?}");
    assert!(
        frame.contains("\"type\":\"message_start\"") || frame.contains("\"type\": \"message_start\"")
    );
    assert!(frame.ends_with("\n\n"));
}

#[test]
fn encode_out_names_match_json_type() {
    let cases: Vec<(AnthropicOut, &str)> = vec![
        (AnthropicOut::TextStart { index: 0 }, "content_block_start"),
        (
            AnthropicOut::TextDelta {
                index: 0,
                text: "hi".into(),
            },
            "content_block_delta",
        ),
        (AnthropicOut::TextStop { index: 0 }, "content_block_stop"),
        (
            AnthropicOut::MessageDelta {
                stop_reason: Some("end_turn".into()),
                input_tokens: Some(1),
                output_tokens: Some(2),
            },
            "message_delta",
        ),
        (AnthropicOut::MessageStop, "message_stop"),
        (
            AnthropicOut::Error {
                message: "boom".into(),
            },
            "error",
        ),
    ];
    for (ev, expected_event) in cases {
        let frames = encode_out(&ev);
        assert_eq!(frames.len(), 1, "for {expected_event}");
        assert!(
            frames[0].starts_with(&format!("event: {expected_event}\n")),
            "expected event {expected_event}, got {}",
            frames[0]
        );
    }
}

#[test]
fn format_sse_data_derives_event_from_type() {
    let payload = Json::parse(r#"{"type": "content_block_stop", "index": 0}"#).unwrap();
    let frame = format_sse_data(&payload);
    assert!(frame.starts_with("event: content_block_stop\n"));
}

#[test]
fn never_emits_generic_message_event_for_protocol_events() {
    for ev in [
        AnthropicOut::MessageStop,
        AnthropicOut::Error {
            message: "x".into(),
        },
        AnthropicOut::TextStart { index: 0 },
    ] {
        for frame in encode_out(&ev) {
            assert!(
                !frame.starts_with("event: message\n"),
                "must not use generic event name: {frame}"
            );
        }
    }
}

fn frame(ev: AnthropicOut) -> String {
    let mut frames = encode_out(&ev);
    assert_eq!(frames.len(), 1);
    frames.remove(0)
}

#[test]
fn every_event_has_its_frame() {
    assert_eq!(
        frame(AnthropicOut::ThinkingStart { index: 1 }),
        "event: content_block_start\ndata: {\"content_block\":{\"signature\":\"\",\"thinking\":\"\",\"type\":\"thinking\"},\"index\":1,\"type\":\"content_block_start\"}\n\n"
    );
    assert_eq!(
        frame(AnthropicOut::ThinkingDelta { index: 1, text: "hm".into() }),
        "event: content_block_delta\ndata: {\"delta\":{\"thinking\":\"hm\",\"type\":\"thinking_delta\"},\"index\":1,\"type\":\"content_block_delta\"}\n\n"
    );
    assert_eq!(
        frame(AnthropicOut::ThinkingSignature { index: 1, signature: "s".into() }),
        "event: content_block_delta\ndata: {\"delta\":{\"signature\":\"s\",\"type\":\"signature_delta\"},\"index\":1,\"type\":\"content_block_delta\"}\n\n"
    );
    assert_eq!(
        frame(AnthropicOut::ThinkingStop { index: 1 }),
        "event: content_block_stop\ndata: {\"index\":1,\"type\":\"content_block_stop\"}\n\n"
    );
    assert_eq!(
        frame(AnthropicOut::TextStart { index: 0 }),
        "event: content_block_start\ndata: {\"content_block\":{\"text\":\"\",\"type\":\"text\"},\"index\":0,\"type\":\"content_block_start\"}\n\n"
    );
    assert_eq!(
        frame(AnthropicOut::TextDelta { index: 0, text: "a\nb".into() }),
        "event: content_block_delta\ndata: {\"delta\":{\"text\":\"a\\nb\",\"type\":\"text_delta\"},\"index\":0,\"type\":\"content_block_delta\"}\n\n"
    );
    assert_eq!(
        frame(AnthropicOut::ToolUseStart { index: 2, id: "c".into(), name: "n".into() }),
        "event: content_block_start\ndata: {\"content_block\":{\"id\":\"c\",\"input\":{},\"name\":\"n\",\"type\":\"tool_use\"},\"index\":2,\"type\":\"content_block_start\"}\n\n"
    );
    assert_eq!(
        frame(AnthropicOut::ToolUseDelta { index: 2, partial_json: "{".into() }),
        "event: content_block_delta\ndata: {\"delta\":{\"partial_json\":\"{\",\"type\":\"input_json_delta\"},\"index\":2,\"type\":\"content_block_delta\"}\n\n"
    );
    assert_eq!(
        frame(AnthropicOut::ToolUseStop { index: 2 }),
        "event: content_block_stop\ndata: {\"index\":2,\"type\":\"content_block_stop\"}\n\n"
    );
    assert_eq!(
        frame(AnthropicOut::MessageDelta {
            stop_reason: Some("end_turn".into()),
            input_tokens: Some(1),
            output_tokens: Some(2),
        }),
        "event: message_delta\ndata: {\"delta\":{\"stop_reason\":\"end_turn\",\"stop_sequence\":null},\"type\":\"message_delta\",\"usage\":{\"input_tokens\":1,\"output_tokens\":2}}\n\n"
    );
    assert_eq!(
        frame(AnthropicOut::MessageDelta {
            stop_reason: None,
            input_tokens: None,
            output_tokens: None,
        }),
        "event: message_delta\ndata: {\"delta\":{\"stop_reason\":null,\"stop_sequence\":null},\"type\":\"message_delta\",\"usage\":{}}\n\n"
    );
    assert_eq!(
        frame(AnthropicOut::MessageStop),
        "event: message_stop\ndata: {\"type\":\"message_stop\"}\n\n"
    );
    assert_eq!(
        frame(AnthropicOut::Error { message: "boom".into() }),
        "event: error\ndata: {\"error\":{\"message\":\"boom\",\"type\":\"api_error\"},\"type\":\"error\"}\n\n"
    );
}

#[test]
fn frames_hold_one_blank_line() {
    let frame = frame(AnthropicOut::TextDelta { index: 0, text: "a\n\nb\r\n".into() });
    assert_eq!(frame.matches("\n\n").count(), 1);
    assert!(frame.ends_with("\n\n"));
}

#[test]
fn other_frames() {
    assert_eq!(ping(), "event: ping\ndata: {\"type\":\"ping\"}\n\n");
    assert_eq!(error_event("x".into()), frame(AnthropicOut::Error { message: "x".into() }));
    assert_eq!(format_sse_event("a", &Json::Null), "event: a\ndata: null\n\n");
    assert_eq!(format_sse_data(&Json::Bool(true)), "event: message\ndata: true\n\n");
    assert_eq!(
        message_start("msg_1", "m"),
        "event: message_start\ndata: {\"message\":{\"content\":[],\"id\":\"msg_1\",\"model\":\"m\",\"role\":\"assistant\",\"stop_reason\":null,\"stop_sequence\":null,\"type\":\"message\",\"usage\":{\"input_tokens\":0,\"output_tokens\":0}},\"type\":\"message_start\"}\n\n"
    );
}
