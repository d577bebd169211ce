use grok_anthropic_bridge::collector::{tool_block_value, MessageCollector};
use grok_anthropic_bridge::json::Json;
use grok_anthropic_bridge::translate::AnthropicOut;

fn collect(outs: Vec<AnthropicOut>) -> Result<MessageCollector, String> {
    let mut c = MessageCollector::new();
    for o in outs {
        c.collect(o)?;
    }
    Ok(c)
}

#[test]
fn a_message_is_collected() {
    let c = collect(vec![
        AnthropicOut::ThinkingStart { index: 0 },
        AnthropicOut::ThinkingDelta { index: 0, text: "h".into() },
        AnthropicOut::ThinkingDelta { index: 0, text: "m".into() },
        AnthropicOut::ThinkingSignature { index: 0, signature: "sig".into() },
        AnthropicOut::TextDelta { index: 1, text: "so".into() },
        AnthropicOut::ToolUseStart { index: 2, id: "a".into(), name: "t".into() },
        AnthropicOut::ToolUseDelta { index: 2, partial_json: "{\"x\"".into() },
        AnthropicOut::ToolUseDelta { index: 2, partial_json: ":1}".into() },
        AnthropicOut::ToolUseStart { index: 3, id: "b".into(), name: "u".into() },
        AnthropicOut::ToolUseDelta { index: 3, partial_json: "broken".into() },
        AnthropicOut::ToolUseStart { index: 4, id: "c".into(), name: "v".into() },
        AnthropicOut::MessageDelta {
            stop_reason: Some("tool_use".into()),
            input_tokens: Some(10),
            output_tokens: Some(4),
        },
        AnthropicOut::MessageStop,
    ])
    .unwrap();
    let expected = Json::parse(
        r#"{
            "id": "msg_r1", "type": "message", "role": "assistant", "model": "grok-4.5",
            "stop_reason": "tool_use", "stop_sequence": null,
            "usage": {"input_tokens": 10, "output_tokens": 4},
            "content": [
                {"type": "thinking", "thinking": "hm", "signature": "sig"},
                {"type": "text", "text": "so"},
                {"type": "tool_use", "id": "a", "name": "t", "input": {"x": 1}},
                {"type": "tool_use", "id": "b", "name": "u", "input": {}},
                {"type": "tool_use", "id": "c", "name": "v", "input": {}}
            ]
        }"#,
    )
    .unwrap();
    assert_eq!(c.finish("r1", "grok-4.5").to_text(), expected.to_text());
}

#[test]
fn nothing_collected_is_an_empty_message() {
    let c = collect(vec![AnthropicOut::ToolUseDelta { index: 0, partial_json: "x".into() }]).unwrap();
    assert_eq!(
        c.finish("r", "m").to_text(),
        r#"{"content":[],"id":"msg_r","model":"m","role":"assistant","stop_reason":"end_turn","stop_sequence":null,"type":"message","usage":{"input_tokens":0,"output_tokens":0}}"#
    );
}

#[test]
fn thinking_without_a_signature_has_an_empty_one() {
    let c = collect(vec![AnthropicOut::ThinkingDelta { index: 0, text: "t".into() }]).unwrap();
    let content = c.finish("r", "m");
    assert_eq!(
        content.get("content").unwrap().to_text(),
        r#"[{"signature":"","thinking":"t","type":"thinking"}]"#
    );
}

#[test]
fn an_error_stops_the_collection() {
    let e = collect(vec![
        AnthropicOut::TextDelta { index: 0, text: "x".into() },
        AnthropicOut::Error { message: "boom".into() },
        AnthropicOut::Error { message: "later".into() },
    ]);
    assert_eq!(e.err().as_deref(), Some("boom"));
}

#[test]
fn a_tool_block_without_input_has_an_empty_one() {
    assert_eq!(
        tool_block_value("i", "n", None).to_text(),
        r#"{"id":"i","input":{},"name":"n","type":"tool_use"}"#
    );
    assert_eq!(
        tool_block_value("i", "n", Some(Json::number(5))).to_text(),
        r#"{"id":"i","input":5,"name":"n","type":"tool_use"}"#
    );
}
