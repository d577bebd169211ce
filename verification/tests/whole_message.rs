use grok_anthropic_bridge::responses::{ResponseStreamEvent, ResponseUsage};
use grok_anthropic_bridge::stream_session::UpstreamInput;
use grok_anthropic_bridge::whole_message::WholeMessage;

fn text(s: &str) -> UpstreamInput {
    UpstreamInput::Event(ResponseStreamEvent::ResponseOutputTextDelta { delta: s.into() })
}

fn failure(message: &str) -> UpstreamInput {
    UpstreamInput::Event(ResponseStreamEvent::ResponseFailed { message: Some(message.into()) })
}

fn after(inputs: Vec<UpstreamInput>) -> WholeMessage {
    let mut m = WholeMessage::new();
    for i in inputs {
        assert!(m.has_room());
        m.next(i);
    }
    m
}

#[test]
fn a_whole_response_becomes_its_message() {
    let m = after(vec![
        text("he"),
        text("llo"),
        UpstreamInput::Event(ResponseStreamEvent::ResponseCompleted {
            usage: Some(ResponseUsage { input_tokens: 3, output_tokens: 4 }),
        }),
        UpstreamInput::Closed,
    ]);
    assert!(!m.has_failed());
    assert_eq!(
        m.finish("r", "m").unwrap().to_text(),
        r#"{"content":[{"text":"hello","type":"text"}],"id":"msg_r","model":"m","role":"assistant","stop_reason":"end_turn","stop_sequence":null,"type":"message","usage":{"input_tokens":3,"output_tokens":4}}"#
    );
}

#[test]
fn the_first_error_is_the_answer() {
    let m = after(vec![text("x"), failure("boom"), failure("later"), text("y")]);
    assert!(m.has_failed());
    assert_eq!(m.finish("r", "m").unwrap_err(), "boom");
    let m = after(vec![text("x"), UpstreamInput::Broken("cut".into()), failure("later")]);
    assert_eq!(m.finish("r", "m").unwrap_err(), "cut");
}
