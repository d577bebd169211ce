use grok_anthropic_bridge::responses::{ResponseStreamEvent, ResponseUsage};
use grok_anthropic_bridge::sse::{encode_out, error_event, message_start};
use grok_anthropic_bridge::stream_session::{
    event_record, message_id, open_failure, StreamSession, UpstreamInput,
};
use grok_anthropic_bridge::translate::{AnthropicOut, StreamReducer};

fn text(s: &str) -> ResponseStreamEvent {
    ResponseStreamEvent::ResponseOutputTextDelta { delta: s.into() }
}

fn frames(session: &mut StreamSession, input: UpstreamInput) -> Vec<String> {
    assert!(session.has_room());
    session.next(input).into_iter().map(|p| p.frame).collect()
}

#[test]
fn a_whole_response_is_sent_event_by_event() {
    let events = vec![
        text("a"),
        ResponseStreamEvent::ResponseOutputTextDone,
        ResponseStreamEvent::ResponseCompleted {
            usage: Some(ResponseUsage { input_tokens: 1, output_tokens: 2 }),
        },
    ];
    let mut reducer = StreamReducer::new();
    let mut expected = Vec::new();
    for e in &events {
        for out in reducer.push_event(e) {
            expected.extend(encode_out(&out));
        }
    }
    let (mut session, start) = StreamSession::start("r1", "m");
    assert_eq!(start, message_start("msg_r1", "m"));
    let mut sent = Vec::new();
    for e in events {
        sent.extend(frames(&mut session, UpstreamInput::Event(e)));
        assert!(!session.is_ended());
    }
    sent.extend(frames(&mut session, UpstreamInput::Closed));
    assert!(session.is_ended());
    assert_eq!(sent, expected);
    assert!(sent.last().unwrap().starts_with("event: message_stop\n"));
}

#[test]
fn an_upstream_that_just_closes_is_finished() {
    let (mut session, _) = StreamSession::start("r1", "m");
    let sent = frames(&mut session, UpstreamInput::Closed);
    let names: Vec<&str> =
        sent.iter().map(|f| f.lines().next().unwrap().trim_start_matches("event: ")).collect();
    assert_eq!(
        names,
        vec!["content_block_start", "content_block_stop", "message_delta", "message_stop"]
    );
}

#[test]
fn an_error_is_sent_once_and_last() {
    let (mut session, _) = StreamSession::start("r1", "m");
    assert_eq!(frames(&mut session, UpstreamInput::Event(text("a"))).len(), 2);
    assert_eq!(
        frames(&mut session, UpstreamInput::Broken("reset".into())),
        vec![error_event("reset".into())]
    );
    assert!(session.is_ended());
    assert!(frames(&mut session, UpstreamInput::Event(text("b"))).is_empty());
    assert!(frames(&mut session, UpstreamInput::Broken("again".into())).is_empty());
    assert!(frames(&mut session, UpstreamInput::Closed).is_empty());
}

#[test]
fn a_failed_response_is_an_error() {
    let (mut session, _) = StreamSession::start("r1", "m");
    let failed = ResponseStreamEvent::ResponseFailed { message: None };
    let pieces = session.next(UpstreamInput::Event(failed));
    assert_eq!(pieces.len(), 1);
    assert_eq!(pieces[0].record, None);
    assert_eq!(pieces[0].frame, error_event("upstream response failed".into()));
    assert!(session.is_ended());
}

#[test]
fn pieces_are_recorded() {
    let (mut session, _) = StreamSession::start("r1", "m");
    let pieces = session.next(UpstreamInput::Event(text("abc")));
    let records: Vec<String> = pieces.iter().map(|p| p.record.as_ref().unwrap().to_text()).collect();
    assert_eq!(
        records,
        vec![r#"{"type":"TextStart { index: 0 }"}"#, r#"{"index":0,"len":3,"type":"text_delta"}"#]
    );
    assert_eq!(
        event_record(&text("x")).to_text(),
        r#"{"type":"response.output_text.delta"}"#
    );
}

#[test]
fn a_failure_to_open_is_an_error_alone() {
    assert_eq!(open_failure("no".into()), error_event("no".into()));
    assert_eq!(message_id("r1"), "msg_r1");
    assert_eq!(
        encode_out(&AnthropicOut::Error { message: "no".into() }),
        vec![open_failure("no".into())]
    );
}
