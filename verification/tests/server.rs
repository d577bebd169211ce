use grok_anthropic_bridge::epoch::SessionRegistry;
use grok_anthropic_bridge::json::Json;
use grok_anthropic_bridge::serve_config::ServeConfig;
use grok_anthropic_bridge::server::{
    accept_message, anthropic_error, check_model, claude_session, count_tokens, estimate_tokens,
    healthz, new_request_id, upstream_error, wants_stream,
};

fn json(s: &str) -> Json {
    Json::parse(s).unwrap()
}

#[test]
fn health_is_reported() {
    assert_eq!(healthz().to_text(), r#"{"ok":true,"service":"grok-anthropic-bridge"}"#);
}

#[test]
fn tokens_are_estimated() {
    assert_eq!(count_tokens(&json("{}")).to_text(), r#"{"input_tokens":1}"#);
    assert_eq!(count_tokens(&json(r#"{"a": "0123456789"}"#)).to_text(), r#"{"input_tokens":4}"#);
    assert_eq!(count_tokens(&json(r#""éééé""#)).to_text(), r#"{"input_tokens":2}"#);
    assert_eq!(estimate_tokens(0), 1);
    assert_eq!(estimate_tokens(8), 2);
    assert_eq!(estimate_tokens(11), 2);
}

#[test]
fn streams_are_asked_for_by_true() {
    assert!(wants_stream(&json(r#"{"stream": true}"#)));
    assert!(!wants_stream(&json(r#"{"stream": false}"#)));
    assert!(!wants_stream(&json(r#"{"stream": "true"}"#)));
    assert!(!wants_stream(&json("{}")));
}

#[test]
fn the_session_header_comes_first() {
    let body = json(r#"{"metadata": {"user_id": "u"}}"#);
    assert_eq!(claude_session(Some("h"), &body), Some("h"));
    assert_eq!(claude_session(None, &body), Some("u"));
    assert_eq!(claude_session(None, &json("{}")), None);
}

#[test]
fn errors_have_a_status_and_a_body() {
    let e = anthropic_error(500, "api_error", "m");
    assert_eq!(e.status, 500);
    assert_eq!(e.body.to_text(), r#"{"error":{"message":"m","type":"api_error"},"type":"error"}"#);
    assert_eq!(upstream_error("x").status, 502);
}

#[test]
fn a_message_is_accepted() {
    let mut sessions = SessionRegistry::new();
    let body = json(
        r#"{"stream": true, "model": "m[1m]", "tools": [{"name": "t"}, {"name": "XSearch"}],
            "messages": [{"role": "user", "content": "hi"}]}"#,
    );
    let plan = accept_message(&mut sessions, Some("s1"), &body, "grok-4.5", "r1").unwrap();
    assert!(plan.stream);
    assert_eq!(plan.request.items.len(), 1);
    let conv = plan.request.x_grok_conv_id.clone().unwrap();
    assert_eq!(
        plan.meta.to_text(),
        format!(
            r#"{{"hosted_tools":1,"items":1,"model":"m","tools":1,"x_grok_conv_id":"{conv}","x_grok_req_id":"r1","x_grok_session_id":"s1","x_grok_turn_idx":"1"}}"#
        )
    );
    let again = accept_message(&mut sessions, Some("s1"), &body, "grok-4.5", "r2").unwrap();
    assert_eq!(again.request.x_grok_turn_idx.as_deref(), Some("2"));
    assert_eq!(again.request.x_grok_conv_id, Some(conv));
}

#[test]
fn a_refused_message_counts_as_a_turn() {
    let mut sessions = SessionRegistry::new();
    let e = accept_message(&mut sessions, None, &json("{}"), "m", "r").unwrap_err();
    assert_eq!(e.status, 400);
    assert_eq!(
        e.body.to_text(),
        r#"{"error":{"message":"messages must be an array","type":"invalid_request_error"},"type":"error"}"#
    );
    assert_eq!(sessions.turns(), 1);
}

#[test]
fn a_model_off_the_list_is_refused() {
    let mut sessions = SessionRegistry::new();
    let body = json(r#"{"model": "m[1m]", "messages": []}"#);
    let mut config: ServeConfig<String> = ServeConfig::default();
    let plan = accept_message(&mut sessions, None, &body, "d", "r").unwrap();
    let plan = check_model(&config, plan).unwrap();
    config.allow_models = vec!["m".into()];
    let plan = check_model(&config, plan).unwrap();
    config.allow_models = vec!["d".into()];
    let e = check_model(&config, plan).unwrap_err();
    assert_eq!(e.status, 400);
    assert_eq!(
        e.body.to_text(),
        r#"{"error":{"message":"model is not allowed: m","type":"invalid_request_error"},"type":"error"}"#
    );
}

#[test]
fn request_ids_are_uuids() {
    let id = new_request_id();
    assert_eq!(id.len(), 36);
    assert_eq!(id.matches('-').count(), 4);
    assert_ne!(id, new_request_id());
}
