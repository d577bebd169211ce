use grok_anthropic_bridge::credentials::{
    choose_auth, default_auth_json_path, load_session_from_contents, resolve_auth, AuthSource,
};
use grok_anthropic_bridge::paths::PathBase;

/// 2026-07-20T18:00:00Z
fn now_fixed() -> i64 {
    1_784_570_400
}

#[test]
fn session_preferred_over_api_key() {
    let json = r#"{
          "https://auth.x.ai::client": {
            "key": "session-token-abc",
            "auth_mode": "oidc",
            "expires_at": "2026-07-20T23:59:14Z"
          }
        }"#;
    let resolved =
        resolve_auth(Some(json), Some("api-key-should-lose"), None, None, now_fixed()).unwrap();
    assert_eq!(resolved.source, AuthSource::Session);
    assert_eq!(resolved.bearer, "session-token-abc");
}

#[test]
fn api_key_when_no_session_file() {
    let resolved = resolve_auth(None, Some("only-api-key"), None, None, now_fixed()).unwrap();
    assert_eq!(resolved.source, AuthSource::ApiKey);
    assert_eq!(resolved.bearer, "only-api-key");
}

#[test]
fn expired_session_skipped() {
    let json = r#"{
          "https://auth.x.ai::client": {
            "key": "old-session",
            "expires_at": "2026-07-19T00:00:00Z"
          }
        }"#;
    let auth = load_session_from_contents(json, now_fixed());
    assert!(auth.is_none(), "expired session must not be used");
}

#[test]
fn load_session_from_real_shape() {
    let json = r#"{
          "https://auth.x.ai::b1a00492-073a-47ea-816f-4c329264a828": {
            "key": "eyJhbGciOi.test",
            "auth_mode": "oidc",
            "expires_at": "2026-07-20T23:59:14.060059Z",
            "refresh_token": "refresh-not-used-as-bearer"
          }
        }"#;
    let auth = load_session_from_contents(json, now_fixed()).unwrap();
    assert_eq!(auth.source, AuthSource::Session);
    assert_eq!(auth.bearer, "eyJhbGciOi.test");
    assert!(auth.scope.unwrap().contains("auth.x.ai"));
}

#[test]
fn the_session_that_expires_last_wins() {
    let json = r#"{
        "a": {"key": "first", "expires_at": "2026-07-21T00:00:00Z"},
        "b": {"key": " second ", "expires_at": "2026-07-22T00:00:00Z"},
        "c": {"key": "third", "expires_at": "2026-07-21T12:00:00Z"},
        "d": {"key": "no expiry"},
        "e": {"key": "unreadable", "expires_at": "soon"}
    }"#;
    let auth = load_session_from_contents(json, now_fixed()).unwrap();
    assert_eq!(auth.bearer, "second");
    assert_eq!(auth.scope.as_deref(), Some("b"));
}

#[test]
fn the_first_of_equal_sessions_wins() {
    let json = r#"{
        "a": {"key": "first", "expires_at": "2026-07-21T00:00:00Z"},
        "b": {"key": "second", "expires_at": "2026-07-21T00:00:00Z"}
    }"#;
    let auth = load_session_from_contents(json, now_fixed()).unwrap();
    assert_eq!(auth.bearer, "first");
}

#[test]
fn key_scopes_and_blank_keys_are_no_sessions() {
    let json = r#"{
        "xai::api_key": {"key": "k1"},
        "other::api_key": {"key": "k2"},
        "blank": {"key": "   "},
        "text": "key",
        "number": {"key": 5}
    }"#;
    assert!(load_session_from_contents(json, now_fixed()).is_none());
    assert!(load_session_from_contents("[]", now_fixed()).is_none());
    assert!(load_session_from_contents("not json", now_fixed()).is_none());
}

#[test]
fn a_session_expires_a_minute_early() {
    let json = r#"{"s": {"key": "k", "expires_at": "2026-07-20T18:01:00Z"}}"#;
    assert!(load_session_from_contents(json, now_fixed()).is_none());
    assert!(load_session_from_contents(json, now_fixed() - 1).is_some());
}

#[test]
fn api_keys_are_tried_in_order() {
    let key = |o: Option<&str>, x: Option<&str>, g: Option<&str>| {
        choose_auth(None, o, x, g).map(|a| a.bearer)
    };
    assert_eq!(key(Some(" o "), Some("x"), Some("g")).as_deref(), Some("o"));
    assert_eq!(key(Some("  "), Some(" x"), Some("g")).as_deref(), Some("x"));
    assert_eq!(key(None, Some(""), Some("g ")).as_deref(), Some("g"));
    assert_eq!(key(None, None, None), None);
}

#[test]
fn auth_json_is_looked_for_in_order() {
    let plan = default_auth_json_path(Some("/grok"), Some("/home/u"), None);
    assert_eq!(plan.base, PathBase::Given("/grok"));
    assert_eq!(plan.names, vec!["auth.json"]);
    let plan = default_auth_json_path(None, Some("/home/u"), Some("/profile"));
    assert_eq!(plan.base, PathBase::Given("/home/u"));
    assert_eq!(plan.names, vec![".grok", "auth.json"]);
    let plan = default_auth_json_path(None, None, Some("/profile"));
    assert_eq!(plan.base, PathBase::Given("/profile"));
    let plan = default_auth_json_path::<&str>(None, None, None);
    assert_eq!(plan.base, PathBase::Here);
    assert_eq!(plan.names, vec![".grok", "auth.json"]);
}
