use grok_anthropic_bridge::credentials::AuthSource;
use grok_anthropic_bridge::live_auth::{
    client_version, extra_headers, fallback_key, grok_home_from_auth_json, sampler_settings,
    start_fallback, start_with, static_key_notice, StartedAuth,
};
use grok_anthropic_bridge::paths::PathBase;
use grok_anthropic_bridge::serve_config::{IpAddress, ServeConfig};

#[test]
fn the_proxy_gets_three_headers_in_order() {
    let headers = extra_headers("https://cli-chat-proxy.grok.com/v1");
    let list: Vec<(&str, &str)> = headers.iter().map(|(k, v)| (k.as_str(), v.as_str())).collect();
    assert_eq!(
        list,
        vec![
            ("X-XAI-Token-Auth", "xai-grok-cli"),
            ("x-authenticateresponse", "authenticate-response"),
            ("x-grok-client-mode", "headless"),
        ]
    );
    assert!(extra_headers("https://api.x.ai/v1").is_empty());
}

#[test]
fn the_sampler_is_set_up() {
    let s = sampler_settings(
        Some("k".into()),
        "https://api.x.ai/v1",
        "m",
        300,
        "my-bridge",
        "1.2".into(),
    );
    assert_eq!(s.api_key.as_deref(), Some("k"));
    assert_eq!((s.base_url.as_str(), s.model.as_str()), ("https://api.x.ai/v1", "m"));
    assert_eq!(s.context_window, 272_000);
    assert_eq!(s.idle_timeout_secs, Some(300));
    assert_eq!(s.client_identifier.as_deref(), Some("my-bridge"));
    assert_eq!(s.client_version.as_deref(), Some("1.2"));
    assert!(s.supports_backend_search && s.extra_headers.is_empty());
}

#[test]
fn client_versions_are_tried_in_order() {
    assert_eq!(client_version(Some("a".into()), Some("b".into())), "a");
    assert_eq!(client_version(None, Some("b".into())), "b");
    assert_eq!(client_version(None, None), "0.2.106");
}

#[test]
fn grok_home_is_found_in_order() {
    let plan = grok_home_from_auth_json(Some("/d"), false, Some("/g"), Some("/h"));
    assert_eq!((plan.base, plan.names), (PathBase::Given("/d"), vec![]));
    let plan = grok_home_from_auth_json(Some(""), true, Some("/g"), Some("/h"));
    assert_eq!((plan.base, plan.names), (PathBase::Given("/g"), vec![]));
    let plan = grok_home_from_auth_json(None, false, None, Some("/h"));
    assert_eq!((plan.base, plan.names), (PathBase::Given("/h"), vec![".grok"]));
    let plan = grok_home_from_auth_json::<&str>(None, false, None, None);
    assert_eq!((plan.base, plan.names), (PathBase::Here, vec![".grok"]));
}

#[test]
fn a_static_key_is_the_fallback() {
    let json = r#"{"s": {"key": "session"}}"#;
    let k = start_fallback(Some(json), Some("given"), None, None, 0).unwrap();
    assert_eq!((k.key.as_str(), k.source), ("session", AuthSource::Session));
    let k = start_fallback(None, None, None, Some("grok"), 0).unwrap();
    assert_eq!((k.key.as_str(), k.source), ("grok", AuthSource::ApiKey));
    assert_eq!(
        fallback_key(None).unwrap_err(),
        "no credentials: run `grok login` or set XAI_API_KEY (LiveSessionAuth also failed)"
    );
    assert_eq!(
        static_key_notice(AuthSource::Session, "/a"),
        "auth: static session key from /a (refresh unavailable: re-run grok login if 401s)"
    );
    assert_eq!(
        static_key_notice(AuthSource::ApiKey, "/a"),
        "auth: API key (static, no OIDC refresh)"
    );
}

#[test]
fn a_live_session_comes_first() {
    match start_with(Some(7), Some(r#"{"s": {"key": "k"}}"#), Some("given"), None, None, 0) {
        Ok(StartedAuth::Session(s)) => assert_eq!(s, 7),
        _ => panic!("the live session is used"),
    }
    match start_with::<u8>(None, None, Some("given"), None, None, 0) {
        Ok(StartedAuth::Key(k)) => {
            assert_eq!((k.key.as_str(), k.source), ("given", AuthSource::ApiKey));
        }
        _ => panic!("the key is used"),
    }
    assert!(start_with::<u8>(None, None, Some(" "), None, None, 0).is_err());
}

#[test]
fn models_are_accepted_by_the_list() {
    let mut c: ServeConfig<String> = ServeConfig::default();
    assert_eq!(c.client_identifier, "anthropic-bridge");
    assert!(c.allows_model("anything"));
    c.allow_models = vec!["grok-4.5".into(), "grok-3".into()];
    assert!(c.allows_model("grok-3"));
    assert!(!c.allows_model("grok-4"));
}

#[test]
fn open_binds_are_refused() {
    let mut c: ServeConfig<String> = ServeConfig::default();
    assert_eq!(c.bind, IpAddress::V4([127, 0, 0, 1]));
    assert_eq!((c.port, c.default_model.as_str(), c.idle_timeout_secs), (18765, "grok-4.5", 300));
    assert!(c.validate_bind("127.0.0.1").is_ok());
    c.bind = IpAddress::V4([127, 9, 9, 9]);
    assert!(c.validate_bind("127.9.9.9").is_ok());
    c.bind = IpAddress::V6([0, 0, 0, 0, 0, 0, 0, 1]);
    assert!(c.validate_bind("::1").is_ok());
    c.bind = IpAddress::V6([0, 0, 0, 0, 0, 0, 1, 1]);
    assert!(c.validate_bind("::1:1").is_err());
    c.bind = IpAddress::V4([0, 0, 0, 0]);
    assert_eq!(
        c.validate_bind("0.0.0.0").unwrap_err(),
        "refusing non-loopback bind 0.0.0.0 (no client auth on Anthropic façade); pass --i-understand-open-bind to override"
    );
    c.allow_open_bind = true;
    assert!(c.validate_bind("0.0.0.0").is_ok());
}
