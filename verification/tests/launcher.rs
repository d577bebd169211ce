use grok_anthropic_bridge::launcher::{
    claude_bridge_env, health_step, health_timeout, healthz_url, judge_health, loopback_base_url,
    HealthReply, HealthStep,
};

#[test]
fn claude_env_sets_base_and_model() {
    let e = claude_bridge_env("http://127.0.0.1:9", "grok-4.5");
    assert_eq!(e.get("ANTHROPIC_BASE_URL").unwrap(), "http://127.0.0.1:9");
    assert_eq!(e.get("ANTHROPIC_MODEL").unwrap(), "grok-4.5");
    assert_eq!(e.get("ANTHROPIC_SMALL_FAST_MODEL").unwrap(), "grok-4.5");
    assert_eq!(e.get("ANTHROPIC_AUTH_TOKEN").unwrap(), "unused");
    assert_eq!(e.get("CLAUDE_CODE_DISABLE_NONSTREAMING_FALLBACK").unwrap(), "1");
    assert_eq!(e.get("CLAUDE_CODE_DISABLE_NONESSENTIAL_TRAFFIC").unwrap(), "1");
    assert!(e.get("PATH").is_none());
    assert_eq!(e.len(), 6);
}

#[test]
fn loopback_url_format() {
    assert_eq!(loopback_base_url(18765), "http://127.0.0.1:18765");
}

#[test]
fn health_is_judged() {
    assert_eq!(healthz_url("http://127.0.0.1:9"), "http://127.0.0.1:9/healthz");
    assert_eq!(judge_health(HealthReply::Up), None);
    assert_eq!(
        judge_health(HealthReply::Status("503 Service Unavailable".into())).as_deref(),
        Some("status 503 Service Unavailable")
    );
    assert_eq!(judge_health(HealthReply::Unreachable("refused".into())).as_deref(), Some("refused"));
    assert_eq!(
        health_timeout("http://u/healthz", "5s", Some("refused".into())),
        "healthz not ready at http://u/healthz within 5s: refused"
    );
    assert_eq!(
        health_timeout("http://u/healthz", "0ns", None),
        "healthz not ready at http://u/healthz within 0ns: not attempted"
    );
}

#[test]
fn a_server_is_asked_until_the_deadline() {
    assert_eq!(health_step(HealthReply::Up, false), HealthStep::Ready);
    assert_eq!(health_step(HealthReply::Up, true), HealthStep::Ready);
    assert_eq!(
        health_step(HealthReply::Status("503".into()), false),
        HealthStep::Retry("status 503".into())
    );
    assert_eq!(
        health_step(HealthReply::Unreachable("refused".into()), true),
        HealthStep::GiveUp("refused".into())
    );
}
