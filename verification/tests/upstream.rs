use grok_anthropic_bridge::upstream::{is_auth_error, OpenAction, OpenEvent, StreamOpener};

#[test]
fn refused_credentials_are_recognised() {
    assert!(is_auth_error("HTTP 401"));
    assert!(is_auth_error("UnAuthorized"));
    assert!(is_auth_error("Authentication failed"));
    assert!(!is_auth_error("HTTP 500"));
    assert!(!is_auth_error(""));
}

#[test]
fn a_session_is_recovered_once() {
    let mut o = StreamOpener::new();
    assert_eq!(o.next(OpenEvent::Failed("401 a".into()), true), OpenAction::Recover);
    assert_eq!(o.next(OpenEvent::Recovered(true), true), OpenAction::Open);
    assert_eq!(
        o.next(OpenEvent::Failed("401 b".into()), true),
        OpenAction::Fail("401 b".into())
    );
}

#[test]
fn a_failed_recovery_reports_the_first_error() {
    let mut o = StreamOpener::new();
    assert_eq!(o.next(OpenEvent::Failed("401 a".into()), true), OpenAction::Recover);
    assert_eq!(o.next(OpenEvent::Recovered(false), true), OpenAction::Fail("401 a".into()));
}

#[test]
fn other_errors_are_reported() {
    let mut o = StreamOpener::new();
    assert_eq!(o.next(OpenEvent::Failed("500".into()), true), OpenAction::Fail("500".into()));
    let mut o = StreamOpener::new();
    assert_eq!(o.next(OpenEvent::Failed("401".into()), false), OpenAction::Fail("401".into()));
    let mut o = StreamOpener::new();
    assert_eq!(o.next(OpenEvent::Opened, false), OpenAction::Use);
}
