use grok_anthropic_bridge::json::Json;
use grok_anthropic_bridge::traffic::{
    capture_file_name, side_name, TrafficBus, TrafficFrame, TrafficSide,
};

fn frame(request_id: &str, side: TrafficSide, phase: &str, unix_ms: u128) -> TrafficFrame {
    TrafficFrame {
        request_id: request_id.into(),
        side,
        phase: phase.into(),
        payload: Json::number(unix_ms as u64),
        unix_ms,
    }
}

fn times(frames: &[TrafficFrame]) -> Vec<u128> {
    frames.iter().map(|f| f.unix_ms).collect()
}

#[test]
fn the_newest_frames_stay() {
    let mut bus: TrafficBus<String> = TrafficBus::new(3, None);
    for i in 0..20 {
        bus.push(frame("r", TrafficSide::Grok, "p", i));
    }
    assert_eq!(times(&bus.recent(100)), (4..20).rev().collect::<Vec<u128>>());
    assert_eq!(times(&bus.recent(2)), vec![19, 18]);
    assert!(bus.recent(0).is_empty());
}

#[test]
fn a_default_bus_keeps_nothing() {
    let mut bus: TrafficBus<String> = TrafficBus::default();
    bus.push(frame("r", TrafficSide::Grok, "p", 1));
    assert!(bus.recent(5).is_empty());
    assert!(bus.capture_dir().is_none());
}

#[test]
fn payloads_are_recorded() {
    let mut bus = TrafficBus::new(512, Some("/tmp/capture"));
    bus.record_json("r1", TrafficSide::Claude, "request", Json::object(), 7);
    let recent = bus.recent(1);
    assert_eq!(recent[0].request_id, "r1");
    assert_eq!(recent[0].side, TrafficSide::Claude);
    assert_eq!(recent[0].phase, "request");
    assert_eq!(recent[0].payload, Json::object());
    assert_eq!(recent[0].unix_ms, 7);
    assert_eq!(bus.capture_dir(), Some(&"/tmp/capture"));
}

#[test]
fn capture_files_have_safe_names() {
    let f = frame("a/b c", TrafficSide::Grok, "re\\q", 340282366920938463463374607431768211455);
    assert_eq!(
        capture_file_name(&f, &format!("{:?}", TrafficSide::Claude)),
        "a_b_c_Grok_re_q_340282366920938463463374607431768211455.json"
    );
    let f = frame("r", TrafficSide::Claude, "out", 7);
    assert_eq!(capture_file_name(&f, "Client"), "r_Client_out_7.json");
    for side in [TrafficSide::Claude, TrafficSide::Grok] {
        let client = format!("{:?}", TrafficSide::Claude);
        assert_eq!(side_name(side, &client), format!("{side:?}"));
    }
}

#[test]
fn a_snapshot_sums_requests_up() {
    let mut bus: TrafficBus<String> = TrafficBus::new(16, None);
    bus.push(frame("r1", TrafficSide::Claude, "request", 1));
    bus.push(frame("r2", TrafficSide::Claude, "request", 2));
    bus.push(frame("r1", TrafficSide::Grok, "error", 3));
    bus.push(frame("r1", TrafficSide::Grok, "out", 4));
    let snap = bus.snapshot();
    assert_eq!(snap.total_frames, 4);
    assert_eq!(times(&snap.frames), vec![1, 2, 3, 4]);
    let ids: Vec<&str> = snap.requests.iter().map(|r| r.request_id.as_str()).collect();
    assert_eq!(ids, vec!["r2", "r1"]);
    let r1 = &snap.requests[1];
    assert_eq!((r1.frame_count, r1.claude_frames, r1.grok_frames), (3, 1, 2));
    assert_eq!(r1.last_phase, "out");
    assert!(r1.has_error && !snap.requests[0].has_error);
    assert_eq!(times(&bus.frames_for_request("r1")), vec![1, 3, 4]);
    assert!(bus.frames_for_request("r9").is_empty());
}
