use grok_anthropic_bridge::json::Json;
use grok_anthropic_bridge::monitor::{
    dump_file_name, format_side_frames, handle_key, list_height, min_u16, report_dump,
    request_line, requests_title, scroll_focus, select_delta, short_id, status_line,
    sync_selection, truncate, try_format_side_frames, try_short_id, Key, KeyAction, PaneFocus,
    UiState,
};
use grok_anthropic_bridge::traffic::{TrafficBus, TrafficFrame, TrafficSide, TrafficSnapshot};

fn frame(request_id: &str, side: TrafficSide, phase: &str, payload: Json) -> TrafficFrame {
    TrafficFrame { request_id: request_id.into(), side, phase: phase.into(), payload, unix_ms: 0 }
}

fn snapshot(ids: &[&str]) -> TrafficSnapshot {
    let mut bus: TrafficBus<String> = TrafficBus::new(64, None);
    for id in ids {
        bus.push(frame(id, TrafficSide::Claude, "request", Json::Null));
    }
    bus.snapshot()
}

fn press(ui: &mut UiState, snap: &TrafficSnapshot, key: Key) -> KeyAction {
    handle_key(ui, snap, key, false, true)
}

#[test]
fn the_newest_request_is_followed() {
    let mut ui = UiState::default();
    sync_selection(&mut ui, &snapshot(&[]));
    assert_eq!((ui.selected, ui.selected_id.as_deref()), (None, None));
    sync_selection(&mut ui, &snapshot(&["a", "b"]));
    assert_eq!((ui.selected, ui.selected_id.as_deref()), (Some(0), Some("b")));
    sync_selection(&mut ui, &snapshot(&["a", "b", "c"]));
    assert_eq!((ui.selected, ui.selected_id.as_deref()), (Some(0), Some("c")));
}

#[test]
fn a_selection_sticks_until_it_is_gone() {
    let snap = snapshot(&["a", "b", "c"]);
    let mut ui = UiState::default();
    sync_selection(&mut ui, &snap);
    press(&mut ui, &snap, Key::Down);
    assert_eq!((ui.selected, ui.selected_id.as_deref()), (Some(1), Some("b")));
    assert!(!ui.follow_latest);
    sync_selection(&mut ui, &snapshot(&["a", "b", "c", "d"]));
    assert_eq!((ui.selected, ui.selected_id.as_deref()), (Some(2), Some("b")));
    sync_selection(&mut ui, &snapshot(&["x", "y"]));
    assert_eq!((ui.selected, ui.selected_id.as_deref()), (Some(0), Some("y")));
    press(&mut ui, &snap, Key::Char('g'));
    assert!(ui.follow_latest);
    assert_eq!(ui.selected_id.as_deref(), Some("c"));
}

#[test]
fn selections_stay_in_the_list() {
    let snap = snapshot(&["a", "b"]);
    let mut ui = UiState::default();
    select_delta(&mut ui, &snap, -5);
    assert_eq!(ui.selected, Some(0));
    select_delta(&mut ui, &snap, i32::MAX);
    assert_eq!((ui.selected, ui.selected_id.as_deref()), (Some(1), Some("a")));
    select_delta(&mut ui, &snapshot(&[]), 1);
    assert_eq!(ui.selected, Some(1));
}

#[test]
fn panes_scroll_within_bounds() {
    let snap = snapshot(&["a"]);
    let mut ui = UiState::default();
    scroll_focus(&mut ui, 5);
    assert_eq!((ui.claude_scroll, ui.grok_scroll), (0, 0));
    press(&mut ui, &snap, Key::Tab);
    assert_eq!(ui.focus, PaneFocus::Claude);
    press(&mut ui, &snap, Key::Char(']'));
    press(&mut ui, &snap, Key::Char('j'));
    assert_eq!(ui.claude_scroll, 4);
    press(&mut ui, &snap, Key::Char('['));
    press(&mut ui, &snap, Key::Char('['));
    assert_eq!(ui.claude_scroll, 0);
    press(&mut ui, &snap, Key::Tab);
    scroll_focus(&mut ui, 65535);
    scroll_focus(&mut ui, 1);
    assert_eq!(ui.grok_scroll, 65535);
    scroll_focus(&mut ui, -65541);
    assert_eq!(ui.grok_scroll, 65530);
    scroll_focus(&mut ui, 65541);
    assert_eq!(ui.grok_scroll, 65535);
    press(&mut ui, &snap, Key::Char('k'));
    assert_eq!(ui.grok_scroll, 65534);
    press(&mut ui, &snap, Key::Tab);
    assert_eq!(ui.focus, PaneFocus::Requests);
    press(&mut ui, &snap, Key::BackTab);
    assert_eq!(ui.focus, PaneFocus::Grok);
}

#[test]
fn keys_ask_for_actions() {
    let snap = snapshot(&["a"]);
    let mut ui = UiState::default();
    assert_eq!(press(&mut ui, &snap, Key::Char('q')), KeyAction::Quit);
    assert_eq!(press(&mut ui, &snap, Key::Esc), KeyAction::Quit);
    assert_eq!(press(&mut ui, &snap, Key::Char('c')), KeyAction::Stay);
    assert_eq!(handle_key(&mut ui, &snap, Key::Char('c'), true, true), KeyAction::Quit);
    assert_eq!(handle_key(&mut ui, &snap, Key::Char('w'), false, false), KeyAction::Stay);
    assert_eq!(ui.status, "no --capture-dir; start with --capture-dir to enable w");
    assert_eq!(press(&mut ui, &snap, Key::Char('w')), KeyAction::Stay);
    assert_eq!(ui.status, "no request selected");
    sync_selection(&mut ui, &snap);
    assert_eq!(press(&mut ui, &snap, Key::Char('w')), KeyAction::Dump("a".into()));
    report_dump(&mut ui, 3, "a", "/tmp/c");
    assert_eq!(ui.status, "wrote 3 frames for a → /tmp/c");
    assert_eq!(dump_file_name("a"), "tui-dump-a.json");
    press(&mut ui, &snap, Key::Char('?'));
    assert_eq!(ui.status, "q quit · j/k · Tab panes · [/] scroll · g latest · w dump");
    assert_eq!(press(&mut ui, &snap, Key::Other), KeyAction::Stay);
}

#[test]
fn heights_and_short_forms() {
    assert_eq!(min_u16(12, 5), 5);
    assert_eq!(min_u16(12, 1), 3);
    assert_eq!(min_u16(2, 9), 3);
    assert_eq!((list_height(0), list_height(15), list_height(80)), (3, 7, 12));
    assert_eq!(short_id("msg_0123456789"), "01234567");
    assert_eq!(short_id("0123"), "0123");
    assert_eq!(short_id("msg_"), "");
    assert_eq!(try_short_id("1234567é89"), None);
    assert_eq!(try_short_id("123456é89").as_deref(), Some("123456é"));
    assert_eq!(truncate("abc", 3), "abc");
    assert_eq!(truncate("abcd", 3), "ab…");
    assert_eq!(truncate("a", 0), "…");
}

#[test]
fn lines_are_laid_out() {
    let mut bus: TrafficBus<String> = TrafficBus::new(64, None);
    bus.push(frame("msg_0123456789", TrafficSide::Claude, "request", Json::Null));
    bus.push(frame("msg_0123456789", TrafficSide::Grok, "error", Json::Null));
    let snap = bus.snapshot();
    assert_eq!(request_line(&snap.requests[0]), "01234567  f=2    C:1  G:1   error ERR");
    assert_eq!(requests_title(1), " Requests (1) ");
    assert_eq!(
        status_line("127.0.0.1:1", 2, None, ""),
        " 127.0.0.1:1  frames=2  capture=—  | q quit · j/k · Tab · [/] scroll · g latest · w dump · ? help"
    );
    assert_eq!(status_line("a", 0, Some("/c"), "s"), " a  frames=0  capture=/c  | s");
}

#[test]
fn frames_are_shown_by_side() {
    let frames = vec![
        frame("r", TrafficSide::Claude, "request", Json::object().with("a", Json::number(1))),
        frame("r", TrafficSide::Grok, "out", Json::Null),
    ];
    assert_eq!(
        format_side_frames(&frames, TrafficSide::Claude),
        "── request ──\n{\n  \"a\": 1\n}\n\n"
    );
    assert_eq!(
        try_format_side_frames(&frames, TrafficSide::Grok).as_deref(),
        Some("── out ──\nnull\n\n")
    );
    assert_eq!(
        format_side_frames(&Vec::new(), TrafficSide::Grok),
        "(no frames for this side yet)"
    );
}

#[test]
fn long_payloads_are_cut() {
    let long = vec![frame("r", TrafficSide::Grok, "p", Json::text(&"x".repeat(12_000)))];
    let shown = format_side_frames(&long, TrafficSide::Grok);
    let expected =
        format!("── p ──\n\"{}…\n[truncated 12002 bytes]\n\n", "x".repeat(11_999));
    assert_eq!(shown, expected);
    let odd = vec![frame("r", TrafficSide::Grok, "p", Json::text(&"é".repeat(6_001)))];
    assert_eq!(try_format_side_frames(&odd, TrafficSide::Grok), None);
}
