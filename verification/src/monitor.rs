//! The traffic monitor: what it selects, how keys move it and what its lines
//! say.

use vstd::prelude::*;

use crate::json;
use crate::text;
use crate::traffic;
use crate::traffic::{
    FrameView, RequestSummary, SummaryView, TrafficFrame, TrafficSide, TrafficSnapshot,
};

verus! {

/// The pane that keys go to.
#[derive(Debug, Clone, Copy, PartialEq, Eq, Structural)]
pub enum PaneFocus {
    Requests,
    Claude,
    Grok,
}

/// What the monitor remembers.
#[derive(Debug, Clone, PartialEq, Eq)]
pub struct UiState {
    /// Position of the selected request in the list.
    pub selected: Option<usize>,
    pub focus: PaneFocus,
    pub claude_scroll: u16,
    pub grok_scroll: u16,
    /// Id of the selected request.
    pub selected_id: Option<String>,
    /// What the status line says instead of the key help.
    pub status: String,
    /// Whether the newest request is always the selected one.
    pub follow_latest: bool,
}

/// The mathematical value of a [`UiState`].
pub ghost struct UiView {
    pub selected: Option<int>,
    pub focus: PaneFocus,
    pub claude_scroll: int,
    pub grok_scroll: int,
    pub selected_id: Option<Seq<char>>,
    pub status: Seq<char>,
    pub follow_latest: bool,
}

impl View for UiState {
    type V = UiView;

    open spec fn view(&self) -> UiView {
        UiView {
            selected: match self.selected {
                Some(i) => Some(i as int),
                None => None,
            },
            focus: self.focus,
            claude_scroll: self.claude_scroll as int,
            grok_scroll: self.grok_scroll as int,
            selected_id: text::opt_string(self.selected_id),
            status: self.status@,
            follow_latest: self.follow_latest,
        }
    }
}

impl Default for UiState {
    fn default() -> (r: UiState)
        ensures
            r@ == UiView::initial(),
    {
        let r = UiState {
            selected: None,
            focus: PaneFocus::Requests,
            claude_scroll: 0,
            grok_scroll: 0,
            selected_id: None,
            status: String::new(),
            follow_latest: true,
        };
        assert(r@.status =~= Seq::empty());
        r
    }
}

/// The requests of a snapshot.
pub open spec fn requests_of(snap: TrafficSnapshot) -> Seq<SummaryView> {
    traffic::summaries_view(snap.requests@)
}

/// `x`, or the nearest number from `lo` to `hi`.
pub open spec fn clamped(x: int, lo: int, hi: int) -> int {
    if x < lo {
        lo
    } else if x > hi {
        hi
    } else {
        x
    }
}

/// The lines that a pane scrolls by for a step of `delta`: as many as its low 16
/// bits say, down or, where it is negative, up.
pub open spec fn lines(delta: int) -> int {
    if delta < 0 {
        -(-delta % 0x1_0000)
    } else {
        delta % 0x1_0000
    }
}

/// The pane behind this one.
pub open spec fn pane_after(p: PaneFocus) -> PaneFocus {
    match p {
        PaneFocus::Requests => PaneFocus::Claude,
        PaneFocus::Claude => PaneFocus::Grok,
        PaneFocus::Grok => PaneFocus::Requests,
    }
}

/// The pane before this one.
pub open spec fn pane_before(p: PaneFocus) -> PaneFocus {
    match p {
        PaneFocus::Requests => PaneFocus::Grok,
        PaneFocus::Claude => PaneFocus::Requests,
        PaneFocus::Grok => PaneFocus::Claude,
    }
}

/// What the help key makes the status line say.
pub const KEY_HELP: &'static str = "q quit · j/k · Tab panes · [/] scroll · g latest · w dump";

/// What the status line says of the keys.
pub const STATUS_HELP: &'static str =
    "q quit · j/k · Tab · [/] scroll · g latest · w dump · ? help";

/// What the dump key says without a place to write to.
pub const NO_CAPTURE: &'static str = "no --capture-dir; start with --capture-dir to enable w";

/// What the dump key says without a request.
pub const NO_SELECTION: &'static str = "no request selected";

/// A key that was pressed.
#[derive(Debug, Clone, Copy, PartialEq, Eq)]
pub enum Key {
    Char(char),
    Esc,
    Tab,
    BackTab,
    Down,
    Up,
    Other,
}

/// What a key asks for.
#[derive(Debug, Clone, PartialEq, Eq)]
pub enum KeyAction {
    /// Nothing more than the change of state.
    Stay,
    /// Stop the monitor and the server.
    Quit,
    /// Write the frames of this request.
    Dump(String),
}

/// The mathematical value of a [`KeyAction`].
pub ghost enum KeyActionView {
    Stay,
    Quit,
    Dump(Seq<char>),
}

impl View for KeyAction {
    type V = KeyActionView;

    open spec fn view(&self) -> KeyActionView {
        match self {
            KeyAction::Stay => KeyActionView::Stay,
            KeyAction::Quit => KeyActionView::Quit,
            KeyAction::Dump(id) => KeyActionView::Dump(id@),
        }
    }
}

impl UiView {
    /// The monitor at its start.
    pub open spec fn initial() -> UiView {
        UiView {
            selected: None,
            focus: PaneFocus::Requests,
            claude_scroll: 0,
            grok_scroll: 0,
            selected_id: None,
            status: Seq::empty(),
            follow_latest: true,
        }
    }

    /// With request `i` selected.
    pub open spec fn select(self, requests: Seq<SummaryView>, i: int) -> UiView {
        UiView { selected: Some(i), selected_id: Some(requests[i].request_id), ..self }
    }

    /// The selection in view of these requests: the newest one where it is
    /// followed or the selected one is gone, else the selected one.
    pub open spec fn synced(self, requests: Seq<SummaryView>) -> UiView {
        if requests.len() == 0 {
            UiView { selected: None, selected_id: None, ..self }
        } else if self.follow_latest || self.selected_id is None {
            self.select(requests, 0)
        } else {
            let at = traffic::summary_position(requests, self.selected_id->0);
            if at < requests.len() {
                UiView { selected: Some(at), ..self }
            } else {
                self.select(requests, 0)
            }
        }
    }

    /// The selection moved by `delta` requests, as far as there are any.
    pub open spec fn moved(self, requests: Seq<SummaryView>, delta: int) -> UiView {
        if requests.len() == 0 {
            self
        } else {
            let current = match self.selected {
                Some(i) => i,
                None => 0,
            };
            UiView {
                claude_scroll: 0,
                grok_scroll: 0,
                ..self.select(requests, clamped(current + delta, 0, requests.len() - 1))
            }
        }
    }

    /// The pane in focus scrolled by a step of `delta`.
    pub open spec fn scrolled(self, delta: int) -> UiView {
        match self.focus {
            PaneFocus::Requests => self,
            PaneFocus::Claude => UiView {
                claude_scroll: clamped(self.claude_scroll + lines(delta), 0, 65535),
                ..self
            },
            PaneFocus::Grok => UiView {
                grok_scroll: clamped(self.grok_scroll + lines(delta), 0, 65535),
                ..self
            },
        }
    }

    /// A step down or up: the selection moves where the requests have the focus,
    /// else the pane in focus scrolls.
    pub open spec fn stepped(self, requests: Seq<SummaryView>, delta: int) -> UiView {
        if self.focus == PaneFocus::Requests {
            UiView { follow_latest: false, ..self }.moved(requests, delta)
        } else {
            self.scrolled(delta)
        }
    }

    /// What a key does.
    pub open spec fn pressed(
        self,
        requests: Seq<SummaryView>,
        key: Key,
        control: bool,
        can_capture: bool,
    ) -> (UiView, KeyActionView) {
        match key {
            Key::Esc => (self, KeyActionView::Quit),
            Key::Tab => (UiView { focus: pane_after(self.focus), ..self }, KeyActionView::Stay),
            Key::BackTab => (
                UiView { focus: pane_before(self.focus), ..self },
                KeyActionView::Stay,
            ),
            Key::Down => (self.stepped(requests, 1), KeyActionView::Stay),
            Key::Up => (self.stepped(requests, -1), KeyActionView::Stay),
            Key::Other => (self, KeyActionView::Stay),
            Key::Char(c) => if c == 'q' || (c == 'c' && control) {
                (self, KeyActionView::Quit)
            } else if c == 'j' {
                (self.stepped(requests, 1), KeyActionView::Stay)
            } else if c == 'k' {
                (self.stepped(requests, -1), KeyActionView::Stay)
            } else if c == '[' {
                (self.scrolled(-3), KeyActionView::Stay)
            } else if c == ']' {
                (self.scrolled(3), KeyActionView::Stay)
            } else if c == 'g' {
                if self.focus == PaneFocus::Requests && requests.len() > 0 {
                    (
                        UiView {
                            follow_latest: true,
                            claude_scroll: 0,
                            grok_scroll: 0,
                            ..self.select(requests, 0)
                        },
                        KeyActionView::Stay,
                    )
                } else {
                    (self, KeyActionView::Stay)
                }
            } else if c == 'w' {
                if !can_capture {
                    (UiView { status: NO_CAPTURE@, ..self }, KeyActionView::Stay)
                } else {
                    match self.selected_id {
                        Some(id) => (self, KeyActionView::Dump(id)),
                        None => (UiView { status: NO_SELECTION@, ..self }, KeyActionView::Stay),
                    }
                }
            } else if c == '?' {
                (UiView { status: KEY_HELP@, ..self }, KeyActionView::Stay)
            } else {
                (self, KeyActionView::Stay)
            },
        }
    }
}

fn select(ui: &mut UiState, snap: &TrafficSnapshot, i: usize)
    requires
        i < snap.requests@.len(),
    ensures
        final(ui)@ == old(ui)@.select(requests_of(*snap), i as int),
{
    ui.selected = Some(i);
    ui.selected_id = Some(snap.requests[i].request_id.clone());
}

/// Brings the selection in line with the requests.
pub fn sync_selection(ui: &mut UiState, snap: &TrafficSnapshot)
    ensures
        final(ui)@ == old(ui)@.synced(requests_of(*snap)),
{
    let ghost requests = requests_of(*snap);
    if snap.requests.len() == 0 {
        ui.selected = None;
        ui.selected_id = None;
        return;
    }
    if !ui.follow_latest {
        if let Some(id) = &ui.selected_id {
            let mut at: usize = 0;
            while at < snap.requests.len() && !text::same(
                snap.requests[at].request_id.as_str(),
                id.as_str(),
            )
                invariant
                    at <= snap.requests@.len(),
                    requests == requests_of(*snap),
                    forall|i: int| 0 <= i < at ==> (#[trigger] requests[i]).request_id != id@,
                decreases snap.requests@.len() - at,
            {
                at += 1;
            }
            proof {
                traffic::summary_position_is(requests, id@, at as int);
            }
            if at < snap.requests.len() {
                ui.selected = Some(at);
                return;
            }
        }
    }
    select(ui, snap, 0);
}

/// Moves the selection by `delta` requests, as far as there are any.
pub fn select_delta(ui: &mut UiState, snap: &TrafficSnapshot, delta: i32)
    ensures
        final(ui)@ == old(ui)@.moved(requests_of(*snap), delta as int),
{
    let len: usize = snap.requests.len();
    if len == 0 {
        return;
    }
    let current: i128 = match ui.selected {
        Some(i) => i as i128,
        None => 0,
    };
    let wanted: i128 = current + delta as i128;
    let next: usize = if wanted < 0 {
        0
    } else if wanted > len as i128 - 1 {
        len - 1
    } else {
        wanted as usize
    };
    select(ui, snap, next);
    ui.claude_scroll = 0;
    ui.grok_scroll = 0;
}

fn low_lines(n: i32) -> (r: u16)
    requires
        0 <= n,
    ensures
        r == n % 0x1_0000,
{
    assert(n as u16 == n % 0x1_0000) by (bit_vector)
        requires
            0 <= n,
    ;
    #[verifier::truncate]
    (n as u16)
}

fn scroll(at: u16, delta: i32) -> (r: u16)
    requires
        delta > i32::MIN,
    ensures
        r == clamped(at + lines(delta as int), 0, 65535),
{
    if delta < 0 {
        at.saturating_sub(low_lines(-delta))
    } else {
        at.saturating_add(low_lines(delta))
    }
}

/// Scrolls the pane in focus by a step of `delta`.
pub fn scroll_focus(ui: &mut UiState, delta: i32)
    requires
        delta > i32::MIN || old(ui)@.focus is Requests,
    ensures
        final(ui)@ == old(ui)@.scrolled(delta as int),
{
    match ui.focus {
        PaneFocus::Claude => {
            ui.claude_scroll = scroll(ui.claude_scroll, delta);
        },
        PaneFocus::Grok => {
            ui.grok_scroll = scroll(ui.grok_scroll, delta);
        },
        PaneFocus::Requests => {},
    }
}

fn step(ui: &mut UiState, snap: &TrafficSnapshot, delta: i32)
    requires
        delta > i32::MIN,
    ensures
        final(ui)@ == old(ui)@.stepped(requests_of(*snap), delta as int),
{
    if ui.focus == PaneFocus::Requests {
        ui.follow_latest = false;
        select_delta(ui, snap, delta);
    } else {
        scroll_focus(ui, delta);
    }
}

/// Does what a key says; `can_capture` says whether there is a place to write
/// frames to.
pub fn handle_key(
    ui: &mut UiState,
    snap: &TrafficSnapshot,
    key: Key,
    control: bool,
    can_capture: bool,
) -> (r: KeyAction)
    ensures
        (final(ui)@, r@) == old(ui)@.pressed(requests_of(*snap), key, control, can_capture),
{
    match key {
        Key::Esc => return KeyAction::Quit,
        Key::Tab => {
            ui.focus = match ui.focus {
                PaneFocus::Requests => PaneFocus::Claude,
                PaneFocus::Claude => PaneFocus::Grok,
                PaneFocus::Grok => PaneFocus::Requests,
            };
        },
        Key::BackTab => {
            ui.focus = match ui.focus {
                PaneFocus::Requests => PaneFocus::Grok,
                PaneFocus::Claude => PaneFocus::Requests,
                PaneFocus::Grok => PaneFocus::Claude,
            };
        },
        Key::Down => step(ui, snap, 1),
        Key::Up => step(ui, snap, -1),
        Key::Other => {},
        Key::Char(c) => {
            if c == 'q' || (c == 'c' && control) {
                return KeyAction::Quit;
            } else if c == 'j' {
                step(ui, snap, 1);
            } else if c == 'k' {
                step(ui, snap, -1);
            } else if c == '[' {
                scroll_focus(ui, -3);
            } else if c == ']' {
                scroll_focus(ui, 3);
            } else if c == 'g' {
                if ui.focus == PaneFocus::Requests && snap.requests.len() > 0 {
                    ui.follow_latest = true;
                    select(ui, snap, 0);
                    ui.claude_scroll = 0;
                    ui.grok_scroll = 0;
                }
            } else if c == 'w' {
                if !can_capture {
                    ui.status = NO_CAPTURE.to_owned();
                } else {
                    match &ui.selected_id {
                        Some(id) => return KeyAction::Dump(id.clone()),
                        None => {
                            ui.status = NO_SELECTION.to_owned();
                        },
                    }
                }
            } else if c == '?' {
                ui.status = KEY_HELP.to_owned();
            }
        },
    }
    KeyAction::Stay
}

/// Says in the status line that frames were written.
pub fn report_dump(ui: &mut UiState, frames: usize, request_id: &str, dir: &str)
    ensures
        final(ui)@ == (UiView {
            status: "wrote "@ + text::decimal(frames as nat) + " frames for "@ + request_id@
                + " → "@ + dir@,
            ..old(ui)@
        }),
{
    let mut status = text::join3(
        "wrote ",
        text::to_decimal(frames as u64).as_str(),
        " frames for ",
    );
    status.append(request_id);
    status.append(" → ");
    status.append(dir);
    ui.status = status;
}

/// The name of the file that the frames of a request are written to.
pub fn dump_file_name(request_id: &str) -> (r: String)
    ensures
        r@ == "tui-dump-"@ + request_id@ + ".json"@,
{
    text::join3("tui-dump-", request_id, ".json")
}

/// The smaller of two heights, but three at least.
pub fn min_u16(a: u16, b: u16) -> (r: u16)
    ensures
        r == if a <= b && a >= 3 {
            a
        } else if b < a && b >= 3 {
            b
        } else {
            3
        },
{
    let m: u16 = if a <= b {
        a
    } else {
        b
    };
    if m < 3 {
        3
    } else {
        m
    }
}

/// Height of the list of requests on a screen of this height.
pub fn list_height(screen: u16) -> (r: u16)
    ensures
        r == clamped(screen - 8, 3, 12),
{
    min_u16(12, screen.saturating_sub(8))
}

/// An id without its `msg_`.
pub open spec fn bare_id(id: Seq<char>) -> Seq<char> {
    if "msg_"@.is_prefix_of(id) {
        id.skip("msg_"@.len() as int)
    } else {
        id
    }
}

/// Whether the short form of an id cuts no character.
pub open spec fn can_shorten(id: Seq<char>) -> bool {
    text::utf8_len(bare_id(id)) > 8 ==> text::can_cut(bare_id(id), 8)
}

/// The short form of an id: eight bytes of it at most.
pub open spec fn shortened_id(id: Seq<char>) -> Seq<char> {
    if text::utf8_len(bare_id(id)) > 8 {
        text::within_bytes(bare_id(id), 8)
    } else {
        bare_id(id)
    }
}

/// The short form of an id, where that cuts no character.
pub fn try_short_id(id: &str) -> (r: Option<String>)
    ensures
        match r {
            Some(s) => can_shorten(id@) && s@ == shortened_id(id@),
            None => !can_shorten(id@),
        },
{
    let bare = if text::starts_with(id, "msg_") {
        let head = "msg_";
        let rest = text::slice(id, head.unicode_len(), id.unicode_len());
        assert(rest@ =~= id@.skip("msg_"@.len() as int));
        rest
    } else {
        id.to_owned()
    };
    if text::byte_len(bare.as_str()) > 8 {
        text::cut(bare.as_str(), 8)
    } else {
        Some(bare)
    }
}

/// The short form of an id.
pub fn short_id(id: &str) -> (r: String)
    requires
        can_shorten(id@),
    ensures
        r@ == shortened_id(id@),
{
    try_short_id(id).unwrap()
}

/// A text of `max` characters at most; what is left out shows as an ellipsis.
pub open spec fn truncated(s: Seq<char>, max: int) -> Seq<char> {
    if s.len() <= max {
        s
    } else {
        s.take(
            if max > 0 {
                max - 1
            } else {
                0
            },
        ) + "…"@
    }
}

/// A text of `max` characters at most; what is left out shows as an ellipsis.
pub fn truncate(s: &str, max: usize) -> (r: String)
    ensures
        r@ == truncated(s@, max as int),
{
    if s.unicode_len() <= max {
        s.to_owned()
    } else {
        let keep: usize = if max > 0 {
            max - 1
        } else {
            0
        };
        text::join(text::prefix(s, keep).as_str(), "…")
    }
}

/// The line of a request in the list.
pub open spec fn request_text(r: SummaryView) -> Seq<char> {
    shortened_id(r.request_id) + "  f="@ + text::padded(text::decimal(r.frame_count as nat), 3)
        + "  C:"@ + text::padded(text::decimal(r.claude_frames as nat), 2) + " G:"@ + text::padded(
        text::decimal(r.grok_frames as nat),
        2,
    ) + "  "@ + truncated(r.last_phase, 24) + if r.has_error {
        " ERR"@
    } else {
        ""@
    }
}

/// The line of a request in the list.
pub fn request_line(r: &RequestSummary) -> (line: String)
    requires
        can_shorten(r@.request_id),
    ensures
        line@ == request_text(r@),
{
    let mut line = text::join(short_id(r.request_id.as_str()).as_str(), "  f=");
    line.append(text::pad(text::to_decimal(r.frame_count as u64).as_str(), 3).as_str());
    line.append("  C:");
    line.append(text::pad(text::to_decimal(r.claude_frames as u64).as_str(), 2).as_str());
    line.append(" G:");
    line.append(text::pad(text::to_decimal(r.grok_frames as u64).as_str(), 2).as_str());
    line.append("  ");
    line.append(truncate(r.last_phase.as_str(), 24).as_str());
    if r.has_error {
        line.append(" ERR");
    } else {
        line.append("");
    }
    line
}

/// The title of the list of requests.
pub fn requests_title(n: usize) -> (r: String)
    ensures
        r@ == " Requests ("@ + text::decimal(n as nat) + ") "@,
{
    text::join3(" Requests (", text::to_decimal(n as u64).as_str(), ") ")
}

/// What the status line says.
pub open spec fn status_text(
    listen_addr: Seq<char>,
    total_frames: int,
    capture_dir: Option<Seq<char>>,
    status: Seq<char>,
) -> Seq<char> {
    " "@ + listen_addr + "  frames="@ + text::decimal(total_frames as nat) + "  capture="@
        + match capture_dir {
        Some(d) => d,
        None => "—"@,
    } + "  | "@ + if status.len() == 0 {
        STATUS_HELP@
    } else {
        status
    }
}

/// The status line.
pub fn status_line(
    listen_addr: &str,
    total_frames: usize,
    capture_dir: Option<&str>,
    status: &str,
) -> (r: String)
    ensures
        r@ == " "@ + listen_addr@ + "  frames="@ + text::decimal(total_frames as nat)
            + "  capture="@ + match capture_dir {
            Some(d) => d@,
            None => "—"@,
        } + "  | "@ + if status@.len() == 0 {
            STATUS_HELP@
        } else {
            status@
        },
        r@ == status_text(listen_addr@, total_frames as int, text::opt_str(capture_dir), status@),
{
    let mut line = text::join3(" ", listen_addr, "  frames=");
    line.append(text::to_decimal(total_frames as u64).as_str());
    line.append("  capture=");
    match capture_dir {
        Some(d) => line.append(d),
        None => line.append("—"),
    }
    line.append("  | ");
    if status.is_empty() {
        line.append(STATUS_HELP);
    } else {
        line.append(status);
    }
    line
}

/// The frames of a request, oldest first.
pub fn frames_of_request(snap: &TrafficSnapshot, request_id: &str) -> (r: Vec<TrafficFrame>)
    requires
        traffic::payloads_wf(snap.frames@),
    ensures
        traffic::frames_view(r@) == traffic::frames_of(
            traffic::frames_view(snap.frames@),
            request_id@,
        ),
        traffic::payloads_wf(r@),
{
    let mut out: Vec<TrafficFrame> = Vec::new();
    let ghost all = traffic::frames_view(snap.frames@);
    let mut i: usize = 0;
    assert(traffic::frames_view(out@) =~= traffic::frames_of(all.take(0), request_id@));
    while i < snap.frames.len()
        invariant
            i <= snap.frames@.len(),
            all == traffic::frames_view(snap.frames@),
            traffic::payloads_wf(snap.frames@),
            traffic::payloads_wf(out@),
            traffic::frames_view(out@) == traffic::frames_of(all.take(i as int), request_id@),
        decreases snap.frames@.len() - i,
    {
        assert(all.take(i as int + 1).drop_last() =~= all.take(i as int));
        assert(all.take(i as int + 1).last() == snap.frames@[i as int]@);
        if text::same(snap.frames[i].request_id.as_str(), request_id) {
            let frame = snap.frames[i].duplicate();
            let ghost before = traffic::frames_view(out@);
            out.push(frame);
            assert(traffic::frames_view(out@) =~= before.push(frame@));
        }
        i += 1;
    }
    assert(all.take(i as int) =~= all);
    out
}

/// Longest payload that a pane shows whole, in bytes.
pub const MAX_SHOWN_BYTES: usize = 12000;

/// Whether a payload text can be shown: it is short enough or can be cut.
pub open spec fn can_show(s: Seq<char>) -> bool {
    text::utf8_len(s) > MAX_SHOWN_BYTES ==> text::can_cut(s, MAX_SHOWN_BYTES as int)
}

/// A payload text as a pane shows it.
pub open spec fn shown(s: Seq<char>) -> Seq<char> {
    if text::utf8_len(s) > MAX_SHOWN_BYTES {
        text::within_bytes(s, MAX_SHOWN_BYTES as int) + "…\n[truncated "@ + text::decimal(
            text::utf8_len(s),
        ) + " bytes]"@
    } else {
        s
    }
}

/// A payload text as a pane shows it, where it can be cut.
pub fn show_payload(s: &str) -> (r: Option<String>)
    ensures
        match r {
            Some(t) => can_show(s@) && t@ == shown(s@),
            None => !can_show(s@),
        },
{
    let n: usize = text::byte_len(s);
    if n <= MAX_SHOWN_BYTES {
        return Some(s.to_owned());
    }
    match text::cut(s, MAX_SHOWN_BYTES) {
        Some(head) => {
            let mut out = text::join3(
                head.as_str(),
                "…\n[truncated ",
                text::to_decimal(n as u64).as_str(),
            );
            out.append(" bytes]");
            Some(out)
        },
        None => None,
    }
}

/// A frame as a pane shows it.
pub open spec fn frame_text(f: FrameView) -> Seq<char> {
    "── "@ + f.phase + " ──\n"@ + shown(json::json_pretty(f.payload.sorted())) + "\n\n"@
}

/// The frames of one side as their pane shows them.
pub open spec fn side_frames_text(frames: Seq<FrameView>, side: TrafficSide) -> Seq<char>
    decreases frames.len(),
{
    if frames.len() == 0 {
        Seq::empty()
    } else {
        side_frames_text(frames.drop_last(), side) + if frames.last().side == side {
            frame_text(frames.last())
        } else {
            Seq::empty()
        }
    }
}

/// Whether some frame is of this side.
pub open spec fn has_side(frames: Seq<FrameView>, side: TrafficSide) -> bool {
    exists|i: int| 0 <= i < frames.len() && (#[trigger] frames[i]).side == side
}

/// What the pane of a side shows.
pub open spec fn pane_text(frames: Seq<FrameView>, side: TrafficSide) -> Seq<char> {
    if has_side(frames, side) {
        side_frames_text(frames, side)
    } else {
        "(no frames for this side yet)"@
    }
}

/// Whether every payload of a side can be shown.
pub open spec fn all_shown(frames: Seq<FrameView>, side: TrafficSide) -> bool {
    forall|i: int|
        0 <= i < frames.len() && (#[trigger] frames[i]).side == side ==> can_show(
            json::json_pretty(frames[i].payload.sorted()),
        )
}

/// What the pane of a side shows.
pub fn format_side_frames(frames: &Vec<TrafficFrame>, side: TrafficSide) -> (r: String)
    requires
        traffic::payloads_wf(frames@),
        all_shown(traffic::frames_view(frames@), side),
    ensures
        r@ == pane_text(traffic::frames_view(frames@), side),
{
    let ghost all = traffic::frames_view(frames@);
    let mut out = String::new();
    let mut any = false;
    let mut i: usize = 0;
    assert(out@ =~= side_frames_text(all.take(0), side));
    while i < frames.len()
        invariant
            i <= frames@.len(),
            all == traffic::frames_view(frames@),
            traffic::payloads_wf(frames@),
            all_shown(all, side),
            any == exists|j: int| 0 <= j < i && (#[trigger] all[j]).side == side,
            out@ == side_frames_text(all.take(i as int), side),
        decreases frames@.len() - i,
    {
        let frame = &frames[i];
        assert(all[i as int] == frame@);
        assert(all.take(i as int + 1).drop_last() =~= all.take(i as int));
        let ghost before = out@;
        if frame.side == side {
            any = true;
            let payload = show_payload(frame.payload.to_pretty_text().as_str()).unwrap();
            out.append("── ");
            out.append(frame.phase.as_str());
            out.append(" ──\n");
            out.append(payload.as_str());
            out.append("\n\n");
            assert(out@ =~= before + frame_text(frame@));
        }
        i += 1;
        assert(out@ =~= side_frames_text(all.take(i as int), side));
    }
    assert(all.take(i as int) =~= all);
    if !any {
        out = "(no frames for this side yet)".to_owned();
    }
    out
}

/// What the pane of a side shows; `None` where a payload cannot be cut.
pub fn try_format_side_frames(frames: &Vec<TrafficFrame>, side: TrafficSide) -> (r: Option<String>)
    requires
        traffic::payloads_wf(frames@),
    ensures
        match r {
            Some(s) => all_shown(traffic::frames_view(frames@), side) && s@ == pane_text(
                traffic::frames_view(frames@),
                side,
            ),
            None => !all_shown(traffic::frames_view(frames@), side),
        },
{
    let ghost all = traffic::frames_view(frames@);
    let mut i: usize = 0;
    while i < frames.len()
        invariant
            i <= frames@.len(),
            all == traffic::frames_view(frames@),
            traffic::payloads_wf(frames@),
            forall|j: int|
                0 <= j < i && (#[trigger] all[j]).side == side ==> can_show(
                    json::json_pretty(all[j].payload.sorted()),
                ),
        decreases frames@.len() - i,
    {
        let frame = &frames[i];
        assert(all[i as int] == frame@);
        if frame.side == side && show_payload(frame.payload.to_pretty_text().as_str()).is_none() {
            return None;
        }
        i += 1;
    }
    Some(format_side_frames(frames, side))
}

/// A request that stays in the list stays selected while the newest one is not
/// followed.
pub proof fn a_selection_sticks(ui: UiView, requests: Seq<SummaryView>)
    requires
        !ui.follow_latest,
        ui.selected_id is Some,
        traffic::summary_position(requests, ui.selected_id->0) < requests.len(),
    ensures
        ui.synced(requests).selected_id == ui.selected_id,
        ui.synced(requests) == ui.synced(requests).synced(requests),
{
}

/// The selection lies in the list, whatever it was moved by.
pub proof fn a_selection_lies_in_the_list(ui: UiView, requests: Seq<SummaryView>, delta: int)
    requires
        requests.len() > 0,
    ensures
        ui.moved(requests, delta).selected is Some,
        0 <= ui.moved(requests, delta).selected->0 < requests.len(),
        ui.moved(requests, delta).selected_id == Some(
            requests[ui.moved(requests, delta).selected->0].request_id,
        ),
{
}

/// Three tabs, or a tab and a back tab, lead back to the same pane.
pub proof fn tabs_go_round(p: PaneFocus)
    ensures
        pane_after(pane_after(pane_after(p))) == p,
        pane_before(pane_after(p)) == p,
        pane_after(pane_before(p)) == p,
{
}

/// The monitor is left by Escape, by `q` and by Control-C, and by no other key.
pub proof fn what_leaves_the_monitor(
    ui: UiView,
    requests: Seq<SummaryView>,
    key: Key,
    control: bool,
    can_capture: bool,
)
    ensures
        ui.pressed(requests, key, control, can_capture).1 is Quit <==> key is Esc || key
            == Key::Char('q') || (key == Key::Char('c') && control),
        ui.pressed(requests, key, control, can_capture).1 is Quit ==> ui.pressed(
            requests,
            key,
            control,
            can_capture,
        ).0 == ui,
{
}

/// Frames are written by `w` alone, those of the selected request, where there
/// is one and a place to write to; where either is missing the status line says
/// which.
pub proof fn what_writes_frames(
    ui: UiView,
    requests: Seq<SummaryView>,
    key: Key,
    control: bool,
    can_capture: bool,
)
    ensures
        ({
            let (after, action) = ui.pressed(requests, key, control, can_capture);
            &&& action is Dump <==> key == Key::Char('w') && can_capture && ui.selected_id is Some
            &&& action matches KeyActionView::Dump(id) ==> Some(id) == ui.selected_id && after == ui
            &&& key == Key::Char('w') && !can_capture ==> after == (UiView {
                status: "no --capture-dir; start with --capture-dir to enable w"@,
                ..ui
            })
            &&& key == Key::Char('w') && can_capture && ui.selected_id is None ==> after == (
            UiView { status: "no request selected"@, ..ui })
            &&& key == Key::Char('?') ==> after == (UiView {
                status: "q quit · j/k · Tab panes · [/] scroll · g latest · w dump"@,
                ..ui
            })
        }),
{
}

/// The arrows do what `j` and `k` do; keys that mean nothing change nothing.
pub proof fn arrows_are_letters(
    ui: UiView,
    requests: Seq<SummaryView>,
    c: char,
    control: bool,
    can_capture: bool,
)
    ensures
        ui.pressed(requests, Key::Down, control, can_capture) == ui.pressed(
            requests,
            Key::Char('j'),
            control,
            can_capture,
        ),
        ui.pressed(requests, Key::Up, control, can_capture) == ui.pressed(
            requests,
            Key::Char('k'),
            control,
            can_capture,
        ),
        ui.pressed(requests, Key::Other, control, can_capture) == (ui, KeyActionView::Stay),
        c != 'q' && c != 'c' && c != 'j' && c != 'k' && c != '[' && c != ']' && c != 'g' && c != 'w'
            && c != '?' ==> ui.pressed(requests, Key::Char(c), control, can_capture) == (
            ui,
            KeyActionView::Stay,
        ),
{
}

/// In the list a step down selects the request behind the selected one, and a
/// step up the one before it, up to the ends of the list; the panes go back to
/// their tops, and the newest request is not followed any more.
pub proof fn steps_move_the_selection(
    ui: UiView,
    requests: Seq<SummaryView>,
    control: bool,
    can_capture: bool,
)
    requires
        ui.focus is Requests,
        ui.selected is Some,
        0 <= ui.selected->0 < requests.len(),
    ensures
        ({
            let down = ui.pressed(requests, Key::Down, control, can_capture).0;
            let up = ui.pressed(requests, Key::Up, control, can_capture).0;
            let i = ui.selected->0;
            &&& i + 1 < requests.len() ==> down.selected == Some(i + 1) && down.selected_id == Some(
                requests[i + 1].request_id,
            )
            &&& i + 1 == requests.len() ==> down.selected == Some(i)
            &&& i > 0 ==> up.selected == Some(i - 1) && up.selected_id == Some(
                requests[i - 1].request_id,
            )
            &&& i == 0 ==> up.selected == Some(0int)
            &&& !down.follow_latest && !up.follow_latest
            &&& down.claude_scroll == 0 && down.grok_scroll == 0
            &&& up.claude_scroll == 0 && up.grok_scroll == 0
            &&& down.focus == ui.focus && up.focus == ui.focus
            &&& down.status == ui.status && up.status == ui.status
        }),
{
}

/// Outside the list a step scrolls the pane in focus by a line, and a bracket by
/// three, and only that pane; up undoes down as long as it stays within bounds.
pub proof fn steps_scroll_the_pane(
    ui: UiView,
    requests: Seq<SummaryView>,
    control: bool,
    can_capture: bool,
)
    requires
        ui.focus is Claude || ui.focus is Grok,
        3 <= ui.claude_scroll <= 65532,
        3 <= ui.grok_scroll <= 65532,
    ensures
        ({
            let down = ui.pressed(requests, Key::Down, control, can_capture).0;
            let far = ui.pressed(requests, Key::Char(']'), control, can_capture).0;
            &&& ui.focus is Claude ==> down == (UiView { claude_scroll: ui.claude_scroll + 1, ..ui })
            &&& ui.focus is Grok ==> down == (UiView { grok_scroll: ui.grok_scroll + 1, ..ui })
            &&& ui.focus is Claude ==> far == (UiView { claude_scroll: ui.claude_scroll + 3, ..ui })
            &&& ui.focus is Grok ==> far == (UiView { grok_scroll: ui.grok_scroll + 3, ..ui })
            &&& down.pressed(requests, Key::Up, control, can_capture).0 == ui
            &&& far.pressed(requests, Key::Char('['), control, can_capture).0 == ui
        }),
{
}

/// A pane does not scroll beyond its top or past the last line that it can
/// count, and the list does not scroll.
pub proof fn scrolling_stays_within_bounds(ui: UiView, delta: int)
    requires
        0 <= ui.claude_scroll <= 65535,
        0 <= ui.grok_scroll <= 65535,
    ensures
        0 <= ui.scrolled(delta).claude_scroll <= 65535,
        0 <= ui.scrolled(delta).grok_scroll <= 65535,
        ui.focus is Requests ==> ui.scrolled(delta) == ui,
        ui.focus is Claude && -65536 < delta < 0 ==> ui.scrolled(delta).claude_scroll == if -delta
            > ui.claude_scroll {
            0
        } else {
            ui.claude_scroll + delta
        },
        ui.focus is Grok && 0 <= delta < 65536 ==> ui.scrolled(delta).grok_scroll == if delta > 65535
            - ui.grok_scroll {
            65535
        } else {
            ui.grok_scroll + delta
        },
{
}

/// `g` goes to the newest request and follows it from there on.
pub proof fn the_newest_can_be_followed(
    ui: UiView,
    requests: Seq<SummaryView>,
    more: Seq<SummaryView>,
    control: bool,
    can_capture: bool,
)
    requires
        ui.focus is Requests,
        requests.len() > 0,
        more.len() > 0,
    ensures
        ({
            let after = ui.pressed(requests, Key::Char('g'), control, can_capture).0;
            &&& after.selected == Some(0int)
            &&& after.selected_id == Some(requests[0].request_id)
            &&& after.follow_latest
            &&& after.claude_scroll == 0 && after.grok_scroll == 0
            &&& after.synced(more).selected_id == Some(more[0].request_id)
        }),
{
}

/// What is selected is in the list, under its id: the newest request where it is
/// followed or the selected one is gone, else the selected one, wherever it has
/// gone to; without requests nothing is selected.
pub proof fn a_selection_is_in_the_list(ui: UiView, requests: Seq<SummaryView>, at: int)
    requires
        0 <= at < requests.len(),
        forall|i: int|
            0 <= i < at ==> (#[trigger] requests[i]).request_id != requests[at].request_id,
    ensures
        ui.follow_latest ==> ui.synced(requests).selected == Some(0int) && ui.synced(
            requests,
        ).selected_id == Some(requests[0].request_id),
        !ui.follow_latest && ui.selected_id == Some(requests[at].request_id) ==> ui.synced(
            requests,
        ).selected == Some(at) && ui.synced(requests).selected_id == ui.selected_id,
        !ui.follow_latest && ui.selected_id is Some && (forall|i: int|
            0 <= i < requests.len() ==> Some((#[trigger] requests[i]).request_id)
                != ui.selected_id) ==> ui.synced(requests).selected_id == Some(
            requests[0].request_id,
        ) && ui.synced(requests).selected == Some(0int),
        ui.synced(Seq::empty()).selected is None,
        ui.synced(Seq::empty()).selected_id is None,
{
    traffic::summary_position_is(requests, requests[at].request_id, at);
    if ui.selected_id is Some && (forall|i: int|
        0 <= i < requests.len() ==> Some((#[trigger] requests[i]).request_id) != ui.selected_id) {
        traffic::summary_position_is(requests, ui.selected_id->0, requests.len() as int);
    }
}

/// An id is shown without its `msg_`, and all of it where it has at most eight
/// bytes; of a longer one the first eight bytes are shown.
pub proof fn ids_are_shown_short(id: Seq<char>)
    requires
        !"msg_"@.is_prefix_of(id),
    ensures
        shortened_id("msg_"@ + id) == shortened_id(id),
        text::utf8_len(id) <= 8 ==> shortened_id(id) == id,
        text::utf8_len(id) > 8 ==> shortened_id(id).is_prefix_of(id) && text::utf8_len(
            shortened_id(id),
        ) <= 8,
        text::utf8_len(id) > 8 && can_shorten(id) ==> text::utf8_len(shortened_id(id)) == 8,
{
    let head = "msg_"@;
    let long = head + id;
    assert(long.subrange(0, head.len() as int) =~= head);
    assert(long.skip(head.len() as int) =~= id);
    text::as_much_fits_as_can(id, 8);
}

/// A text that fits is shown as it is; of one that does not, as much is shown as
/// leaves room for an ellipsis behind it.
pub proof fn what_does_not_fit_shows(s: Seq<char>, max: int)
    requires
        0 < max,
    ensures
        s.len() <= max ==> truncated(s, max) == s,
        s.len() > max ==> truncated(s, max).len() == max && truncated(s, max).last() == '…'
            && truncated(s, max).drop_last() == s.take(max - 1),
{
    reveal_strlit("…");
    if s.len() > max {
        assert(truncated(s, max).drop_last() =~= s.take(max - 1));
    }
}

/// The line of a request begins with its id, tells how many frames it has, in
/// all and on either side, and its last phase, and ends with `ERR` exactly where
/// it failed.
pub proof fn a_line_tells_its_request(r: SummaryView)
    ensures
        shortened_id(r.request_id).is_prefix_of(request_text(r)),
        text::occurs(
            "  f="@ + text::padded(text::decimal(r.frame_count as nat), 3),
            request_text(r),
        ),
        text::occurs(
            "  C:"@ + text::padded(text::decimal(r.claude_frames as nat), 2),
            request_text(r),
        ),
        text::occurs(
            " G:"@ + text::padded(text::decimal(r.grok_frames as nat), 2),
            request_text(r),
        ),
        r.has_error ==> ("  "@ + truncated(r.last_phase, 24) + " ERR"@).is_suffix_of(
            request_text(r),
        ),
        !r.has_error ==> ("  "@ + truncated(r.last_phase, 24)).is_suffix_of(request_text(r)),
{
    reveal_strlit("");
    let id = shortened_id(r.request_id);
    let f = "  f="@ + text::padded(text::decimal(r.frame_count as nat), 3);
    let c = "  C:"@ + text::padded(text::decimal(r.claude_frames as nat), 2);
    let g = " G:"@ + text::padded(text::decimal(r.grok_frames as nat), 2);
    let end = "  "@ + truncated(r.last_phase, 24) + if r.has_error {
        " ERR"@
    } else {
        ""@
    };
    let line = request_text(r);
    assert(line =~= id + f + (c + g + end));
    assert(line =~= id + f + c + (g + end));
    assert(line =~= id + f + c + g + end);
    text::a_part_occurs(id, f, c + g + end);
    text::a_part_occurs(id + f, c, g + end);
    text::a_part_occurs(id + f + c, g, end);
    assert(line.subrange(0, id.len() as int) =~= id);
    let n = line.len() - end.len();
    assert(line.subrange(n, line.len() as int) =~= end);
    if !r.has_error {
        assert(end =~= "  "@ + truncated(r.last_phase, 24));
    }
}

/// A pane shows the frames of its side and no others, one behind the other; it
/// says so where there are none.
pub proof fn a_pane_shows_its_side(frames: Seq<FrameView>, f: FrameView, side: TrafficSide)
    ensures
        pane_text(Seq::empty(), side) == "(no frames for this side yet)"@,
        f.side != side ==> pane_text(frames.push(f), side) == pane_text(frames, side),
        f.side == side && has_side(frames, side) ==> pane_text(frames.push(f), side) == pane_text(
            frames,
            side,
        ) + frame_text(f),
        f.side == side && !has_side(frames, side) ==> pane_text(frames.push(f), side) == frame_text(
            f,
        ),
{
    let all = frames.push(f);
    assert(all.drop_last() =~= frames);
    if has_side(frames, side) {
        let i = choose|i: int| 0 <= i < frames.len() && (#[trigger] frames[i]).side == side;
        assert(all[i] == frames[i]);
    } else {
        nothing_of_a_side(frames, side);
    }
    if has_side(all, side) && f.side != side {
        let i = choose|i: int| 0 <= i < all.len() && (#[trigger] all[i]).side == side;
        assert(frames[i] == all[i]);
    }
    assert(all[frames.len() as int] == f);
    assert(side_frames_text(frames, side) + Seq::<char>::empty() =~= side_frames_text(frames, side));
    assert(Seq::<char>::empty() + frame_text(f) =~= frame_text(f));
}

proof fn nothing_of_a_side(frames: Seq<FrameView>, side: TrafficSide)
    requires
        !has_side(frames, side),
    ensures
        side_frames_text(frames, side) == Seq::<char>::empty(),
    decreases frames.len(),
{
    if frames.len() > 0 {
        let earlier = frames.drop_last();
        if has_side(earlier, side) {
            let i = choose|i: int| 0 <= i < earlier.len() && (#[trigger] earlier[i]).side == side;
            assert(frames[i] == earlier[i]);
        }
        nothing_of_a_side(earlier, side);
        assert(frames[frames.len() - 1].side != side);
    }
}

/// A frame is shown under its phase, with its payload printed in several lines:
/// whole up to 12000 bytes, else that much of it and how many bytes it has.
pub proof fn a_frame_is_shown_under_its_phase(f: FrameView)
    ensures
        ({
            let payload = json::json_pretty(f.payload.sorted());
            &&& text::utf8_len(payload) <= 12000 ==> frame_text(f) == "── "@ + f.phase + " ──\n"@
                + payload + "\n\n"@
            &&& text::utf8_len(payload) > 12000 ==> frame_text(f) == "── "@ + f.phase + " ──\n"@ + (
            text::within_bytes(payload, 12000) + "…\n[truncated "@ + text::decimal(
                text::utf8_len(payload),
            ) + " bytes]"@) + "\n\n"@
        }),
{
}

/// A move selects the request that is so many on from the selected one, or from
/// the first where none is selected, or else the one at that end of the list.
pub proof fn moves_count_from_the_selection(ui: UiView, requests: Seq<SummaryView>, delta: int)
    requires
        requests.len() > 0,
    ensures
        ({
            let from = if ui.selected is Some {
                ui.selected->0
            } else {
                0
            };
            let after = ui.moved(requests, delta);
            &&& 0 <= from + delta < requests.len() ==> after.selected == Some(from + delta)
            &&& from + delta < 0 ==> after.selected == Some(0int)
            &&& from + delta >= requests.len() ==> after.selected == Some(requests.len() - 1)
            &&& after.claude_scroll == 0 && after.grok_scroll == 0
            &&& after.focus == ui.focus && after.status == ui.status && after.follow_latest
                == ui.follow_latest
        }),
        ui.moved(Seq::empty(), delta) == ui,
{
}

/// A pane scrolls by what the low 16 bits of a step say.
pub proof fn steps_count_by_their_low_bits(ui: UiView, delta: int)
    requires
        0 <= delta,
    ensures
        ui.scrolled(delta + 65536) == ui.scrolled(delta),
        ui.focus is Claude && delta < 65536 ==> ui.scrolled(delta).claude_scroll == if delta > 65535
            - ui.claude_scroll {
            65535
        } else if ui.claude_scroll + delta < 0 {
            0
        } else {
            ui.claude_scroll + delta
        },
        ui.focus is Grok && 0 < delta < 65536 ==> ui.scrolled(-delta).grok_scroll == if delta
            > ui.grok_scroll {
            0
        } else if ui.grok_scroll - delta > 65535 {
            65535
        } else {
            ui.grok_scroll - delta
        },
{
}

/// Tab goes from the requests to the client, to Grok, and back to the requests,
/// and back tab the other way; nothing else changes.
pub proof fn tabs_change_the_focus(
    ui: UiView,
    requests: Seq<SummaryView>,
    control: bool,
    can_capture: bool,
)
    ensures
        ({
            let tab = ui.pressed(requests, Key::Tab, control, can_capture).0;
            let back = ui.pressed(requests, Key::BackTab, control, can_capture).0;
            &&& tab == (UiView { focus: tab.focus, ..ui })
            &&& back == (UiView { focus: back.focus, ..ui })
            &&& ui.focus is Requests ==> tab.focus is Claude && back.focus is Grok
            &&& ui.focus is Claude ==> tab.focus is Grok && back.focus is Requests
            &&& ui.focus is Grok ==> tab.focus is Requests && back.focus is Claude
        }),
{
}

/// The monitor begins with the list in focus, at the newest request, and with
/// nothing selected.
pub proof fn the_monitor_begins_at_the_newest()
    ensures
        UiView::initial().selected is None,
        UiView::initial().selected_id is None,
        UiView::initial().focus is Requests,
        UiView::initial().claude_scroll == 0,
        UiView::initial().grok_scroll == 0,
        UiView::initial().status.len() == 0,
        UiView::initial().follow_latest,
{
}

/// The newest request is gone to from the list alone, and only where there is
/// one; Control is what makes `c` leave.
pub proof fn what_letters_do_elsewhere(
    ui: UiView,
    requests: Seq<SummaryView>,
    control: bool,
    can_capture: bool,
)
    ensures
        !(ui.focus is Requests) || requests.len() == 0 ==> ui.pressed(
            requests,
            Key::Char('g'),
            control,
            can_capture,
        ) == (ui, KeyActionView::Stay),
        ui.pressed(requests, Key::Char('c'), false, can_capture) == (ui, KeyActionView::Stay),
{
}

/// An id can be shown short, and a payload can be shown, where some beginning of
/// it has just the bytes that are shown, and always where it is short enough.
pub proof fn what_can_be_shown(id: Seq<char>, k: int)
    requires
        !"msg_"@.is_prefix_of(id),
        0 <= k <= id.len(),
    ensures
        text::utf8_len(id) <= 8 || text::utf8_len(id.take(k)) == 8 ==> can_shorten(id),
        text::utf8_len(id) > 8 && text::utf8_len(id.take(k)) == 8 ==> shortened_id(id) == id.take(k),
        text::utf8_len(id) <= 12000 || text::utf8_len(id.take(k)) == 12000 ==> can_show(id),
        text::utf8_len(id) <= 12000 ==> shown(id) == id,
{
    text::a_cut_lies_between_characters(id, k);
}

/// The status line tells the address, how many frames there are and where they
/// are captured, and ends with what is to be said, or with the key help where
/// there is nothing.
pub proof fn the_status_line_tells_all(
    addr: Seq<char>,
    frames: nat,
    dir: Option<Seq<char>>,
    status: Seq<char>,
)
    ensures
        ({
            let line = status_text(addr, frames as int, dir, status);
            &&& (" "@ + addr + "  frames="@ + text::decimal(frames)).is_prefix_of(line)
            &&& dir is Some ==> text::occurs("  capture="@ + dir->0 + "  | "@, line)
            &&& dir is None ==> text::occurs("  capture=—  | "@, line)
            &&& status.len() > 0 ==> ("  | "@ + status).is_suffix_of(line)
            &&& status.len() == 0 ==> (
            "  | q quit · j/k · Tab · [/] scroll · g latest · w dump · ? help"@).is_suffix_of(line)
        }),
{
    let line = status_text(addr, frames as int, dir, status);
    let head = " "@ + addr + "  frames="@ + text::decimal(frames);
    let place = if dir is Some {
        dir->0
    } else {
        "—"@
    };
    let mid = "  capture="@ + place + "  | "@;
    let end = if status.len() > 0 {
        status
    } else {
        STATUS_HELP@
    };
    assert(line =~= head + mid + end);
    text::a_part_occurs(head, mid, end);
    assert(line.subrange(0, head.len() as int) =~= head);
    let tail = "  | "@ + end;
    assert(line.subrange(line.len() - tail.len(), line.len() as int) =~= tail);
    reveal_strlit("  capture=");
    reveal_strlit("—");
    reveal_strlit("  | ");
    reveal_strlit("  capture=—  | ");
    if dir is None {
        assert(mid =~= "  capture=—  | "@);
    }
    reveal_strlit("q quit · j/k · Tab · [/] scroll · g latest · w dump · ? help");
    reveal_strlit("  | q quit · j/k · Tab · [/] scroll · g latest · w dump · ? help");
    if status.len() == 0 {
        assert(tail =~= "  | q quit · j/k · Tab · [/] scroll · g latest · w dump · ? help"@);
    }
}

} // verus!
