//! One streamed answer: from the upstream's events to the frames that are sent.
//!
//! The upstream is opened before anything is sent, so that a failure to open it
//! becomes a clean error. An error ends the answer: it is sent once, and nothing
//! is sent after it.

use vstd::prelude::*;

use crate::json;
use crate::json::{Json, JsonView};
use crate::responses::{EventView, ResponseStreamEvent, ResponseUsage};
use crate::sse;
use crate::text;
use crate::translate::lifecycle;
use crate::translate::stream;
use crate::translate::stream::{AnthropicOut, OutView, ReducerView, StreamReducer};
use crate::translate::summary;
use crate::translate::summary::{anthropic_out_debug, event_type_name};
use crate::wire;

verus! {

/// Something to send, with what is recorded of it first, if anything.
#[derive(Debug, PartialEq)]
pub struct Piece {
    pub record: Option<Json>,
    pub frame: String,
}

/// The mathematical value of a [`Piece`].
pub ghost struct PieceView {
    pub record: Option<JsonView>,
    pub frame: Seq<char>,
}

impl View for Piece {
    type V = PieceView;

    open spec fn view(&self) -> PieceView {
        PieceView {
            record: match self.record {
                Some(v) => Some(v@),
                None => None,
            },
            frame: self.frame@,
        }
    }
}

/// Whether every record can be printed.
pub open spec fn records_wf(pieces: Seq<Piece>) -> bool {
    forall|i: int|
        0 <= i < pieces.len() ==> ((#[trigger] pieces[i]).record matches Some(v) ==> v@.wf())
}

/// The values of pieces.
pub open spec fn pieces_view(pieces: Seq<Piece>) -> Seq<PieceView> {
    pieces.map_values(|p: Piece| p@)
}

/// What is sent for an event of the message stream.
pub open spec fn out_piece(out: OutView) -> PieceView {
    PieceView { record: Some(summary::out_debug(out)), frame: sse::out_frame(out) }
}

/// What is sent for an error that ends the answer.
pub open spec fn error_piece(message: Seq<char>) -> PieceView {
    PieceView {
        record: None,
        frame: sse::sse_frame("error"@, sse::error_body("api_error"@, message)),
    }
}

/// What is sent for events of the message stream, up to the first error.
pub open spec fn pieces_before_error(outs: Seq<OutView>) -> Seq<PieceView>
    decreases outs.len(),
{
    if outs.len() == 0 || outs[0] is Error {
        Seq::empty()
    } else {
        seq![out_piece(outs[0])] + pieces_before_error(outs.drop_first())
    }
}

/// The first error among events of the message stream.
pub open spec fn first_error(outs: Seq<OutView>) -> Option<Seq<char>>
    decreases outs.len(),
{
    if outs.len() == 0 {
        None
    } else if let OutView::Error { message } = outs[0] {
        Some(message)
    } else {
        first_error(outs.drop_first())
    }
}

/// What is sent for events of the message stream: up to the first error, and
/// that error.
pub open spec fn pieces_of(outs: Seq<OutView>) -> Seq<PieceView> {
    match first_error(outs) {
        Some(m) => pieces_before_error(outs).push(error_piece(m)),
        None => pieces_before_error(outs),
    }
}

/// How far an answer has come.
pub ghost struct SessionView {
    pub reducer: ReducerView,
    /// Whether the answer ended.
    pub ended: bool,
}

/// What the upstream did.
pub ghost enum UpstreamView {
    /// It sent an event.
    Event(EventView),
    /// It broke off, for this reason.
    Broken(Seq<char>),
    /// It closed the stream.
    Closed,
}

impl SessionView {
    /// An answer that began.
    pub open spec fn initial() -> SessionView {
        SessionView { reducer: ReducerView::initial(), ended: false }
    }

    /// The answer after something that the upstream did, and what is sent. An
    /// answer that ended stays as it is.
    pub open spec fn next(self, input: UpstreamView) -> (SessionView, Seq<PieceView>) {
        if self.ended {
            (self, Seq::empty())
        } else {
            match input {
                UpstreamView::Event(event) => {
                    let (reducer, outs) = self.reducer.step(event);
                    (
                        SessionView { reducer, ended: first_error(outs) is Some },
                        pieces_of(outs),
                    )
                },
                UpstreamView::Broken(m) => (
                    SessionView { ended: true, ..self },
                    seq![error_piece(m)],
                ),
                UpstreamView::Closed => {
                    let (reducer, outs) = self.reducer.close();
                    (SessionView { reducer, ended: true }, pieces_of(outs))
                },
            }
        }
    }
}

/// What the upstream did.
pub enum UpstreamInput {
    /// It sent an event.
    Event(ResponseStreamEvent),
    /// It broke off, for this reason.
    Broken(String),
    /// It closed the stream.
    Closed,
}

impl View for UpstreamInput {
    type V = UpstreamView;

    open spec fn view(&self) -> UpstreamView {
        match self {
            UpstreamInput::Event(e) => UpstreamView::Event(e@),
            UpstreamInput::Broken(m) => UpstreamView::Broken(m@),
            UpstreamInput::Closed => UpstreamView::Closed,
        }
    }
}

/// A streamed answer.
pub struct StreamSession {
    reducer: StreamReducer,
    ended: bool,
}

impl View for StreamSession {
    type V = SessionView;

    closed spec fn view(&self) -> SessionView {
        SessionView { reducer: self.reducer@, ended: self.ended }
    }
}

/// What an answer is sent where the upstream cannot be opened: the error alone.
pub fn open_failure(message: String) -> (r: String)
    ensures
        r@ == error_piece(message@).frame,
{
    sse::error_event(message)
}

/// What is recorded of an event of the upstream.
pub fn event_record(event: &ResponseStreamEvent) -> (r: Json)
    ensures
        r@ == json::typed_object(summary::event_name(*event)),
        r@.wf(),
{
    Json::typed(event_type_name(event))
}

/// The id of the message that answers a request.
pub fn message_id(req_id: &str) -> (r: String)
    ensures
        r@ == "msg_"@ + req_id@,
{
    text::join("msg_", req_id)
}

impl StreamSession {
    pub closed spec fn wf(&self) -> bool {
        self.reducer.wf()
    }

    /// An answer to this request from an upstream that was opened, and the frame
    /// that begins it.
    pub fn start(req_id: &str, model: &str) -> (r: (StreamSession, String))
        ensures
            r.0.wf(),
            r.0@ == SessionView::initial(),
            r.1@ == sse::sse_frame(
                "message_start"@,
                sse::message_start_payload("msg_"@ + req_id@, model@),
            ),
    {
        let frame = sse::message_start(message_id(req_id).as_str(), model);
        (StreamSession { reducer: StreamReducer::new(), ended: false }, frame)
    }

    /// Whether the answer ended.
    pub fn is_ended(&self) -> (r: bool)
        ensures
            r == self@.ended,
    {
        self.ended
    }

    /// Whether there is an index for another block.
    pub fn has_room(&self) -> (r: bool)
        ensures
            r == (self@.reducer.next < usize::MAX),
    {
        self.reducer.next_index() < usize::MAX
    }

    /// Sends what something that the upstream did amounts to.
    pub fn next(&mut self, input: UpstreamInput) -> (r: Vec<Piece>)
        requires
            old(self).wf(),
            input is Event ==> old(self)@.reducer.next < usize::MAX,
        ensures
            final(self).wf(),
            (final(self)@, pieces_view(r@)) == old(self)@.next(input@),
            records_wf(r@),
    {
        let mut pieces: Vec<Piece> = Vec::new();
        assert(pieces_view(pieces@) =~= Seq::empty());
        if self.ended {
            return pieces;
        }
        match input {
            UpstreamInput::Event(event) => {
                let outs = self.reducer.push_event(&event);
                self.ended = send(outs, &mut pieces);
            },
            UpstreamInput::Broken(message) => {
                self.ended = true;
                send_error(message, &mut pieces);
            },
            UpstreamInput::Closed => {
                let outs = self.reducer.finish_if_needed();
                send(outs, &mut pieces);
                self.ended = true;
            },
        }
        assert(pieces_view(pieces@) =~= old(self)@.next(input@).1);
        pieces
    }
}

fn add_piece(pieces: &mut Vec<Piece>, piece: Piece)
    requires
        records_wf(old(pieces)@),
        piece.record is Some ==> piece.record->0@.wf(),
    ensures
        records_wf(final(pieces)@),
        pieces_view(final(pieces)@) == pieces_view(old(pieces)@).push(piece@),
{
    pieces.push(piece);
    assert(pieces_view(pieces@) =~= pieces_view(old(pieces)@).push(piece@));
}

fn send_error(message: String, pieces: &mut Vec<Piece>)
    requires
        records_wf(old(pieces)@),
    ensures
        records_wf(final(pieces)@),
        pieces_view(final(pieces)@) == pieces_view(old(pieces)@).push(error_piece(message@)),
{
    add_piece(pieces, Piece { record: None, frame: sse::error_event(message) });
}

/// Sends events of the message stream up to the first error, and that error;
/// returns whether there was one.
fn send(outs: Vec<AnthropicOut>, pieces: &mut Vec<Piece>) -> (r: bool)
    requires
        records_wf(old(pieces)@),
    ensures
        records_wf(final(pieces)@),
        r == (first_error(stream::outs_view(outs@)) is Some),
        pieces_view(final(pieces)@) == pieces_view(old(pieces)@) + pieces_of(
            stream::outs_view(outs@),
        ),
{
    let ghost all = stream::outs_view(outs@);
    let ghost start = pieces_view(pieces@);
    let mut i: usize = 0;
    assert(all.skip(0) =~= all);
    assert(start + pieces_before_error(all) =~= pieces_view(pieces@) + pieces_before_error(
        all.skip(0),
    ));
    while i < outs.len()
        invariant
            i <= outs@.len(),
            all == stream::outs_view(outs@),
            start == pieces_view(old(pieces)@),
            records_wf(pieces@),
            start + pieces_before_error(all) == pieces_view(pieces@) + pieces_before_error(
                all.skip(i as int),
            ),
            first_error(all) == first_error(all.skip(i as int)),
        decreases outs@.len() - i,
    {
        assert(all.skip(i as int)[0] == outs@[i as int]@);
        assert(all.skip(i as int).drop_first() =~= all.skip(i as int + 1));
        if let AnthropicOut::Error { message } = &outs[i] {
            assert(pieces_view(pieces@) =~= start + pieces_before_error(all));
            send_error(message.clone(), pieces);
            assert(pieces_view(pieces@) =~= start + pieces_of(all));
            return true;
        }
        let ghost before = pieces_view(pieces@);
        let record = anthropic_out_debug(&outs[i]);
        let mut frames = sse::encode_out(&outs[i]);
        let frame = frames.swap_remove(0);
        add_piece(pieces, Piece { record: Some(record), frame });
        assert(pieces_view(pieces@) == before.push(out_piece(outs@[i as int]@)));
        assert(start + pieces_before_error(all) =~= pieces_view(pieces@) + pieces_before_error(
            all.skip(i as int + 1),
        ));
        i += 1;
    }
    assert(all.skip(i as int) =~= Seq::empty());
    assert(pieces_view(pieces@) =~= start + pieces_of(all));
    false
}

/// The answer after these inputs, and all that was sent.
pub open spec fn answered(inputs: Seq<UpstreamView>) -> (SessionView, Seq<PieceView>)
    decreases inputs.len(),
{
    if inputs.len() == 0 {
        (SessionView::initial(), Seq::empty())
    } else {
        let before = answered(inputs.drop_last());
        let after = before.0.next(inputs.last());
        (after.0, before.1 + after.1)
    }
}

/// Nothing is sent once an answer ended.
pub proof fn nothing_follows_the_end(inputs: Seq<UpstreamView>, more: Seq<UpstreamView>)
    requires
        answered(inputs).0.ended,
    ensures
        answered(inputs + more) == answered(inputs),
    decreases more.len(),
{
    if more.len() == 0 {
        assert(inputs + more =~= inputs);
    } else {
        nothing_follows_the_end(inputs, more.drop_last());
        assert((inputs + more).drop_last() =~= inputs + more.drop_last());
        assert(answered(inputs).1 + Seq::<PieceView>::empty() =~= answered(inputs).1);
    }
}

/// The inputs of an upstream that sends these events.
pub open spec fn event_inputs(events: Seq<EventView>) -> Seq<UpstreamView> {
    events.map_values(|e: EventView| UpstreamView::Event(e))
}

/// What is sent for events of the message stream that hold no error.
pub open spec fn out_pieces(outs: Seq<OutView>) -> Seq<PieceView> {
    outs.map_values(|o: OutView| out_piece(o))
}

proof fn pieces_without_error(outs: Seq<OutView>)
    requires
        forall|i: int| 0 <= i < outs.len() ==> !(#[trigger] outs[i] is Error),
    ensures
        first_error(outs) is None,
        pieces_of(outs) == out_pieces(outs),
    decreases outs.len(),
{
    if outs.len() > 0 {
        let rest = outs.drop_first();
        assert(!(outs[0] is Error));
        assert forall|i: int| 0 <= i < rest.len() implies !(#[trigger] rest[i] is Error) by {
            assert(rest[i] == outs[i + 1]);
        }
        pieces_without_error(rest);
    }
    assert(pieces_of(outs) =~= out_pieces(outs));
}

/// Only a failure reports an error.
pub proof fn steps_without_error(r: ReducerView, event: EventView, i: int)
    requires
        !(event is Failed),
        0 <= i < r.step(event).1.len(),
    ensures
        !(r.step(event).1[i] is Error),
{
    if let EventView::Finished(usage) = event {
        finish_without_error(r, usage, stream::pending_signature(r.pending), i);
    }
}

proof fn finish_without_error(
    r: ReducerView,
    usage: Option<ResponseUsage>,
    signature: Option<Seq<char>>,
    i: int,
)
    requires
        0 <= i < r.finish(usage, signature).1.len(),
    ensures
        !(r.finish(usage, signature).1[i] is Error),
{
    let head = r.last_thinking(signature) + r.text_done().1;
    let tools = stream::tool_stops(stream::open_tools(r.tools, r.next));
    let tail = r.filler() + stream::message_end(r.saw_tool, usage);
    let outs = r.finish(usage, signature).1;
    assert(outs =~= head + tools + tail);
    if i < head.len() {
        assert(outs[i] == head[i]);
    } else if i < head.len() + tools.len() {
        assert(outs[i] == tools[i - head.len()]);
    } else {
        assert(outs[i] == tail[i - head.len() - tools.len()]);
    }
}

proof fn events_are_answered(events: Seq<EventView>)
    requires
        forall|i: int| 0 <= i < events.len() ==> !(#[trigger] events[i] is Failed),
    ensures
        answered(event_inputs(events)).0 == (SessionView {
            reducer: lifecycle::run(events).0,
            ended: false,
        }),
        answered(event_inputs(events)).1 == out_pieces(lifecycle::run(events).1),
    decreases events.len(),
{
    let inputs = event_inputs(events);
    if events.len() > 0 {
        let earlier = events.drop_last();
        assert forall|i: int| 0 <= i < earlier.len() implies !(#[trigger] earlier[i] is Failed) by {
            assert(earlier[i] == events[i]);
        }
        events_are_answered(earlier);
        assert(inputs.drop_last() =~= event_inputs(earlier));
        let r = lifecycle::run(earlier).0;
        let last = events[events.len() - 1];
        let outs = r.step(last).1;
        assert forall|i: int| 0 <= i < outs.len() implies !(#[trigger] outs[i] is Error) by {
            steps_without_error(r, last, i);
        }
        pieces_without_error(outs);
        assert(answered(inputs).1 =~= out_pieces(lifecycle::run(events).1));
    } else {
        assert(answered(inputs).1 =~= out_pieces(lifecycle::run(events).1));
    }
}

/// A response that does not fail is answered with its whole message, each event
/// in a frame of its own, and the answer ends.
pub proof fn a_whole_response_is_a_whole_message(events: Seq<EventView>)
    requires
        forall|i: int| 0 <= i < events.len() ==> !(#[trigger] events[i] is Failed),
    ensures
        answered(event_inputs(events).push(UpstreamView::Closed)).0.ended,
        answered(event_inputs(events).push(UpstreamView::Closed)).1 == out_pieces(
            lifecycle::message_of(events),
        ),
{
    let inputs = event_inputs(events).push(UpstreamView::Closed);
    assert(inputs.drop_last() =~= event_inputs(events));
    events_are_answered(events);
    let r = lifecycle::run(events).0;
    let outs = r.close().1;
    assert forall|i: int| 0 <= i < outs.len() implies !(#[trigger] outs[i] is Error) by {
        if !r.finished {
            finish_without_error(r, None, stream::pending_signature(r.pending), i);
        }
    }
    pieces_without_error(outs);
    assert(answered(inputs).1 =~= out_pieces(lifecycle::message_of(events)));
}

/// An upstream that breaks off is answered with what its events said so far and
/// one error, last; the message is not finished.
pub proof fn a_broken_response_ends_in_one_error(events: Seq<EventView>, message: Seq<char>)
    requires
        forall|i: int| 0 <= i < events.len() ==> !(#[trigger] events[i] is Failed),
    ensures
        answered(event_inputs(events).push(UpstreamView::Broken(message))).0.ended,
        answered(event_inputs(events).push(UpstreamView::Broken(message))).1 == out_pieces(
            lifecycle::run(events).1,
        ).push(error_piece(message)),
{
    let inputs = event_inputs(events).push(UpstreamView::Broken(message));
    assert(inputs.drop_last() =~= event_inputs(events));
    events_are_answered(events);
    assert(answered(inputs).1 =~= out_pieces(lifecycle::run(events).1).push(error_piece(message)));
}

/// A response that fails is answered in the same way, with the failure's
/// message.
pub proof fn a_failed_response_ends_in_one_error(events: Seq<EventView>, message: Seq<char>)
    requires
        forall|i: int| 0 <= i < events.len() ==> !(#[trigger] events[i] is Failed),
    ensures
        answered(event_inputs(events.push(EventView::Failed(Some(message))))).0.ended,
        answered(event_inputs(events.push(EventView::Failed(Some(message))))).1 == out_pieces(
            lifecycle::run(events).1,
        ).push(error_piece(message)),
{
    let failure = EventView::Failed(Some(message));
    let inputs = event_inputs(events.push(failure));
    assert(inputs.drop_last() =~= event_inputs(events));
    assert(inputs.last() == UpstreamView::Event(failure));
    events_are_answered(events);
    let outs = lifecycle::run(events).0.step(failure).1;
    assert(outs =~= seq![OutView::Error { message }]);
    assert(pieces_of(outs) =~= seq![error_piece(message)]);
    assert(answered(inputs).1 =~= out_pieces(lifecycle::run(events).1).push(error_piece(message)));
}

/// What is sent for events is one frame for each, in order, up to the first
/// error; that error is sent as one frame of its own, and nothing behind it.
pub proof fn an_error_cuts_off_what_is_sent(
    outs: Seq<OutView>,
    message: Seq<char>,
    more: Seq<OutView>,
)
    requires
        forall|i: int| 0 <= i < outs.len() ==> !(#[trigger] outs[i] is Error),
    ensures
        ({
            let whole = pieces_of(outs);
            let cut = pieces_of(outs + seq![OutView::Error { message }] + more);
            &&& whole.len() == outs.len()
            &&& forall|i: int|
                0 <= i < outs.len() ==> (#[trigger] whole[i]).frame == sse::out_frame(outs[i])
                    && whole[i].record == Some(summary::out_debug(outs[i]))
            &&& cut == whole.push(
                PieceView {
                    record: None,
                    frame: sse::sse_frame(
                        "error"@,
                        JsonView::Object(
                            seq![
                                ("type"@, wire::txt("error"@)),
                                (
                                    "error"@,
                                    JsonView::Object(
                                        seq![
                                            ("type"@, wire::txt("api_error"@)),
                                            ("message"@, wire::txt(message)),
                                        ],
                                    ),
                                ),
                            ],
                        ),
                    ),
                },
            )
        }),
    decreases outs.len(),
{
    wire::an_error_says_its_message("api_error"@, message);
    let cut = outs + seq![OutView::Error { message }] + more;
    if outs.len() > 0 {
        let rest = outs.drop_first();
        assert forall|i: int| 0 <= i < rest.len() implies !(#[trigger] rest[i] is Error) by {
            assert(rest[i] == outs[i + 1]);
        }
        an_error_cuts_off_what_is_sent(rest, message, more);
        assert(!(outs[0] is Error));
        assert(cut[0] == outs[0]);
        assert(cut.drop_first() =~= rest + seq![OutView::Error { message }] + more);
        let whole = pieces_of(outs);
        let tail = pieces_of(rest);
        assert(whole =~= seq![out_piece(outs[0])] + tail);
        assert forall|i: int| 0 <= i < outs.len() implies (#[trigger] whole[i]).frame
            == sse::out_frame(outs[i]) && whole[i].record == Some(summary::out_debug(outs[i])) by {
            if i > 0 {
                assert(whole[i] == tail[i - 1]);
                assert(outs[i] == rest[i - 1]);
            }
        }
        assert(pieces_of(cut) =~= seq![out_piece(outs[0])] + pieces_of(cut.drop_first()));
        assert(pieces_of(cut) =~= whole.push(error_piece(message)));
    } else {
        assert(cut[0] == OutView::Error { message });
        assert(pieces_of(cut) =~= pieces_of(outs).push(error_piece(message)));
    }
}

} // verus!
