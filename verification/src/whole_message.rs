//! One answer that is not streamed: from the upstream's events to the message
//! that is sent.
//!
//! An error ends the answer: what comes after it does not matter.

use vstd::prelude::*;

use crate::collector;
use crate::collector::{CollectorView, MessageCollector, ToolBlockView};
use crate::json::{Json, JsonView};
use crate::responses::{EventView, ItemView, ResponseUsage};
use crate::stream_session;
use crate::stream_session::{UpstreamInput, UpstreamView};
use crate::translate::fidelity;
use crate::translate::lifecycle;
use crate::translate::lifecycle::BlockKind;
use crate::translate::stream;
use crate::translate::stream::{AnthropicOut, OutView, ReducerView, StreamReducer};
use crate::wire;

verus! {

/// How far an answer has come.
pub ghost struct WholeView {
    pub reducer: ReducerView,
    /// What was collected, or the error that ended the answer.
    pub message: Result<CollectorView, Seq<char>>,
}

impl WholeView {
    /// An answer that began.
    pub open spec fn initial() -> WholeView {
        WholeView { reducer: ReducerView::initial(), message: Ok(CollectorView::initial()) }
    }

    /// The answer after something that the upstream did. An answer that failed
    /// stays as it is.
    pub open spec fn next(self, input: UpstreamView) -> WholeView {
        match (self.message, input) {
            (Ok(c), UpstreamView::Event(event)) => {
                let (reducer, outs) = self.reducer.step(event);
                WholeView { reducer, message: c.collect_all(outs) }
            },
            (Ok(_), UpstreamView::Broken(m)) => WholeView { message: Err(m), ..self },
            _ => self,
        }
    }

    /// The message that is sent, or the error.
    pub open spec fn answer(self, req_id: Seq<char>, model: Seq<char>) -> Result<
        JsonView,
        Seq<char>,
    > {
        match self.message {
            Ok(c) => Ok(collector::message_value(c, req_id, model)),
            Err(e) => Err(e),
        }
    }
}

/// An answer that is not streamed.
pub struct WholeMessage {
    reducer: StreamReducer,
    collector: MessageCollector,
    error: Option<String>,
}

impl View for WholeMessage {
    type V = WholeView;

    closed spec fn view(&self) -> WholeView {
        WholeView {
            reducer: self.reducer@,
            message: match self.error {
                Some(e) => Err(e@),
                None => Ok(self.collector@),
            },
        }
    }
}

/// Collecting events in two goes is collecting them in one.
proof fn collecting_goes_on(c: CollectorView, outs: Seq<OutView>, more: Seq<OutView>)
    requires
        c.collect_all(outs) is Ok,
    ensures
        c.collect_all(outs + more) == c.collect_all(outs)->Ok_0.collect_all(more),
    decreases more.len(),
{
    if more.len() > 0 {
        collecting_goes_on(c, outs, more.drop_last());
        assert((outs + more).drop_last() =~= outs + more.drop_last());
    } else {
        assert(outs + more =~= outs);
    }
}

/// Collects events of the message stream; hands the first error back.
fn collect_each(collector: &mut MessageCollector, outs: Vec<AnthropicOut>) -> (r: Option<String>)
    ensures
        match r {
            None => old(collector)@.collect_all(stream::outs_view(outs@)) == Ok::<
                CollectorView,
                Seq<char>,
            >(final(collector)@),
            Some(e) => old(collector)@.collect_all(stream::outs_view(outs@)) == Err::<
                CollectorView,
                Seq<char>,
            >(e@),
        },
{
    let ghost all = stream::outs_view(outs@);
    let ghost start = collector@;
    for out in it: outs
        invariant
            it.seq() == outs@,
            all == stream::outs_view(outs@),
            start == old(collector)@,
            start.collect_all(all.take(it.index() as int)) == Ok::<CollectorView, Seq<char>>(
                collector@,
            ),
    {
        let ghost n = it.index() as int;
        assert(all.take(n + 1).drop_last() =~= all.take(n));
        assert(all.take(n + 1).last() == out@);
        if let Err(e) = collector.collect(out) {
            proof {
                collector::the_first_error_counts(start, all.take(n + 1), all.skip(n + 1));
                assert(all.take(n + 1) + all.skip(n + 1) =~= all);
            }
            return Some(e);
        }
    }
    assert(all.take(all.len() as int) =~= all);
    None
}

impl WholeMessage {
    pub closed spec fn wf(&self) -> bool {
        self.reducer.wf()
    }

    /// An answer from an upstream that was opened.
    pub fn new() -> (r: WholeMessage)
        ensures
            r.wf(),
            r@ == WholeView::initial(),
    {
        WholeMessage {
            reducer: StreamReducer::new(),
            collector: MessageCollector::new(),
            error: None,
        }
    }

    /// Whether an error ended the answer.
    pub fn has_failed(&self) -> (r: bool)
        ensures
            r == (self@.message is Err),
    {
        self.error.is_some()
    }

    /// Whether there is an index for another block.
    pub fn has_room(&self) -> (r: bool)
        ensures
            r == (self@.reducer.next < usize::MAX),
    {
        self.reducer.next_index() < usize::MAX
    }

    /// Takes in what the upstream did.
    pub fn next(&mut self, input: UpstreamInput)
        requires
            old(self).wf(),
            input is Event ==> old(self)@.reducer.next < usize::MAX,
        ensures
            final(self).wf(),
            final(self)@ == old(self)@.next(input@),
    {
        if self.error.is_some() {
            return;
        }
        match input {
            UpstreamInput::Event(event) => {
                let outs = self.reducer.push_event(&event);
                self.error = collect_each(&mut self.collector, outs);
            },
            UpstreamInput::Broken(message) => {
                self.error = Some(message);
            },
            UpstreamInput::Closed => {},
        }
    }

    /// The message that is sent, or the error that ended the answer.
    pub fn finish(&self, req_id: &str, model: &str) -> (r: Result<Json, String>)
        ensures
            match r {
                Ok(v) => v@.wf() && self@.answer(req_id@, model@) == Ok::<JsonView, Seq<char>>(v@),
                Err(e) => self@.answer(req_id@, model@) == Err::<JsonView, Seq<char>>(e@),
            },
    {
        match &self.error {
            Some(e) => Err(e.clone()),
            None => Ok(self.collector.finish(req_id, model)),
        }
    }
}

/// The answer after these inputs.
pub open spec fn gathered(inputs: Seq<UpstreamView>) -> WholeView
    decreases inputs.len(),
{
    if inputs.len() == 0 {
        WholeView::initial()
    } else {
        gathered(inputs.drop_last()).next(inputs.last())
    }
}

/// The message of a whole response is what is collected of the message stream
/// that its events become; the error, where there is one, is its first.
pub proof fn a_whole_message_is_what_was_collected(events: Seq<EventView>)
    ensures
        gathered(stream_session::event_inputs(events)).message == collector::collected(
            lifecycle::run(events).1,
        ),
        collector::collected(lifecycle::run(events).1) is Ok ==> gathered(
            stream_session::event_inputs(events),
        ).reducer == lifecycle::run(events).0,
    decreases events.len(),
{
    let inputs = stream_session::event_inputs(events);
    if events.len() > 0 {
        let earlier = events.drop_last();
        a_whole_message_is_what_was_collected(earlier);
        assert(inputs.drop_last() =~= stream_session::event_inputs(earlier));
        let before = lifecycle::run(earlier);
        let more = before.0.step(events.last()).1;
        if collector::collected(before.1) is Ok {
            collecting_goes_on(CollectorView::initial(), before.1, more);
        } else {
            collector::the_first_error_counts(CollectorView::initial(), before.1, more);
        }
    }
}

proof fn collecting_without_error(c: CollectorView, outs: Seq<OutView>)
    requires
        forall|i: int| 0 <= i < outs.len() ==> !(#[trigger] outs[i] is Error),
    ensures
        c.collect_all(outs) is Ok,
    decreases outs.len(),
{
    if outs.len() > 0 {
        let earlier = outs.drop_last();
        assert forall|i: int| 0 <= i < earlier.len() implies !(#[trigger] earlier[i] is Error) by {
            assert(earlier[i] == outs[i]);
        }
        collecting_without_error(c, earlier);
        assert(!(outs[outs.len() - 1] is Error));
    }
}

proof fn events_are_collected(events: Seq<EventView>)
    requires
        forall|i: int| 0 <= i < events.len() ==> !(#[trigger] events[i] is Failed),
    ensures
        collector::collected(lifecycle::run(events).1) is Ok,
    decreases events.len(),
{
    if events.len() > 0 {
        let earlier = events.drop_last();
        assert forall|i: int| 0 <= i < earlier.len() implies !(#[trigger] earlier[i] is Failed) by {
            assert(earlier[i] == events[i]);
        }
        events_are_collected(earlier);
        let before = lifecycle::run(earlier);
        let last = events[events.len() - 1];
        let more = before.0.step(last).1;
        assert forall|i: int| 0 <= i < more.len() implies !(#[trigger] more[i] is Error) by {
            stream_session::steps_without_error(before.0, last, i);
        }
        collecting_goes_on(CollectorView::initial(), before.1, more);
        collecting_without_error(collector::collected(before.1)->Ok_0, more);
    }
}

/// A response that does not fail is answered with the message that is collected
/// of its events.
pub proof fn a_whole_response_is_answered(
    events: Seq<EventView>,
    req_id: Seq<char>,
    model: Seq<char>,
)
    requires
        forall|i: int| 0 <= i < events.len() ==> !(#[trigger] events[i] is Failed),
    ensures
        collector::collected(lifecycle::run(events).1) is Ok,
        gathered(stream_session::event_inputs(events).push(UpstreamView::Closed)).answer(
            req_id,
            model,
        ) == Ok::<JsonView, Seq<char>>(
            collector::message_value(
                collector::collected(lifecycle::run(events).1)->Ok_0,
                req_id,
                model,
            ),
        ),
{
    let inputs = stream_session::event_inputs(events);
    events_are_collected(events);
    a_whole_message_is_what_was_collected(events);
    assert(inputs.push(UpstreamView::Closed).drop_last() =~= inputs);
}

/// A response that fails, and an upstream that breaks off, are answered with
/// that error alone.
pub proof fn a_response_that_fails_is_an_error(
    events: Seq<EventView>,
    message: Seq<char>,
    req_id: Seq<char>,
    model: Seq<char>,
)
    requires
        forall|i: int| 0 <= i < events.len() ==> !(#[trigger] events[i] is Failed),
    ensures
        gathered(
            stream_session::event_inputs(events.push(EventView::Failed(Some(message)))),
        ).answer(req_id, model) == Err::<JsonView, Seq<char>>(message),
        gathered(
            stream_session::event_inputs(events).push(UpstreamView::Broken(message)),
        ).answer(req_id, model) == Err::<JsonView, Seq<char>>(message),
{
    let inputs = stream_session::event_inputs(events);
    let failure = EventView::Failed(Some(message));
    let failing = stream_session::event_inputs(events.push(failure));
    events_are_collected(events);
    a_whole_message_is_what_was_collected(events);
    assert(failing.drop_last() =~= inputs);
    assert(failing.last() == UpstreamView::Event(failure));
    assert(inputs.push(UpstreamView::Broken(message)).drop_last() =~= inputs);
    let outs = lifecycle::run(events).0.step(failure).1;
    let c = gathered(inputs).message->Ok_0;
    assert(outs =~= seq![OutView::Error { message }]);
    assert(c.collect_all(outs.drop_last()) == Ok::<CollectorView, Seq<char>>(c));
}

/// A message that was made says what the response said, in text and in
/// thinking.
pub proof fn a_whole_message_says_what_was_heard(events: Seq<EventView>)
    requires
        gathered(stream_session::event_inputs(events)).message is Ok,
    ensures
        gathered(stream_session::event_inputs(events)).message->Ok_0.text == lifecycle::heard_in(
            events,
            BlockKind::Text,
        ),
        gathered(stream_session::event_inputs(events)).message->Ok_0.thinking
            == lifecycle::heard_in(events, BlockKind::Thinking),
{
    a_whole_message_is_what_was_collected(events);
    collector::what_is_said_is_collected(lifecycle::run(events).1);
    lifecycle::what_was_heard_was_said(events, BlockKind::Text);
    lifecycle::what_was_heard_was_said(events, BlockKind::Thinking);
}

/// An error ends the answer, whatever comes after it.
pub proof fn nothing_mends_an_answer_that_failed(
    inputs: Seq<UpstreamView>,
    more: Seq<UpstreamView>,
)
    requires
        gathered(inputs).message is Err,
    ensures
        gathered(inputs + more) == gathered(inputs),
    decreases more.len(),
{
    if more.len() > 0 {
        nothing_mends_an_answer_that_failed(inputs, more.drop_last());
        assert((inputs + more).drop_last() =~= inputs + more.drop_last());
    } else {
        assert(inputs + more =~= inputs);
    }
}

/// Whether the content of a message holds this block.
pub open spec fn holds(message: JsonView, block: JsonView) -> bool {
    message.get("content"@) matches Some(JsonView::List(blocks)) && blocks.contains(block)
}

/// The answer to a response that does not fail holds the whole text that was
/// heard, in one block, wherever any was heard and whatever else it holds; the
/// whole thinking likewise, with its signature; and a block for every call that began.
pub proof fn an_answer_holds_all_that_was_heard(
    events: Seq<EventView>,
    req_id: Seq<char>,
    model: Seq<char>,
)
    requires
        forall|i: int| 0 <= i < events.len() ==> !(#[trigger] events[i] is Failed),
    ensures
        ({
            let answer = gathered(
                stream_session::event_inputs(events).push(UpstreamView::Closed),
            ).answer(req_id, model);
            let text = lifecycle::heard_in(events, BlockKind::Text);
            let thinking = lifecycle::heard_in(events, BlockKind::Thinking);
            let signed = collector::collected(lifecycle::run(events).1)->Ok_0.signature;
            let calls = collector::collected(lifecycle::run(events).1)->Ok_0.tools;
            &&& answer is Ok
            &&& text.len() > 0 ==> holds(
                answer->Ok_0,
                JsonView::Object(
                    seq![("type"@, JsonView::Text("text"@)), ("text"@, JsonView::Text(text))],
                ),
            )
            &&& thinking.len() > 0 || signed is Some ==> holds(
                answer->Ok_0,
                JsonView::Object(
                    seq![
                        ("type"@, JsonView::Text("thinking"@)),
                        ("thinking"@, JsonView::Text(thinking)),
                        (
                            "signature"@,
                            JsonView::Text(
                                if signed is Some {
                                    signed->0
                                } else {
                                    Seq::empty()
                                },
                            ),
                        ),
                    ],
                ),
            )
            &&& calls.map_values(|b: ToolBlockView| (b.id, b.name)) == collector::calls_begun(
                lifecycle::run(events).1,
            )
            &&& forall|i: int|
                0 <= i < calls.len() ==> holds(
                    answer->Ok_0,
                    collector::sent_call(#[trigger] calls[i]),
                )
            &&& answer->Ok_0.get("id"@) == Some(JsonView::Text("msg_"@ + req_id))
            &&& answer->Ok_0.get("model"@) == Some(JsonView::Text(model))
        }),
{
    a_whole_response_is_answered(events, req_id, model);
    a_whole_message_is_what_was_collected(events);
    a_whole_message_says_what_was_heard(events);
    let outs = lifecycle::run(events).1;
    let c = collector::collected(outs)->Ok_0;
    collector::every_call_is_collected(outs);
    collector::a_message_holds_all_that_was_collected(c);
    collector::a_message_is_sent_whole(c, req_id, model);
    let content = collector::content_of(c);
    let message = collector::message_value(c, req_id, model);
    let members = message->Object_0;
    reveal_strlit("id");
    reveal_strlit("type");
    reveal_strlit("role");
    reveal_strlit("content");
    reveal_strlit("model");
    assert("id"@.len() == 2 && "type"@.len() == 4 && "role"@.len() == 4 && "content"@.len() == 7
        && "model"@.len() == 5);
    wire::found(members, "id"@, 0);
    wire::found(members, "content"@, 3);
    wire::found(members, "model"@, 4);
    let thoughts: int = if c.thinking.len() > 0 || c.signature is Some {
        1
    } else {
        0
    };
    let texts: int = if c.text.len() > 0 {
        1
    } else {
        0
    };
    if thoughts == 1 {
        assert(content.contains(content[0]));
    }
    if c.text.len() > 0 {
        assert(content.contains(content[thoughts]));
    }
    assert forall|i: int| 0 <= i < c.tools.len() implies holds(
        message,
        collector::sent_call(#[trigger] c.tools[i]),
    ) by {
        assert(content.contains(content[thoughts + texts + i]));
    }
}

/// The answer says why the message ended: `tool_use` exactly where a call began,
/// whatever usage was reported, else `end_turn`; and it counts the tokens that
/// the response reported.
pub proof fn an_answer_says_why_it_ended(
    events: Seq<EventView>,
    usage: Option<ResponseUsage>,
    req_id: Seq<char>,
    model: Seq<char>,
)
    requires
        forall|i: int|
            0 <= i < events.len() ==> !(#[trigger] events[i] is Failed) && !(events[i] is Finished),
    ensures
        ({
            let whole = events.push(EventView::Finished(usage));
            let answer = gathered(
                stream_session::event_inputs(whole).push(UpstreamView::Closed),
            ).answer(req_id, model);
            let called = exists|i: int|
                0 <= i < events.len() && (#[trigger] events[i] matches EventView::ItemAdded {
                    item: ItemView::FunctionCall(_),
                    ..
                });
            &&& answer is Ok
            &&& answer->Ok_0.get("stop_reason"@) == Some(
                JsonView::Text(
                    if called {
                        "tool_use"@
                    } else {
                        "end_turn"@
                    },
                ),
            )
            &&& usage is Some ==> answer->Ok_0.get("usage"@) == Some(
                JsonView::Object(
                    seq![
                        ("input_tokens"@, wire::num(usage->0.input_tokens as int)),
                        ("output_tokens"@, wire::num(usage->0.output_tokens as int)),
                    ],
                ),
            )
        }),
{
    let whole = events.push(EventView::Finished(usage));
    assert forall|i: int| 0 <= i < whole.len() implies !(#[trigger] whole[i] is Failed) by {
        assert(i < events.len() ==> whole[i] == events[i]);
    }
    assert(whole.drop_last() =~= events);
    assert(lifecycle::ends_once(whole));
    fidelity::the_end_says_why(whole);
    a_whole_response_is_answered(whole, req_id, model);
    let m = lifecycle::message_of(whole);
    assert(m == lifecycle::run(whole).1);
    let n = m.len() as int;
    let outs = m.take(n - 2);
    assert(m =~= outs.push(m[n - 2]).push(m[n - 1]));
    assert(m.drop_last() =~= outs.push(m[n - 2]));
    assert(m.drop_last().drop_last() =~= outs);
    assert(CollectorView::initial().collect_all(m.drop_last()) is Ok);
    assert(CollectorView::initial().collect_all(outs) is Ok);
    collector::the_reported_end_counts(
        outs,
        m[n - 2]->stop_reason,
        m[n - 2]->input_tokens,
        m[n - 2]->output_tokens,
    );
    let called = exists|i: int|
        0 <= i < events.len() && (#[trigger] events[i] matches EventView::ItemAdded {
            item: ItemView::FunctionCall(_),
            ..
        });
    if called {
        let i = choose|i: int|
            0 <= i < events.len() && (#[trigger] events[i] matches EventView::ItemAdded {
                item: ItemView::FunctionCall(_),
                ..
            });
        assert(whole[i] == events[i]);
    } else if exists|i: int|
        0 <= i < whole.len() && (#[trigger] whole[i] matches EventView::ItemAdded {
            item: ItemView::FunctionCall(_),
            ..
        }) {
        let i = choose|i: int|
            0 <= i < whole.len() && (#[trigger] whole[i] matches EventView::ItemAdded {
                item: ItemView::FunctionCall(_),
                ..
            });
        assert(events[i] == whole[i]);
    }
    let c = collector::collected(m)->Ok_0;
    collector::a_message_is_sent_whole(c, req_id, model);
    let members = collector::message_value(c, req_id, model)->Object_0;
    reveal_strlit("id");
    reveal_strlit("type");
    reveal_strlit("role");
    reveal_strlit("content");
    reveal_strlit("model");
    reveal_strlit("stop_reason");
    reveal_strlit("stop_sequence");
    reveal_strlit("usage");
    assert("model"@[0] == 'm' && "usage"@[0] == 'u');
    assert("id"@.len() == 2 && "type"@.len() == 4 && "role"@.len() == 4 && "content"@.len() == 7
        && "model"@.len() == 5 && "stop_reason"@.len() == 11 && "stop_sequence"@.len() == 13
        && "usage"@.len() == 5);
    wire::found(members, "stop_reason"@, 5);
    wire::found(members, "usage"@, 7);
}

} // verus!
