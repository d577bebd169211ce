//! What the message stream carries over from the response stream: every call
//! with its name, its id and its arguments, the reasoning, failures, and why
//! and with which usage the message ended.

use vstd::prelude::*;
use vstd::utf8::*;

use crate::reasoning_signature;
use crate::responses::{
    CallView, EventView, ItemView, OutputItem, ResponseStreamEvent, ResponseUsage,
};
use crate::text;
use crate::translate::lifecycle;
use crate::translate::stream;
use crate::translate::stream::{OutView, ReducerView};

verus! {

/// Whether an event of the message stream belongs to its end.
pub open spec fn is_end(o: OutView) -> bool {
    o is MessageDelta || o is MessageStop
}

proof fn finish_ends_last(
    r: ReducerView,
    usage: Option<ResponseUsage>,
    signature: Option<Seq<char>>,
    i: int,
)
    requires
        0 <= i < r.finish(usage, signature).1.len() - 2,
    ensures
        !is_end(r.finish(usage, signature).1[i]),
{
    let outs = r.finish(usage, signature).1;
    let head = r.last_thinking(signature) + r.text_done().1;
    let tools = stream::tool_stops(stream::open_tools(r.tools, r.next));
    let tail = r.filler() + stream::message_end(r.saw_tool, usage);
    assert(outs =~= head + tools + tail);
    if i < head.len() {
        assert(outs[i] == head[i]);
    } else if i < head.len() + tools.len() {
        assert(outs[i] == tools[i - head.len()]);
    } else {
        assert(outs[i] == tail[i - head.len() - tools.len()]);
    }
}

proof fn run_does_not_end(events: Seq<EventView>, i: int)
    requires
        forall|j: int| 0 <= j < events.len() ==> !(#[trigger] events[j] is Finished),
        0 <= i < lifecycle::run(events).1.len(),
    ensures
        !is_end(lifecycle::run(events).1[i]),
    decreases events.len(),
{
    if events.len() > 0 {
        let earlier = events.drop_last();
        assert forall|j: int| 0 <= j < earlier.len() implies !(#[trigger] earlier[j] is Finished) by {
            assert(earlier[j] == events[j]);
        }
        assert(!(events[events.len() - 1] is Finished));
        let before = lifecycle::run(earlier);
        let more = before.0.step(events.last()).1;
        if i < before.1.len() {
            run_does_not_end(earlier, i);
            assert(lifecycle::run(events).1[i] == before.1[i]);
        } else {
            assert(lifecycle::run(events).1[i] == more[i - before.1.len()]);
        }
    }
}

/// The last event but one of the message says why it ended: `tool_use` exactly
/// where a tool call began, whatever usage was reported, else `end_turn`; and it
/// reports the tokens that the response reported. The last event stops the
/// message, and no other event does either.
pub proof fn the_end_says_why(events: Seq<EventView>)
    requires
        lifecycle::ends_once(events),
    ensures
        ({
            let m = lifecycle::message_of(events);
            let n = m.len();
            let called = exists|i: int|
                0 <= i < events.len() && (#[trigger] events[i] matches EventView::ItemAdded {
                    item: ItemView::FunctionCall(_),
                    ..
                });
            let usage = if events.len() > 0 {
                match events[events.len() - 1] {
                    EventView::Finished(u) => u,
                    _ => None,
                }
            } else {
                None
            };
            &&& n >= 2
            &&& m[n - 1] == OutView::MessageStop
            &&& m[n - 2] is MessageDelta
            &&& m[n - 2]->stop_reason == Some(
                if called {
                    "tool_use"@
                } else {
                    "end_turn"@
                },
            )
            &&& usage matches Some(u) ==> m[n - 2]->input_tokens == Some(u.input_tokens)
                && m[n - 2]->output_tokens == Some(u.output_tokens)
            &&& usage is None ==> m[n - 2]->input_tokens is None && m[n - 2]->output_tokens is None
            &&& forall|i: int| 0 <= i < n - 2 ==> !is_end(#[trigger] m[i])
        }),
{
    lifecycle::the_end_is_reported(events);
    let m = lifecycle::message_of(events);
    let n = m.len() as int;
    let end = m.subrange(n - 2, n);
    assert(end[0] == m[n - 2] && end[1] == m[n - 1]);
    let called = exists|i: int|
        0 <= i < events.len() && (#[trigger] events[i] matches EventView::ItemAdded {
            item: ItemView::FunctionCall(_),
            ..
        });
    assert(called == lifecycle::has_call(events)) by {
        if lifecycle::has_call(events) {
            let i = choose|i: int|
                0 <= i < events.len() && lifecycle::begins_call(#[trigger] events[i]);
            assert(events[i] matches EventView::ItemAdded { item: ItemView::FunctionCall(_), .. });
        }
        if called {
            let i = choose|i: int|
                0 <= i < events.len() && (#[trigger] events[i] matches EventView::ItemAdded {
                    item: ItemView::FunctionCall(_),
                    ..
                });
            assert(lifecycle::begins_call(events[i]));
        }
    }
    assert forall|i: int| 0 <= i < n - 2 implies !is_end(#[trigger] m[i]) by {
        ends_come_last(events, i);
    }
}

proof fn ends_come_last(events: Seq<EventView>, i: int)
    requires
        lifecycle::ends_once(events),
        0 <= i < lifecycle::message_of(events).len() - 2,
    ensures
        !is_end(lifecycle::message_of(events)[i]),
{
    let m = lifecycle::message_of(events);
    let whole = lifecycle::run(events);
    if events.len() > 0 && events.last() is Finished {
        let earlier = events.drop_last();
        assert forall|j: int| 0 <= j < earlier.len() implies !(#[trigger] earlier[j] is Finished) by {
            assert(earlier[j] == events[j]);
        }
        let before = lifecycle::run(earlier);
        let more = before.0.step(events.last()).1;
        assert(whole.0.finished);
        assert(m =~= before.1 + more);
        if i < before.1.len() {
            run_does_not_end(earlier, i);
            assert(m[i] == before.1[i]);
        } else {
            assert(m[i] == more[i - before.1.len()]);
            finish_ends_last(
                before.0,
                events.last()->Finished_0,
                stream::pending_signature(before.0.pending),
                i - before.1.len(),
            );
        }
    } else {
        assert forall|j: int| 0 <= j < events.len() implies !(#[trigger] events[j] is Finished) by {
            if j == events.len() - 1 {
                assert(events[j] == events.last());
            }
        }
        unfinished(events);
        let close = whole.0.close().1;
        if i < whole.1.len() {
            run_does_not_end(events, i);
            assert(m[i] == whole.1[i]);
        } else {
            assert(m[i] == close[i - whole.1.len()]);
            finish_ends_last(
                whole.0,
                None,
                stream::pending_signature(whole.0.pending),
                i - whole.1.len(),
            );
        }
    }
}

proof fn unfinished(events: Seq<EventView>)
    requires
        forall|j: int| 0 <= j < events.len() ==> !(#[trigger] events[j] is Finished),
    ensures
        !lifecycle::run(events).0.finished,
    decreases events.len(),
{
    if events.len() > 0 {
        let earlier = events.drop_last();
        assert forall|j: int| 0 <= j < earlier.len() implies !(#[trigger] earlier[j] is Finished) by {
            assert(earlier[j] == events[j]);
        }
        assert(!(events[events.len() - 1] is Finished));
        unfinished(earlier);
    }
}

/// The tool calls that begin among events of the response stream, in order.
pub open spec fn calls_in(events: Seq<EventView>) -> Seq<CallView>
    decreases events.len(),
{
    if events.len() == 0 {
        Seq::empty()
    } else {
        let before = calls_in(events.drop_last());
        match events.last() {
            EventView::ItemAdded { item: ItemView::FunctionCall(call), .. } => before.push(call),
            _ => before,
        }
    }
}

/// The events that start a tool block, in order.
pub open spec fn tool_starts(outs: Seq<OutView>) -> Seq<OutView>
    decreases outs.len(),
{
    if outs.len() == 0 {
        Seq::empty()
    } else {
        let before = tool_starts(outs.drop_last());
        if outs.last() is ToolUseStart {
            before.push(outs.last())
        } else {
            before
        }
    }
}

/// Whether the event starts the block of this call: under its name, and under
/// its call id, else its item id, else an id made of the block's index.
pub open spec fn announces(o: OutView, call: CallView) -> bool {
    &&& o is ToolUseStart
    &&& o->name == call.name
    &&& call.call_id.len() > 0 ==> o->id == call.call_id
    &&& call.call_id.len() == 0 && call.id is Some ==> o->id == call.id->0
    &&& call.call_id.len() == 0 && call.id is None ==> o->id == "call_"@ + text::decimal(
        o->ToolUseStart_index as nat,
    )
}

proof fn tool_starts_concat(s: Seq<OutView>, t: Seq<OutView>)
    ensures
        tool_starts(s + t) == tool_starts(s) + tool_starts(t),
    decreases t.len(),
{
    if t.len() == 0 {
        assert(s + t =~= s);
        assert(tool_starts(s) + tool_starts(t) =~= tool_starts(s));
    } else {
        tool_starts_concat(s, t.drop_last());
        assert((s + t).drop_last() =~= s + t.drop_last());
        assert((s + t).last() == t.last());
        assert(tool_starts(s + t) =~= tool_starts(s) + tool_starts(t));
    }
}

proof fn no_tool_starts(outs: Seq<OutView>)
    requires
        forall|i: int| 0 <= i < outs.len() ==> !(#[trigger] outs[i] is ToolUseStart),
    ensures
        tool_starts(outs) == Seq::<OutView>::empty(),
    decreases outs.len(),
{
    if outs.len() > 0 {
        let earlier = outs.drop_last();
        assert forall|i: int| 0 <= i < earlier.len() implies !(
        #[trigger] earlier[i] is ToolUseStart) by {
            assert(earlier[i] == outs[i]);
        }
        no_tool_starts(earlier);
        assert(!(outs[outs.len() - 1] is ToolUseStart));
    }
}

proof fn finish_starts_no_tool(
    r: ReducerView,
    usage: Option<ResponseUsage>,
    signature: Option<Seq<char>>,
)
    ensures
        tool_starts(r.finish(usage, signature).1) == Seq::<OutView>::empty(),
{
    let outs = r.finish(usage, signature).1;
    let head = r.last_thinking(signature) + r.text_done().1;
    let tools = stream::tool_stops(stream::open_tools(r.tools, r.next));
    let tail = r.filler() + stream::message_end(r.saw_tool, usage);
    assert(outs =~= head + tools + tail);
    no_tool_starts(head);
    no_tool_starts(tools);
    no_tool_starts(tail);
    tool_starts_concat(head, tools);
    tool_starts_concat(head + tools, tail);
    assert(tool_starts(outs) =~= Seq::empty());
}

/// A call that begins ends the open text, starts a block of the next index
/// under the call's name and id, and hands its first arguments to that block.
pub proof fn a_call_is_announced(r: ReducerView, output_index: u32, call: CallView)
    ensures
        ({
            let event = EventView::ItemAdded { output_index, item: ItemView::FunctionCall(call) };
            let (after, outs) = r.step(event);
            let at = if r.text is Some {
                1int
            } else {
                0
            };
            &&& outs.len() == at + if call.arguments.len() > 0 {
                2int
            } else {
                1
            }
            &&& r.text is Some ==> outs[0] == (OutView::TextStop { index: r.text->0 })
            &&& announces(outs[at], call)
            &&& outs[at]->ToolUseStart_index == r.next
            &&& call.arguments.len() > 0 ==> outs[at + 1] == (OutView::ToolUseDelta {
                index: r.next,
                partial_json: call.arguments,
            })
            &&& after.next == r.next + 1
            &&& after.text is None
            &&& after.saw_tool
        }),
{
}

proof fn step_starts(r: ReducerView, event: EventView)
    ensures
        match event {
            EventView::ItemAdded { item: ItemView::FunctionCall(call), .. } => {
                let starts = tool_starts(r.step(event).1);
                starts.len() == 1 && announces(starts[0], call)
            },
            _ => tool_starts(r.step(event).1) == Seq::<OutView>::empty(),
        },
{
    let outs = r.step(event).1;
    match event {
        EventView::ItemAdded { output_index, item: ItemView::FunctionCall(call) } => {
            a_call_is_announced(r, output_index, call);
            let at = if r.text is Some {
                1int
            } else {
                0
            };
            let head = outs.take(at);
            let mid = seq![outs[at]];
            let tail = outs.skip(at + 1);
            assert(outs =~= head + mid + tail);
            no_tool_starts(head);
            no_tool_starts(tail);
            assert(mid.drop_last() =~= Seq::empty());
            no_tool_starts(mid.drop_last());
            assert(tool_starts(mid) =~= mid);
            tool_starts_concat(head, mid);
            tool_starts_concat(head + mid, tail);
            assert(tool_starts(outs) =~= mid);
        },
        EventView::Finished(usage) => finish_starts_no_tool(
            r,
            usage,
            stream::pending_signature(r.pending),
        ),
        _ => no_tool_starts(outs),
    }
}

/// Every tool call of the response is a tool block of the message, in order,
/// under its own name and id, and there is no other tool block.
pub proof fn every_call_is_announced(events: Seq<EventView>)
    ensures
        ({
            let starts = tool_starts(lifecycle::message_of(events));
            &&& starts.len() == calls_in(events).len()
            &&& forall|i: int|
                0 <= i < starts.len() ==> announces(#[trigger] starts[i], calls_in(events)[i])
        }),
{
    run_announces(events);
    let r = lifecycle::run(events);
    let close = r.0.close().1;
    tool_starts_concat(r.1, close);
    if r.0.finished {
        no_tool_starts(close);
    } else {
        finish_starts_no_tool(r.0, None, stream::pending_signature(r.0.pending));
    }
    assert(tool_starts(lifecycle::message_of(events)) =~= tool_starts(r.1));
}

proof fn run_announces(events: Seq<EventView>)
    ensures
        ({
            let starts = tool_starts(lifecycle::run(events).1);
            &&& starts.len() == calls_in(events).len()
            &&& forall|i: int|
                0 <= i < starts.len() ==> announces(#[trigger] starts[i], calls_in(events)[i])
        }),
    decreases events.len(),
{
    if events.len() > 0 {
        let earlier = events.drop_last();
        run_announces(earlier);
        let before = lifecycle::run(earlier);
        let more = before.0.step(events.last()).1;
        step_starts(before.0, events.last());
        tool_starts_concat(before.1, more);
        let starts = tool_starts(lifecycle::run(events).1);
        assert forall|i: int| 0 <= i < starts.len() implies announces(
            #[trigger] starts[i],
            calls_in(events)[i],
        ) by {
            if i < tool_starts(before.1).len() {
                assert(starts[i] == tool_starts(before.1)[i]);
            } else {
                assert(starts[i] == tool_starts(more)[0]);
            }
        }
    }
}

/// What is fed to a tool block by events of the message stream.
pub open spec fn fed(outs: Seq<OutView>, index: int) -> Seq<char>
    decreases outs.len(),
{
    if outs.len() == 0 {
        Seq::empty()
    } else {
        let before = fed(outs.drop_last(), index);
        match outs.last() {
            OutView::ToolUseDelta { index: i, partial_json } => if i == index {
                before + partial_json
            } else {
                before
            },
            _ => before,
        }
    }
}

proof fn fed_concat(s: Seq<OutView>, t: Seq<OutView>, index: int)
    ensures
        fed(s + t, index) == fed(s, index) + fed(t, index),
    decreases t.len(),
{
    if t.len() == 0 {
        assert(s + t =~= s);
        assert(fed(s, index) + fed(t, index) =~= fed(s, index));
    } else {
        fed_concat(s, t.drop_last(), index);
        assert((s + t).drop_last() =~= s + t.drop_last());
        assert((s + t).last() == t.last());
        assert(fed(s + t, index) =~= fed(s, index) + fed(t, index));
    }
}

proof fn not_fed(outs: Seq<OutView>, index: int)
    requires
        forall|i: int|
            0 <= i < outs.len() ==> (#[trigger] outs[i] is ToolUseDelta
                ==> outs[i]->ToolUseDelta_index != index),
    ensures
        fed(outs, index) == Seq::<char>::empty(),
    decreases outs.len(),
{
    if outs.len() > 0 {
        let earlier = outs.drop_last();
        assert forall|i: int|
            0 <= i < earlier.len() && #[trigger] earlier[i] is ToolUseDelta implies earlier[i]->ToolUseDelta_index
            != index by {
            assert(earlier[i] == outs[i]);
        }
        not_fed(earlier, index);
        let last = outs[outs.len() - 1];
        assert(last is ToolUseDelta ==> last->ToolUseDelta_index != index);
    }
}

/// What arguments for an output say together.
pub open spec fn arguments_for(events: Seq<EventView>, output_index: u32) -> Seq<char>
    decreases events.len(),
{
    if events.len() == 0 {
        Seq::empty()
    } else {
        let before = arguments_for(events.drop_last(), output_index);
        match events.last() {
            EventView::ArgumentsDelta { output_index: o, delta, .. } => if o == output_index {
                before + delta
            } else {
                before
            },
            _ => before,
        }
    }
}

/// Whether this event leaves the call of an output alone: it begins no call,
/// ends no call and does not end the response, and arguments that it brings are
/// for this output or for another one that is known.
pub open spec fn leaves_alone(r: ReducerView, event: EventView, output_index: u32) -> bool {
    match event {
        EventView::ItemAdded { item: ItemView::FunctionCall(_), .. } => false,
        EventView::ItemDone(ItemView::FunctionCall(_)) => false,
        EventView::Finished(_) => false,
        EventView::ArgumentsDelta { output_index: o, .. } => r.outputs.contains_key(o) && (o
            != output_index ==> r.outputs[o] != r.outputs[output_index]),
        _ => true,
    }
}

/// The reducer after these events, and what they reported, from a state on.
pub open spec fn run_from(r: ReducerView, events: Seq<EventView>) -> (ReducerView, Seq<OutView>)
    decreases events.len(),
{
    if events.len() == 0 {
        (r, Seq::empty())
    } else {
        let before = run_from(r, events.drop_last());
        let after = before.0.step(events.last());
        (after.0, before.1 + after.1)
    }
}

/// The arguments of a call reach its block whole and in order: those that it
/// began with and those that came later for its output, whatever text, thinking
/// and arguments of other calls lie between.
pub proof fn a_call_gets_its_arguments(
    r: ReducerView,
    output_index: u32,
    call: CallView,
    events: Seq<EventView>,
)
    requires
        r.wf(),
        forall|k: u32| #[trigger] r.outputs.contains_key(k) && k != output_index ==> r.outputs[k]
            != r.next,
        forall|i: int|
            0 <= i < events.len() ==> leaves_alone(
                r.call_added(output_index, call).0,
                #[trigger] events[i],
                output_index,
            ),
    ensures
        ({
            let begun = r.step(
                EventView::ItemAdded { output_index, item: ItemView::FunctionCall(call) },
            );
            let later = run_from(begun.0, events);
            &&& fed(begun.1 + later.1, r.next) == call.arguments + arguments_for(
                events,
                output_index,
            )
        }),
{
    let event = EventView::ItemAdded { output_index, item: ItemView::FunctionCall(call) };
    let begun = r.step(event);
    a_call_is_announced(r, output_index, call);
    let outs = begun.1;
    if call.arguments.len() > 0 {
        let n = outs.len() - 1;
        assert(outs =~= outs.take(n) + seq![outs[n]]);
        not_fed(outs.take(n), r.next);
        fed_concat(outs.take(n), seq![outs[n]], r.next);
        assert(seq![outs[n]].drop_last() =~= Seq::empty());
        assert(fed(seq![outs[n]].drop_last(), r.next) == Seq::<char>::empty());
        assert(fed(outs, r.next) =~= call.arguments);
    } else {
        not_fed(outs, r.next);
        assert(call.arguments =~= Seq::empty());
    }
    arguments_go_on(begun.0, output_index, events);
    fed_concat(begun.1, run_from(begun.0, events).1, r.next);
}

proof fn arguments_go_on(r: ReducerView, output_index: u32, events: Seq<EventView>)
    requires
        r.outputs.contains_key(output_index),
        forall|i: int|
            0 <= i < events.len() ==> leaves_alone(r, #[trigger] events[i], output_index),
    ensures
        run_from(r, events).0.outputs == r.outputs,
        fed(run_from(r, events).1, r.outputs[output_index]) == arguments_for(events, output_index),
    decreases events.len(),
{
    let index = r.outputs[output_index];
    if events.len() > 0 {
        let earlier = events.drop_last();
        assert forall|i: int| 0 <= i < earlier.len() implies leaves_alone(
            r,
            #[trigger] earlier[i],
            output_index,
        ) by {
            assert(earlier[i] == events[i]);
        }
        arguments_go_on(r, output_index, earlier);
        let before = run_from(r, earlier);
        let event = events[events.len() - 1];
        assert(leaves_alone(r, event, output_index));
        let more = before.0.step(event).1;
        fed_concat(before.1, more, index);
        match event {
            EventView::ArgumentsDelta { output_index: o, item_id, delta } => {
                if o == output_index && delta.len() > 0 {
                    assert(more =~= seq![OutView::ToolUseDelta { index, partial_json: delta }]);
                    assert(more.drop_last() =~= Seq::empty());
                    assert(fed(more.drop_last(), index) == Seq::<char>::empty());
                    assert(fed(more, index) =~= delta);
                } else {
                    not_fed(more, index);
                    if o == output_index {
                        assert(delta =~= Seq::empty());
                    }
                }
            },
            _ => not_fed(more, index),
        }
        assert(fed(run_from(r, events).1, index) =~= arguments_for(events, output_index));
    }
}

/// A reasoning item that ended with both its fields, within the limits, gives
/// the thinking block a signature of its id and its encrypted content, and ends
/// the block; where no thinking block was open one is opened for it.
pub proof fn reasoning_is_signed(r: ReducerView, id: Seq<char>, encrypted: Seq<char>)
    requires
        0 < id.len(),
        encode_utf8(id).len() <= 4096,
        0 < encrypted.len(),
        encode_utf8(encrypted).len() <= 8388608,
    ensures
        ({
            let event = EventView::ItemDone(
                ItemView::Reasoning { id, encrypted_content: Some(encrypted) },
            );
            let (after, outs) = r.step(event);
            let n = outs.len();
            let index = match r.thinking {
                Some(i) => i,
                None => r.next,
            };
            &&& n >= 2
            &&& outs[n - 2] == (OutView::ThinkingSignature {
                index,
                signature: "grok-bridge:v1:"@ + reasoning_signature::base64_url(encode_utf8(id))
                    + ":"@ + encrypted,
            })
            &&& outs[n - 1] == (OutView::ThinkingStop { index })
            &&& r.thinking is None ==> n == 3 && outs[0] == (OutView::ThinkingStart { index })
            &&& r.thinking is Some ==> n == 2
            &&& after.thinking is None
        }),
{
    let event = EventView::ItemDone(ItemView::Reasoning { id, encrypted_content: Some(encrypted) });
    let seen = r.reasoning_seen(id, Some(encrypted));
    assert(seen.pending.replay() == Some(
        reasoning_signature::ReplayView { id, encrypted_content: encrypted },
    ));
    assert(r.step(event) == seen.thinking_done(stream::pending_signature(seen.pending)));
}

/// Reasoning that was seen when it began is signed at the end of the message,
/// where its block is still open.
pub proof fn open_reasoning_is_signed_at_the_end(
    r: ReducerView,
    id: Seq<char>,
    encrypted: Seq<char>,
    usage: Option<ResponseUsage>,
)
    requires
        r.thinking is Some,
        0 < id.len(),
        encode_utf8(id).len() <= 4096,
        0 < encrypted.len(),
        encode_utf8(encrypted).len() <= 8388608,
    ensures
        ({
            let seen = r.step(
                EventView::ItemAdded {
                    output_index: 0,
                    item: ItemView::Reasoning { id, encrypted_content: Some(encrypted) },
                },
            );
            let outs = seen.0.step(EventView::Finished(usage)).1;
            &&& seen.1 == Seq::<OutView>::empty()
            &&& outs.len() >= 2
            &&& outs[0] == (OutView::ThinkingSignature {
                index: r.thinking->0,
                signature: "grok-bridge:v1:"@ + reasoning_signature::base64_url(encode_utf8(id))
                    + ":"@ + encrypted,
            })
            &&& outs[1] == (OutView::ThinkingStop { index: r.thinking->0 })
        }),
{
    let seen = r.reasoning_seen(id, Some(encrypted));
    assert(seen.pending.replay() == Some(
        reasoning_signature::ReplayView { id, encrypted_content: encrypted },
    ));
}

/// A failure is reported with its own message, or with a general one where the
/// upstream gave none, and changes nothing else.
pub proof fn a_failure_is_reported(r: ReducerView, message: Option<Seq<char>>)
    ensures
        r.step(EventView::Failed(message)) == (
            r,
            seq![
                OutView::Error {
                    message: match message {
                        Some(m) => m,
                        None => "upstream response failed"@,
                    },
                },
            ],
        ),
{
}

/// A response that holds nothing still becomes a message with a content block,
/// an empty text.
pub proof fn an_empty_response_has_a_block()
    ensures
        ({
            let m = lifecycle::message_of(Seq::empty());
            &&& m.len() == 4
            &&& m[0] == (OutView::TextStart { index: 0 })
            &&& m[1] == (OutView::TextStop { index: 0 })
            &&& m[2] == (OutView::MessageDelta {
                stop_reason: Some("end_turn"@),
                input_tokens: None,
                output_tokens: None,
            })
            &&& m[3] == OutView::MessageStop
        }),
{
    let r = lifecycle::run(Seq::empty()).0;
    let tools = stream::tool_stops(stream::open_tools(r.tools, r.next));
    assert(tools =~= Seq::empty());
}

/// Text goes to the open text block; where none is open, and behind the end of
/// one, it opens the next block and says there what it says.
pub proof fn text_opens_a_block_once(r: ReducerView, delta: Seq<char>)
    requires
        delta.len() > 0,
    ensures
        r.text matches Some(i) ==> r.step(EventView::TextDelta(delta)) == (
            r,
            seq![OutView::TextDelta { index: i, text: delta }],
        ),
        r.text is None ==> r.step(EventView::TextDelta(delta)).1 == seq![
            OutView::TextStart { index: r.next },
            OutView::TextDelta { index: r.next, text: delta },
        ] && r.step(EventView::TextDelta(delta)).0.text == Some(r.next) && r.step(
            EventView::TextDelta(delta),
        ).0.next == r.next + 1,
{
    let outs = r.step(EventView::TextDelta(delta)).1;
    if r.text is Some {
        assert(outs =~= seq![OutView::TextDelta { index: r.text->0, text: delta }]);
    } else {
        assert(outs =~= seq![
            OutView::TextStart { index: r.next },
            OutView::TextDelta { index: r.next, text: delta },
        ]);
    }
}

/// Thinking goes to the open thinking block; where none is open it opens the
/// next block and says there what it says.
pub proof fn thinking_opens_a_block_once(r: ReducerView, delta: Seq<char>)
    requires
        delta.len() > 0,
    ensures
        r.thinking matches Some(i) ==> r.step(EventView::ThinkingDelta(delta)) == (
            r,
            seq![OutView::ThinkingDelta { index: i, text: delta }],
        ),
        r.thinking is None ==> r.step(EventView::ThinkingDelta(delta)).1 == seq![
            OutView::ThinkingStart { index: r.next },
            OutView::ThinkingDelta { index: r.next, text: delta },
        ] && r.step(EventView::ThinkingDelta(delta)).0.thinking == Some(r.next) && r.step(
            EventView::ThinkingDelta(delta),
        ).0.next == r.next + 1,
{
    let outs = r.step(EventView::ThinkingDelta(delta)).1;
    if r.thinking is Some {
        assert(outs =~= seq![OutView::ThinkingDelta { index: r.thinking->0, text: delta }]);
    } else {
        assert(outs =~= seq![
            OutView::ThinkingStart { index: r.next },
            OutView::ThinkingDelta { index: r.next, text: delta },
        ]);
    }
}

/// The end of a text, and the end of a message item, stop the open text block
/// and leave everything else as it is, so that more text opens another block.
pub proof fn the_end_of_a_text_stops_its_block(r: ReducerView, event: EventView)
    requires
        event is TextDone || event == EventView::ItemDone(ItemView::Message),
    ensures
        r.text matches Some(i) ==> r.step(event).1 == seq![OutView::TextStop { index: i }],
        r.text is None ==> r.step(event).1 == Seq::<OutView>::empty(),
        r.step(event).0 == (ReducerView { text: None, ..r }),
{
}

/// Reasoning that ends without fields to sign stops the open thinking block,
/// unsigned; where none is open it reports nothing.
pub proof fn unsigned_reasoning_stops_its_block(r: ReducerView)
    requires
        r.pending.id is None,
    ensures
        ({
            let (after, outs) = r.step(
                EventView::ItemDone(
                    ItemView::Reasoning { id: Seq::empty(), encrypted_content: None },
                ),
            );
            &&& after == (ReducerView { thinking: None, ..r })
            &&& r.thinking is Some ==> outs == seq![OutView::ThinkingStop { index: r.thinking->0 }]
            &&& r.thinking is None ==> outs == Seq::<OutView>::empty()
        }),
{
}

/// Arguments for an output that is not known go to the call with that item id;
/// without one they go nowhere. They change nothing.
pub proof fn arguments_find_their_call_by_item(
    r: ReducerView,
    output_index: u32,
    item_id: Seq<char>,
    delta: Seq<char>,
)
    requires
        !r.outputs.contains_key(output_index),
    ensures
        ({
            let (after, outs) = r.step(
                EventView::ArgumentsDelta { output_index, item_id, delta },
            );
            &&& after == r
            &&& r.tools.contains_key(item_id) ==> outs == seq![
                OutView::ToolUseDelta { index: r.tools[item_id], partial_json: delta },
            ]
            &&& !r.tools.contains_key(item_id) ==> outs == Seq::<OutView>::empty()
        }),
{
}

/// What is of no concern to a message changes nothing and reports nothing.
pub proof fn other_events_are_passed_over(r: ReducerView, output_index: u32)
    ensures
        r.step(EventView::Other) == (r, Seq::<OutView>::empty()),
        r.step(EventView::ItemDone(ItemView::Other)) == (r, Seq::<OutView>::empty()),
        r.step(EventView::ItemAdded { output_index, item: ItemView::Other }) == (
            r,
            Seq::<OutView>::empty(),
        ),
        r.step(EventView::ItemAdded { output_index, item: ItemView::Message }) == (
            r,
            Seq::<OutView>::empty(),
        ),
{
}

/// What an upstream event says is heard as it says it: text as text, both kinds
/// of reasoning text as thinking, and arguments for the output that they name;
/// a response that is incomplete ends a message as one that is complete does.
pub proof fn events_are_heard_as_they_are(event: ResponseStreamEvent)
    ensures
        match event {
            ResponseStreamEvent::ResponseOutputTextDelta { delta } => event@
                == EventView::TextDelta(delta@),
            ResponseStreamEvent::ResponseReasoningSummaryTextDelta { delta } => event@
                == EventView::ThinkingDelta(delta@),
            ResponseStreamEvent::ResponseReasoningTextDelta { delta } => event@
                == EventView::ThinkingDelta(delta@),
            ResponseStreamEvent::ResponseFunctionCallArgumentsDelta {
                output_index,
                item_id,
                delta,
            } => event@ == (EventView::ArgumentsDelta {
                output_index,
                item_id: item_id@,
                delta: delta@,
            }),
            ResponseStreamEvent::ResponseOutputItemAdded {
                output_index,
                item: OutputItem::FunctionCall(call),
            } => event@ == (EventView::ItemAdded {
                output_index,
                item: ItemView::FunctionCall(
                    CallView {
                        arguments: call.arguments@,
                        call_id: call.call_id@,
                        name: call.name@,
                        id: text::opt_string(call.id),
                    },
                ),
            }),
            ResponseStreamEvent::ResponseCompleted { usage } => event@ == EventView::Finished(usage),
            ResponseStreamEvent::ResponseIncomplete { usage } => event@ == EventView::Finished(
                usage,
            ),
            _ => !(event@ is TextDelta) && !(event@ is ThinkingDelta) && !(event@ is Finished)
                && !(event@ is ArgumentsDelta),
        },
{
}

/// A call that ends stops the block that it began, whatever was open before.
pub proof fn a_call_ends_its_own_block(r: ReducerView, output_index: u32, call: CallView)
    requires
        call.call_id.len() > 0 || call.id is Some,
    ensures
        r.step(
            EventView::ItemAdded { output_index, item: ItemView::FunctionCall(call) },
        ).0.step(EventView::ItemDone(ItemView::FunctionCall(call))).1 == seq![
            OutView::ToolUseStop { index: r.next },
        ],
{
}

/// A delta that says nothing still opens a block where none is open, and is not
/// reported; for arguments it is not reported either.
pub proof fn empty_deltas_say_nothing(r: ReducerView, output_index: u32, item_id: Seq<char>)
    ensures
        ({
            let text = r.step(EventView::TextDelta(Seq::empty()));
            let thinking = r.step(EventView::ThinkingDelta(Seq::empty()));
            &&& r.text is Some ==> text == (r, Seq::<OutView>::empty())
            &&& r.text is None ==> text.1 == seq![OutView::TextStart { index: r.next }]
                && text.0.text == Some(r.next) && text.0.next == r.next + 1
            &&& r.thinking is Some ==> thinking == (r, Seq::<OutView>::empty())
            &&& r.thinking is None ==> thinking.1 == seq![OutView::ThinkingStart { index: r.next }]
                && thinking.0.thinking == Some(r.next) && thinking.0.next == r.next + 1
            &&& r.outputs.contains_key(output_index) ==> r.step(
                EventView::ArgumentsDelta { output_index, item_id, delta: Seq::empty() },
            ) == (r, Seq::<OutView>::empty())
        }),
{
    let text = r.step(EventView::TextDelta(Seq::empty()));
    let thinking = r.step(EventView::ThinkingDelta(Seq::empty()));
    if r.text is None {
        assert(text.1 =~= seq![OutView::TextStart { index: r.next }]);
    } else {
        assert(text.1 =~= Seq::empty());
    }
    if r.thinking is None {
        assert(thinking.1 =~= seq![OutView::ThinkingStart { index: r.next }]);
    } else {
        assert(thinking.1 =~= Seq::empty());
    }
}

/// Reasoning that ends without content to carry, or with more than a signature
/// carries, stops the open thinking block, unsigned.
pub proof fn what_cannot_be_signed_is_not(
    r: ReducerView,
    id: Seq<char>,
    encrypted: Option<Seq<char>>,
)
    requires
        encrypted is None || encrypted->0.len() == 0 ==> r.pending.encrypted_content is None,
        encrypted is Some ==> encrypted->0.len() == 0 || encode_utf8(encrypted->0).len() > 8388608,
    ensures
        ({
            let outs = r.step(
                EventView::ItemDone(ItemView::Reasoning { id, encrypted_content: encrypted }),
            ).1;
            &&& r.thinking is Some ==> outs == seq![OutView::ThinkingStop { index: r.thinking->0 }]
            &&& r.thinking is None ==> outs == Seq::<OutView>::empty()
        }),
{
    let seen = r.reasoning_seen(id, encrypted);
    if let Some(item) = seen.pending.replay() {
        reasoning_signature::a_signature_holds_its_item(item);
    }
}

/// The end of a call is told by its call id, whatever item id it names, or by
/// its item id where it has no call id; one that names no open block reports
/// nothing.
pub proof fn the_call_id_tells_which_call_ends(r: ReducerView, call: CallView)
    ensures
        ({
            let outs = r.step(EventView::ItemDone(ItemView::FunctionCall(call))).1;
            &&& call.call_id.len() > 0 && r.tools.contains_key(call.call_id) ==> outs == seq![
                OutView::ToolUseStop { index: r.tools[call.call_id] },
            ]
            &&& call.call_id.len() > 0 && !r.tools.contains_key(call.call_id) ==> outs == Seq::<
                OutView,
            >::empty()
            &&& call.call_id.len() == 0 && call.id is Some && r.tools.contains_key(call.id->0)
                ==> outs == seq![OutView::ToolUseStop { index: r.tools[call.id->0] }]
            &&& call.call_id.len() == 0 && call.id is Some && !r.tools.contains_key(call.id->0)
                ==> outs == Seq::<OutView>::empty()
        }),
{
}

/// At the end the blocks are stopped in order: the thinking, the text, then the
/// calls by their index.
pub proof fn blocks_are_stopped_in_order(
    r: ReducerView,
    usage: Option<ResponseUsage>,
    i: int,
    j: int,
)
    requires
        0 <= i < r.step(EventView::Finished(usage)).1.len(),
        0 <= j < r.step(EventView::Finished(usage)).1.len(),
    ensures
        ({
            let outs = r.step(EventView::Finished(usage)).1;
            &&& outs[i] is ThinkingStop && outs[j] is TextStop ==> i < j
            &&& outs[i] is ThinkingStop && outs[j] is ToolUseStop ==> i < j
            &&& r.text is Some && r.next > 0 && outs[i] is TextStop && outs[j] is ToolUseStop ==> i
                < j
            &&& i < j && outs[i] is ToolUseStop && outs[j] is ToolUseStop
                ==> outs[i]->ToolUseStop_index < outs[j]->ToolUseStop_index
        }),
{
    let signature = stream::pending_signature(r.pending);
    let outs = r.step(EventView::Finished(usage)).1;
    let a = r.last_thinking(signature);
    let b = r.text_done().1;
    let open = stream::open_tools(r.tools, r.next);
    let c = stream::tool_stops(open);
    let d = r.filler() + stream::message_end(r.saw_tool, usage);
    assert(outs =~= a + b + c + d);
    open_tools_ascend(r.tools, r.next);
    let x = a.len() as int;
    let y = x + b.len();
    let z = y + c.len();
    assert(forall|k: int| 0 <= k < x ==> #[trigger] outs[k] == a[k]);
    assert(forall|k: int| x <= k < y ==> #[trigger] outs[k] == b[k - x]);
    assert(forall|k: int| y <= k < z ==> #[trigger] outs[k] == c[k - y]);
    assert(forall|k: int| z <= k < outs.len() ==> #[trigger] outs[k] == d[k - z]);
    if outs[i] is ToolUseStop {
        assert(y <= i < z);
        assert(outs[i] == OutView::ToolUseStop { index: open[i - y] });
    }
    if outs[j] is ToolUseStop {
        assert(y <= j < z);
        assert(outs[j] == OutView::ToolUseStop { index: open[j - y] });
    }
    if outs[i] is ThinkingStop {
        assert(i < x);
    }
    if outs[j] is TextStop {
        assert(x <= j);
    }
}

proof fn open_tools_ascend(tools: Map<Seq<char>, int>, n: int)
    ensures
        ({
            let open = stream::open_tools(tools, n);
            &&& forall|i: int| 0 <= i < open.len() ==> 0 <= #[trigger] open[i] < n
            &&& forall|i: int, j: int|
                0 <= i < j < open.len() ==> #[trigger] open[i] < #[trigger] open[j]
        }),
    decreases n,
{
    if n > 0 {
        open_tools_ascend(tools, n - 1);
        let before = stream::open_tools(tools, n - 1);
        let open = stream::open_tools(tools, n);
        assert(open == before || open == before.push(n - 1));
        assert forall|i: int| 0 <= i < open.len() implies 0 <= #[trigger] open[i] < n by {
            if i < before.len() {
                assert(open[i] == before[i]);
            }
        }
        assert forall|i: int, j: int| 0 <= i < j < open.len() implies #[trigger] open[i]
            < #[trigger] open[j] by {
            assert(open[i] == before[i]);
            if j < before.len() {
                assert(open[j] == before[j]);
            }
        }
    }
}

} // verus!
