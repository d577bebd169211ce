//! What every message stream keeps to, whatever the response stream holds.
//!
//! A client of the message stream counts content blocks from zero, opens each
//! once, feeds only open blocks and closes each once, before the message stops.
//! [`Blocks`] is such a client; the laws below say that it never meets an event
//! that it has to refuse.

use vstd::prelude::*;

use crate::responses::{CallView, EventView, ItemView, ResponseUsage};
use crate::translate::index_table;
use crate::translate::stream;
use crate::translate::stream::{OutView, ReducerView};

verus! {

/// What a content block holds.
pub ghost enum BlockKind {
    Text,
    Thinking,
    Tool,
}

/// What a client knows of the message stream.
#[verifier::ext_equal]
pub ghost struct Blocks {
    /// How many blocks were started.
    pub started: int,
    /// The blocks that are open.
    pub open: Map<int, BlockKind>,
    /// Whether the message stopped.
    pub ended: bool,
}

impl Blocks {
    /// Before the first event.
    pub open spec fn initial() -> Blocks {
        Blocks { started: 0, open: Map::empty(), ended: false }
    }

    pub open spec fn is_open(self, index: int, kind: BlockKind) -> bool {
        self.open.contains_key(index) && self.open[index] == kind
    }

    /// A block starts: it gets the next index.
    pub open spec fn start(self, index: int, kind: BlockKind) -> Option<Blocks> {
        if !self.ended && index == self.started {
            Some(Blocks { started: index + 1, open: self.open.insert(index, kind), ..self })
        } else {
            None
        }
    }

    /// An open block of this kind is fed.
    pub open spec fn feed(self, index: int, kind: BlockKind) -> Option<Blocks> {
        if !self.ended && self.is_open(index, kind) {
            Some(self)
        } else {
            None
        }
    }

    /// An open block of this kind stops.
    pub open spec fn stop(self, index: int, kind: BlockKind) -> Option<Blocks> {
        if !self.ended && self.is_open(index, kind) {
            Some(Blocks { open: self.open.remove(index), ..self })
        } else {
            None
        }
    }

    /// What the client knows after an event; `None` where it refuses the event.
    pub open spec fn accept(self, out: OutView) -> Option<Blocks> {
        match out {
            OutView::ThinkingStart { index } => self.start(index, BlockKind::Thinking),
            OutView::ThinkingDelta { index, .. } => self.feed(index, BlockKind::Thinking),
            OutView::ThinkingSignature { index, .. } => self.feed(index, BlockKind::Thinking),
            OutView::ThinkingStop { index } => self.stop(index, BlockKind::Thinking),
            OutView::TextStart { index } => self.start(index, BlockKind::Text),
            OutView::TextDelta { index, .. } => self.feed(index, BlockKind::Text),
            OutView::TextStop { index } => self.stop(index, BlockKind::Text),
            OutView::ToolUseStart { index, .. } => self.start(index, BlockKind::Tool),
            OutView::ToolUseDelta { index, .. } => self.feed(index, BlockKind::Tool),
            OutView::ToolUseStop { index } => self.stop(index, BlockKind::Tool),
            OutView::MessageDelta { .. } => if self.ended {
                None
            } else {
                Some(self)
            },
            OutView::MessageStop => if self.ended {
                None
            } else {
                Some(Blocks { ended: true, ..self })
            },
            OutView::Error { .. } => if self.ended {
                None
            } else {
                Some(self)
            },
        }
    }

    /// What the client knows after these events; `None` where it refuses one.
    pub open spec fn accept_all(self, outs: Seq<OutView>) -> Option<Blocks>
        decreases outs.len(),
    {
        if outs.len() == 0 {
            Some(self)
        } else {
            match self.accept_all(outs.drop_last()) {
                Some(b) => b.accept(outs.last()),
                None => None,
            }
        }
    }
}

/// The reducer after these events, and all that they reported.
pub open spec fn run(events: Seq<EventView>) -> (ReducerView, Seq<OutView>)
    decreases events.len(),
{
    if events.len() == 0 {
        (ReducerView::initial(), Seq::empty())
    } else {
        let before = run(events.drop_last());
        let after = before.0.step(events.last());
        (after.0, before.1 + after.1)
    }
}

/// All that a whole response stream makes of the message stream.
pub open spec fn message_of(events: Seq<EventView>) -> Seq<OutView> {
    run(events).1 + run(events).0.close().1
}

/// Whether only the last event, if any, reports the end of the response.
pub open spec fn ends_once(events: Seq<EventView>) -> bool {
    forall|i: int| 0 <= i < events.len() - 1 ==> !(#[trigger] events[i] is Finished)
}

/// Whether after this event every tool block that was registered and was not
/// ended by it is still registered.
pub open spec fn keeps_tools(r: ReducerView, event: EventView) -> bool {
    match event {
        EventView::ItemAdded { output_index, item: ItemView::FunctionCall(call) } => forall|i: int|
            #[trigger] index_table::has_value(r.tools, i) ==> index_table::has_value(
                r.call_added(output_index, call).0.tools,
                i,
            ),
        _ => true,
    }
}

/// Whether no tool call takes over all the ids of another one that is open.
pub open spec fn tools_kept(events: Seq<EventView>) -> bool
    decreases events.len(),
{
    events.len() > 0 ==> tools_kept(events.drop_last()) && keeps_tools(
        run(events.drop_last()).0,
        events.last(),
    )
}

/// What the reducer remembers agrees with what the client knows.
spec fn agree(r: ReducerView, b: Blocks) -> bool {
    &&& 0 <= r.next == b.started
    &&& r.finished == b.ended
    &&& r.text matches Some(i) ==> b.is_open(i, BlockKind::Text)
    &&& r.thinking matches Some(i) ==> b.is_open(i, BlockKind::Thinking)
    &&& forall|k: Seq<char>| #[trigger]
        r.tools.contains_key(k) ==> b.is_open(r.tools[k], BlockKind::Tool)
    &&& !r.finished ==> forall|k: u32| #[trigger]
        r.outputs.contains_key(k) ==> b.is_open(r.outputs[k], BlockKind::Tool)
    &&& forall|i: int| #[trigger] b.open.contains_key(i) ==> 0 <= i < b.started
    &&& r.saw_tool ==> r.next > 0
    &&& r.finished ==> r.next > 0
}

/// The reducer remembers every open block.
spec fn all_known(r: ReducerView, b: Blocks) -> bool {
    forall|i: int| #[trigger]
        b.open.contains_key(i) ==> r.text == Some(i) || r.thinking == Some(i)
            || index_table::has_value(r.tools, i)
}

proof fn accept_concat(b: Blocks, s: Seq<OutView>, t: Seq<OutView>)
    ensures
        b.accept_all(s + t) == match b.accept_all(s) {
            Some(x) => x.accept_all(t),
            None => None,
        },
    decreases t.len(),
{
    if t.len() == 0 {
        assert(s + t =~= s);
    } else {
        accept_concat(b, s, t.drop_last());
        assert((s + t).drop_last() =~= s + t.drop_last());
        assert((s + t).last() == t.last());
    }
}

proof fn accept_none(b: Blocks)
    ensures
        b.accept_all(Seq::empty()) == Some(b),
{
}

proof fn accept_one(b: Blocks, o: OutView)
    ensures
        b.accept_all(seq![o]) == b.accept(o),
{
    assert(seq![o].drop_last() =~= Seq::empty());
    accept_none(b);
}

proof fn accept_two(b: Blocks, o: OutView, p: OutView)
    ensures
        b.accept_all(seq![o, p]) == match b.accept(o) {
            Some(x) => x.accept(p),
            None => None,
        },
{
    assert(seq![o, p] =~= seq![o] + seq![p]);
    accept_concat(b, seq![o], seq![p]);
    accept_one(b, o);
    if let Some(x) = b.accept(o) {
        accept_one(x, p);
    }
}

proof fn accept_one_if(b: Blocks, present: bool, o: OutView)
    ensures
        b.accept_all(stream::one_if(present, o)) == if present {
            b.accept(o)
        } else {
            Some(b)
        },
{
    accept_one(b, o);
    accept_none(b);
}

/// The blocks without the tool blocks below `n`.
spec fn without_tools(b: Blocks, tools: Map<Seq<char>, int>, n: int) -> Blocks {
    Blocks {
        open: Map::new(
            |i: int| b.open.contains_key(i) && !(i < n && index_table::has_value(tools, i)),
            |i: int| b.open[i],
        ),
        ..b
    }
}

proof fn accept_tool_stops(b: Blocks, tools: Map<Seq<char>, int>, n: int)
    requires
        0 <= n,
        !b.ended,
        forall|k: Seq<char>| #[trigger]
            tools.contains_key(k) ==> b.is_open(tools[k], BlockKind::Tool),
        forall|i: int| #[trigger] b.open.contains_key(i) ==> 0 <= i,
    ensures
        b.accept_all(stream::tool_stops(stream::open_tools(tools, n))) == Some(
            without_tools(b, tools, n),
        ),
    decreases n,
{
    let stops = stream::tool_stops(stream::open_tools(tools, n));
    if n == 0 {
        assert(stops =~= Seq::empty());
        assert(without_tools(b, tools, 0).open =~= b.open);
    } else {
        accept_tool_stops(b, tools, n - 1);
        let before = stream::tool_stops(stream::open_tools(tools, n - 1));
        let w = without_tools(b, tools, n - 1);
        if index_table::has_value(tools, n - 1) {
            let k = choose|k: Seq<char>| #[trigger] tools.contains_key(k) && tools[k] == n - 1;
            assert(b.is_open(tools[k], BlockKind::Tool));
            let stop = OutView::ToolUseStop { index: n - 1 };
            assert(stops =~= before + seq![stop]);
            accept_concat(b, before, seq![stop]);
            accept_one(w, stop);
            assert(w.is_open(n - 1, BlockKind::Tool));
            assert(w.open.remove(n - 1) =~= without_tools(b, tools, n).open);
        } else {
            assert(stops =~= before);
            assert(w.open =~= without_tools(b, tools, n).open);
        }
    }
}

/// The step that leads from `r` to `after` with `outs` suits a client that
/// knows `b`.
spec fn suits(r: ReducerView, b: Blocks, after: ReducerView, outs: Seq<OutView>) -> bool {
    match b.accept_all(outs) {
        Some(x) => agree(after, x) && (all_known(r, b) ==> all_known(after, x)),
        None => false,
    }
}

proof fn text_delta_suits(r: ReducerView, b: Blocks, delta: Seq<char>)
    requires
        agree(r, b),
        !r.finished,
    ensures
        suits(r, b, r.text_delta(delta).0, r.text_delta(delta).1),
{
    let opens = r.text is None;
    let index = if opens {
        r.next
    } else {
        r.text->0
    };
    let start = OutView::TextStart { index };
    let feed = OutView::TextDelta { index, text: delta };
    accept_concat(
        b,
        stream::one_if(opens, start),
        stream::one_if(delta.len() > 0, feed),
    );
    accept_one_if(b, opens, start);
    let x = b.accept_all(stream::one_if(opens, start))->0;
    accept_one_if(x, delta.len() > 0, feed);
}

proof fn text_done_suits(r: ReducerView, b: Blocks)
    requires
        agree(r, b),
        !r.finished,
    ensures
        suits(r, b, r.text_done().0, r.text_done().1),
{
    accept_none(b);
    if let Some(index) = r.text {
        accept_one(b, OutView::TextStop { index });
    }
}

proof fn thinking_delta_suits(r: ReducerView, b: Blocks, delta: Seq<char>)
    requires
        agree(r, b),
        !r.finished,
    ensures
        suits(r, b, r.thinking_delta(delta).0, r.thinking_delta(delta).1),
{
    let opens = r.thinking is None;
    let index = if opens {
        r.next
    } else {
        r.thinking->0
    };
    let start = OutView::ThinkingStart { index };
    let feed = OutView::ThinkingDelta { index, text: delta };
    accept_concat(
        b,
        stream::one_if(opens, start),
        stream::one_if(delta.len() > 0, feed),
    );
    accept_one_if(b, opens, start);
    let x = b.accept_all(stream::one_if(opens, start))->0;
    accept_one_if(x, delta.len() > 0, feed);
}

proof fn thinking_done_suits(r: ReducerView, b: Blocks, signature: Option<Seq<char>>)
    requires
        agree(r, b),
        !r.finished,
    ensures
        suits(r, b, r.thinking_done(signature).0, r.thinking_done(signature).1),
{
    accept_none(b);
    match signature {
        Some(signature) => {
            let opens = r.thinking is None;
            let index = if opens {
                r.next
            } else {
                r.thinking->0
            };
            let start = OutView::ThinkingStart { index };
            let sign = OutView::ThinkingSignature { index, signature };
            let stop = OutView::ThinkingStop { index };
            accept_concat(b, stream::one_if(opens, start), seq![sign, stop]);
            accept_one_if(b, opens, start);
            let x = b.accept_all(stream::one_if(opens, start))->0;
            accept_two(x, sign, stop);
        },
        None => {
            if let Some(index) = r.thinking {
                accept_one(b, OutView::ThinkingStop { index });
            }
        },
    }
}

proof fn call_added_suits(r: ReducerView, b: Blocks, output_index: u32, call: CallView)
    requires
        agree(r, b),
        !r.finished,
    ensures
        match b.accept_all(r.call_added(output_index, call).1) {
            Some(x) => {
                let after = r.call_added(output_index, call).0;
                agree(after, x) && (all_known(r, b) && keeps_tools(
                    r,
                    EventView::ItemAdded { output_index, item: ItemView::FunctionCall(call) },
                ) ==> all_known(after, x))
            },
            None => false,
        },
{
    let index = r.next;
    let id = stream::block_id(call, index);
    let after = r.call_added(output_index, call).0;
    let start = OutView::ToolUseStart { index, id, name: call.name };
    let feed = OutView::ToolUseDelta { index, partial_json: call.arguments };
    let fed = call.arguments.len() > 0;
    text_done_suits(r, b);
    let x = b.accept_all(r.text_done().1)->0;
    assert(r.text_done().0.tools == r.tools && r.text_done().0.outputs == r.outputs);
    assert(agree(r.text_done().0, x));
    accept_concat(b, r.text_done().1, seq![start]);
    accept_one(x, start);
    let y = x.accept(start)->0;
    accept_concat(b, r.text_done().1 + seq![start], stream::one_if(fed, feed));
    accept_one_if(y, fed, feed);
    assert(after.tools.contains_key(id) && after.tools[id] == index);
    assert(index_table::has_value(after.tools, index));
    assert forall|k: Seq<char>| #[trigger] after.tools.contains_key(k) implies y.is_open(
        after.tools[k],
        BlockKind::Tool,
    ) by {
        if after.tools[k] != index {
            assert(r.tools.contains_key(k));
            assert(x.is_open(r.tools[k], BlockKind::Tool));
        }
    }
    assert forall|k: u32| #[trigger] after.outputs.contains_key(k) implies y.is_open(
        after.outputs[k],
        BlockKind::Tool,
    ) by {
        if k != output_index {
            assert(r.outputs.contains_key(k));
            assert(x.is_open(r.outputs[k], BlockKind::Tool));
        }
    }
}

proof fn call_done_suits(r: ReducerView, b: Blocks, call: CallView)
    requires
        agree(r, b),
        !r.finished,
    ensures
        suits(r, b, r.call_done(call).0, r.call_done(call).1),
{
    accept_none(b);
    let key = stream::done_key(call);
    if r.tools.contains_key(key) {
        let index = r.tools[key];
        let stop = OutView::ToolUseStop { index };
        accept_one(b, stop);
        let x = b.accept(stop)->0;
        let after = r.call_done(call).0;
        if all_known(r, b) {
            assert forall|i: int| #[trigger] x.open.contains_key(i) implies after.text == Some(i)
                || after.thinking == Some(i) || index_table::has_value(after.tools, i) by {
                assert(b.open.contains_key(i));
                if index_table::has_value(r.tools, i) {
                    let k = choose|k: Seq<char>| #[trigger] r.tools.contains_key(k) && r.tools[k] == i;
                    assert(after.tools.contains_key(k) && after.tools[k] == i);
                }
            }
        }
    }
}

proof fn arguments_delta_suits(
    r: ReducerView,
    b: Blocks,
    output_index: u32,
    item_id: Seq<char>,
    delta: Seq<char>,
)
    requires
        agree(r, b),
        !r.finished,
    ensures
        suits(r, b, r, r.arguments_delta(output_index, item_id, delta)),
{
    if r.outputs.contains_key(output_index) {
        accept_one_if(
            b,
            delta.len() > 0,
            OutView::ToolUseDelta { index: r.outputs[output_index], partial_json: delta },
        );
    } else {
        accept_one_if(
            b,
            r.tools.contains_key(item_id),
            OutView::ToolUseDelta { index: r.tools[item_id], partial_json: delta },
        );
    }
}

/// The end of the message suits its client: it is not refused, it ends the
/// message, and where the reducer remembered every open block none is left.
proof fn finish_suits(
    r: ReducerView,
    b: Blocks,
    usage: Option<ResponseUsage>,
    signature: Option<Seq<char>>,
)
    requires
        agree(r, b),
        !r.finished,
    ensures
        suits(r, b, r.finish(usage, signature).0, r.finish(usage, signature).1),
        match b.accept_all(r.finish(usage, signature).1) {
            Some(x) => x.ended && x.started > 0 && (all_known(r, b) ==> x.open == Map::<
                int,
                BlockKind,
            >::empty()),
            None => false,
        },
{
    let thinking = r.last_thinking(signature);
    accept_none(b);
    if let Some(index) = r.thinking {
        let stop = OutView::ThinkingStop { index };
        match signature {
            Some(signature) => accept_two(
                b,
                OutView::ThinkingSignature { index, signature },
                stop,
            ),
            None => accept_one(b, stop),
        }
    }
    let r1 = ReducerView { thinking: None, ..r };
    let b1 = b.accept_all(thinking)->0;
    assert(agree(r1, b1));
    text_done_suits(r1, b1);
    let text = r.text_done().1;
    accept_concat(b, thinking, text);
    let b2 = b1.accept_all(text)->0;
    assert(r1.text_done().0.tools == r.tools);
    assert(agree(r1.text_done().0, b2));
    let tools = stream::tool_stops(stream::open_tools(r.tools, r.next));
    accept_tool_stops(b2, r.tools, r.next);
    accept_concat(b, thinking + text, tools);
    let b3 = without_tools(b2, r.tools, r.next);
    let filler = r.filler();
    accept_concat(b, thinking + text + tools, filler);
    accept_none(b3);
    if !(r.next > 0 || r.saw_tool) {
        accept_two(
            b3,
            OutView::TextStart { index: r.next },
            OutView::TextStop { index: r.next },
        );
        assert(b3.open.insert(r.next, BlockKind::Text).remove(r.next) =~= b3.open);
    }
    let b4 = b3.accept_all(filler)->0;
    let end = stream::message_end(r.saw_tool, usage);
    accept_concat(b, thinking + text + tools + filler, end);
    accept_two(b4, end[0], end[1]);
    assert(end =~= seq![end[0], end[1]]);
    let b5 = Blocks { ended: true, ..b4 };
    assert(b.accept_all(r.finish(usage, signature).1) == Some(b5));
    if all_known(r, b) {
        assert forall|i: int| !#[trigger] b5.open.contains_key(i) by {
            if b5.open.contains_key(i) {
                assert(b.open.contains_key(i));
            }
        }
        assert(b5.open =~= Map::empty());
    }
}

proof fn step_suits(r: ReducerView, b: Blocks, event: EventView)
    requires
        agree(r, b),
        !r.finished,
    ensures
        match b.accept_all(r.step(event).1) {
            Some(x) => agree(r.step(event).0, x) && (all_known(r, b) && keeps_tools(r, event)
                ==> all_known(r.step(event).0, x)),
            None => false,
        },
{
    accept_none(b);
    match event {
        EventView::TextDelta(delta) => text_delta_suits(r, b, delta),
        EventView::TextDone => text_done_suits(r, b),
        EventView::ThinkingDelta(delta) => thinking_delta_suits(r, b, delta),
        EventView::ItemAdded { output_index, item } => {
            if let ItemView::FunctionCall(call) = item {
                call_added_suits(r, b, output_index, call);
            }
        },
        EventView::ItemDone(item) => match item {
            ItemView::FunctionCall(call) => call_done_suits(r, b, call),
            ItemView::Reasoning { id, encrypted_content } => {
                let seen = r.reasoning_seen(id, encrypted_content);
                assert(agree(seen, b));
                thinking_done_suits(seen, b, stream::pending_signature(seen.pending));
            },
            ItemView::Message => text_done_suits(r, b),
            ItemView::Other => {},
        },
        EventView::ArgumentsDelta { output_index, item_id, delta } => arguments_delta_suits(
            r,
            b,
            output_index,
            item_id,
            delta,
        ),
        EventView::Finished(usage) => finish_suits(
            r,
            b,
            usage,
            stream::pending_signature(r.pending),
        ),
        EventView::Failed(_) => accept_one(b, r.step(event).1[0]),
        EventView::Other => {},
    }
    if let EventView::Failed(_) = event {
        assert(r.step(event).1 =~= seq![r.step(event).1[0]]);
    }
}

/// What holds after any events of which only the last may end the response.
proof fn run_suits(events: Seq<EventView>)
    requires
        ends_once(events),
    ensures
        run(events).0.finished == (events.len() > 0 && events.last() is Finished),
        match Blocks::initial().accept_all(run(events).1) {
            Some(b) => agree(run(events).0, b) && (tools_kept(events) ==> all_known(
                run(events).0,
                b,
            )),
            None => false,
        },
    decreases events.len(),
{
    let initial = Blocks::initial();
    if events.len() == 0 {
        accept_none(initial);
    } else {
        let earlier = events.drop_last();
        assert forall|i: int| 0 <= i < earlier.len() - 1 implies !(#[trigger] earlier[i] is Finished) by {
            assert(earlier[i] == events[i]);
        }
        run_suits(earlier);
        if earlier.len() > 0 {
            assert(earlier.last() == events[events.len() - 2]);
        }
        let r = run(earlier).0;
        let b = initial.accept_all(run(earlier).1)->0;
        step_suits(r, b, events.last());
        accept_concat(initial, run(earlier).1, r.step(events.last()).1);
    }
}

/// A client of the message stream refuses no event: whatever the response
/// stream holds up to its end, blocks are counted from zero and started once,
/// only open blocks are fed, none is stopped twice, and the message has a block
/// and stops once, last.
pub proof fn no_event_is_refused(events: Seq<EventView>)
    requires
        ends_once(events),
    ensures
        match Blocks::initial().accept_all(message_of(events)) {
            Some(b) => b.ended && b.started > 0,
            None => false,
        },
{
    message_suits(events);
}

/// Every block that was started is stopped before the message is, provided that
/// no tool call takes over all the ids of another one that is open.
pub proof fn every_block_is_closed(events: Seq<EventView>)
    requires
        ends_once(events),
        tools_kept(events),
    ensures
        match Blocks::initial().accept_all(message_of(events)) {
            Some(b) => b.open == Map::<int, BlockKind>::empty(),
            None => false,
        },
{
    message_suits(events);
}

proof fn message_suits(events: Seq<EventView>)
    requires
        ends_once(events),
    ensures
        match Blocks::initial().accept_all(message_of(events)) {
            Some(b) => b.ended && b.started > 0 && (tools_kept(events) ==> b.open == Map::<
                int,
                BlockKind,
            >::empty()),
            None => false,
        },
{
    run_suits(events);
    let initial = Blocks::initial();
    let r = run(events).0;
    let b = initial.accept_all(run(events).1)->0;
    accept_concat(initial, run(events).1, r.close().1);
    if r.finished {
        accept_none(b);
        if tools_kept(events) {
            run_finished(events);
            assert(b.open =~= Map::empty());
        }
    } else {
        finish_suits(r, b, None, stream::pending_signature(r.pending));
    }
}

/// Once the end was reported the reducer holds no open block.
proof fn run_finished(events: Seq<EventView>)
    requires
        events.len() > 0,
        events.last() is Finished,
    ensures
        run(events).0.text is None,
        run(events).0.thinking is None,
        run(events).0.tools == Map::<Seq<char>, int>::empty(),
{
}

/// Closing a stream a second time reports nothing and changes nothing.
pub proof fn closing_twice_is_closing_once(r: ReducerView)
    ensures
        r.close().0.finished,
        r.close().0.close() == (r.close().0, Seq::<OutView>::empty()),
{
}

/// Whether the event begins a tool call.
pub open spec fn begins_call(event: EventView) -> bool {
    event matches EventView::ItemAdded { item, .. } && item is FunctionCall
}

/// Whether a tool call begins in these events.
pub open spec fn has_call(events: Seq<EventView>) -> bool {
    exists|i: int| 0 <= i < events.len() && begins_call(#[trigger] events[i])
}

proof fn run_saw_tool(events: Seq<EventView>)
    ensures
        run(events).0.saw_tool == has_call(events),
    decreases events.len(),
{
    if events.len() > 0 {
        let earlier = events.drop_last();
        run_saw_tool(earlier);
        if has_call(earlier) {
            let i = choose|i: int| 0 <= i < earlier.len() && begins_call(#[trigger] earlier[i]);
            assert(begins_call(events[i]));
        }
        if has_call(events) && !begins_call(events.last()) {
            let i = choose|i: int| 0 <= i < events.len() && begins_call(#[trigger] events[i]);
            assert(begins_call(earlier[i]));
        }
        if begins_call(events.last()) {
            assert(begins_call(events[events.len() - 1]));
        }
    }
}

/// The usage that the last event reports, if it ends the response.
pub open spec fn reported_usage(events: Seq<EventView>) -> Option<ResponseUsage> {
    if events.len() > 0 {
        match events.last() {
            EventView::Finished(usage) => usage,
            _ => None,
        }
    } else {
        None
    }
}

/// The message ends with its reason and its stop: `tool_use` where a tool call
/// began, else `end_turn`, with the usage that the response reported.
pub proof fn the_end_is_reported(events: Seq<EventView>)
    requires
        ends_once(events),
    ensures
        message_of(events).len() >= 2,
        message_of(events).subrange(
            message_of(events).len() - 2,
            message_of(events).len() as int,
        ) == stream::message_end(has_call(events), reported_usage(events)),
{
    run_suits(events);
    run_saw_tool(events);
    let r = run(events).0;
    let m = message_of(events);
    let end = stream::message_end(has_call(events), reported_usage(events));
    if r.finished {
        let earlier = events.drop_last();
        run_saw_tool(earlier);
        let f = run(earlier).0.step(events.last()).1;
        assert(m =~= run(earlier).1 + f);
        assert(f.subrange(f.len() - 2, f.len() as int) =~= end);
        assert(m.subrange(m.len() - 2, m.len() as int) =~= f.subrange(f.len() - 2, f.len() as int));
    } else {
        let f = r.close().1;
        assert(f.subrange(f.len() - 2, f.len() as int) =~= end);
        assert(m.subrange(m.len() - 2, m.len() as int) =~= f.subrange(f.len() - 2, f.len() as int));
    }
}

/// Arguments that come for the output of a call go to the block of that call.
pub proof fn arguments_reach_their_call(
    r: ReducerView,
    output_index: u32,
    call: CallView,
    item_id: Seq<char>,
    delta: Seq<char>,
)
    requires
        delta.len() > 0,
    ensures
        r.call_added(output_index, call).0.arguments_delta(output_index, item_id, delta) == seq![
            OutView::ToolUseDelta { index: r.next, partial_json: delta },
        ],
{
}

/// The block that arguments for an output go to stays the same until it is
/// stopped or another call begins for that output.
pub proof fn a_route_lasts_until_its_block_stops(r: ReducerView, event: EventView, output_index: u32)
    requires
        r.outputs.contains_key(output_index),
        !(event matches EventView::ItemAdded { output_index: o, item } && o == output_index
            && item is FunctionCall),
    ensures
        ({
            let (after, outs) = r.step(event);
            ||| after.outputs.contains_key(output_index) && after.outputs[output_index]
                == r.outputs[output_index]
            ||| outs == seq![OutView::ToolUseStop { index: r.outputs[output_index] }]
        }),
{
}

/// The event that a tool call ended.
pub open spec fn call_ends(call: CallView) -> EventView {
    EventView::ItemDone(ItemView::FunctionCall(call))
}

/// Whether the call's end finds this block, which is open.
pub open spec fn ends_block(r: ReducerView, call: CallView, index: int) -> bool {
    r.tools.contains_key(stream::done_key(call)) && r.tools[stream::done_key(call)] == index
}

/// A call that ends is over: its block stops once. A second end that names the
/// same block reports nothing, nor do later arguments for it, and the block of
/// any other call stays open until that call ends.
pub proof fn a_call_ends_once(
    r: ReducerView,
    call: CallView,
    again: CallView,
    other: CallView,
    output_index: u32,
    item_id: Seq<char>,
    delta: Seq<char>,
    index: int,
    other_index: int,
)
    requires
        ends_block(r, call, index),
        ends_block(r, again, index),
        ends_block(r, other, other_index),
        index != other_index,
        r.outputs.contains_key(output_index) ==> r.outputs[output_index] == index,
        r.tools.contains_key(item_id) ==> r.tools[item_id] == index,
    ensures
        ({
            let (after, outs) = r.step(call_ends(call));
            &&& outs == seq![OutView::ToolUseStop { index }]
            &&& after.step(call_ends(again)) == (after, Seq::<OutView>::empty())
            &&& after.step(EventView::ArgumentsDelta { output_index, item_id, delta }) == (
                after,
                Seq::<OutView>::empty(),
            )
            &&& ends_block(after, other, other_index)
            &&& after.step(call_ends(other)).1 == seq![OutView::ToolUseStop { index: other_index }]
        }),
{
}

/// The call under its item id alone.
pub open spec fn by_item_id(call: CallView) -> CallView {
    CallView { call_id: Seq::empty(), ..call }
}

/// Two calls that begin one after the other, each with ids of its own, end once
/// each, whether their ends name the call id or the item id.
pub proof fn two_calls_end_once_each(
    r: ReducerView,
    a: CallView,
    b: CallView,
    a_output: u32,
    b_output: u32,
    delta: Seq<char>,
)
    requires
        r.wf(),
        a_output != b_output,
        a.call_id.len() > 0,
        b.call_id.len() > 0,
        a.id is Some && a.id->0.len() > 0,
        b.id is Some && b.id->0.len() > 0,
        a.call_id != b.call_id,
        a.call_id != b.id->0,
        a.id->0 != b.call_id,
        a.id->0 != b.id->0,
    ensures
        ({
            let begun = r.call_added(a_output, a).0.call_added(b_output, b).0;
            let (a_index, b_index) = (r.next, r.next + 1);
            let over = begun.step(call_ends(a)).0;
            let nothing = Seq::<OutView>::empty();
            let late = |id: Seq<char>|
                EventView::ArgumentsDelta { output_index: a_output, item_id: id, delta };
            &&& begun.step(call_ends(a)).1 == seq![OutView::ToolUseStop { index: a_index }]
            &&& begun.step(call_ends(by_item_id(a))) == begun.step(call_ends(a))
            &&& over.step(call_ends(a)) == (over, nothing)
            &&& over.step(call_ends(by_item_id(a))) == (over, nothing)
            &&& over.step(late(a.call_id)) == (over, nothing)
            &&& over.step(late(a.id->0)) == (over, nothing)
            &&& over.step(call_ends(b)).1 == seq![OutView::ToolUseStop { index: b_index }]
            &&& over.step(call_ends(by_item_id(b))).1 == seq![
                OutView::ToolUseStop { index: b_index },
            ]
        }),
{
}

/// What an event of the message stream adds to the text, the thinking or the
/// tool arguments.
pub open spec fn said(out: OutView, kind: BlockKind) -> Seq<char> {
    match (kind, out) {
        (BlockKind::Text, OutView::TextDelta { text, .. }) => text,
        (BlockKind::Thinking, OutView::ThinkingDelta { text, .. }) => text,
        (BlockKind::Tool, OutView::ToolUseDelta { partial_json, .. }) => partial_json,
        _ => Seq::empty(),
    }
}

/// What events of the message stream say together.
pub open spec fn said_in(outs: Seq<OutView>, kind: BlockKind) -> Seq<char>
    decreases outs.len(),
{
    if outs.len() == 0 {
        Seq::empty()
    } else {
        said_in(outs.drop_last(), kind) + said(outs.last(), kind)
    }
}

/// What an event of the response stream adds to the text or the thinking.
pub open spec fn heard(event: EventView, kind: BlockKind) -> Seq<char> {
    match (kind, event) {
        (BlockKind::Text, EventView::TextDelta(delta)) => delta,
        (BlockKind::Thinking, EventView::ThinkingDelta(delta)) => delta,
        _ => Seq::empty(),
    }
}

/// What events of the response stream say together.
pub open spec fn heard_in(events: Seq<EventView>, kind: BlockKind) -> Seq<char>
    decreases events.len(),
{
    if events.len() == 0 {
        Seq::empty()
    } else {
        heard_in(events.drop_last(), kind) + heard(events.last(), kind)
    }
}

proof fn said_concat(s: Seq<OutView>, t: Seq<OutView>, kind: BlockKind)
    ensures
        said_in(s + t, kind) == said_in(s, kind) + said_in(t, kind),
    decreases t.len(),
{
    if t.len() == 0 {
        assert(s + t =~= s);
        assert(said_in(s, kind) + said_in(t, kind) =~= said_in(s, kind));
    } else {
        said_concat(s, t.drop_last(), kind);
        assert((s + t).drop_last() =~= s + t.drop_last());
        assert((s + t).last() == t.last());
        assert(said_in(s + t, kind) =~= said_in(s, kind) + said_in(t, kind));
    }
}

/// Events that hold neither text nor thinking say nothing.
proof fn said_by_none(outs: Seq<OutView>, kind: BlockKind)
    requires
        forall|i: int|
            0 <= i < outs.len() ==> said(#[trigger] outs[i], kind) == Seq::<char>::empty(),
    ensures
        said_in(outs, kind) == Seq::<char>::empty(),
    decreases outs.len(),
{
    if outs.len() > 0 {
        said_by_none(outs.drop_last(), kind);
        assert(said(outs[outs.len() - 1], kind) == Seq::<char>::empty());
    }
}

proof fn said_by_delta(start: Seq<OutView>, feed: Seq<OutView>, delta: Seq<char>, kind: BlockKind)
    requires
        forall|i: int|
            0 <= i < start.len() ==> said(#[trigger] start[i], kind) == Seq::<char>::empty(),
        if delta.len() > 0 {
            feed.len() == 1 && said(feed[0], kind) == delta
        } else {
            feed.len() == 0
        },
    ensures
        said_in(start + feed, kind) == delta,
{
    said_concat(start, feed, kind);
    said_by_none(start, kind);
    if delta.len() > 0 {
        said_by_none(feed.drop_last(), kind);
        assert(said_in(feed, kind) =~= delta);
    } else {
        said_by_none(feed, kind);
        assert(delta =~= Seq::empty());
    }
    assert(said_in(start + feed, kind) =~= delta);
}

proof fn step_says(r: ReducerView, event: EventView, kind: BlockKind)
    requires
        !(kind is Tool),
    ensures
        said_in(r.step(event).1, kind) == heard(event, kind),
{
    let outs = r.step(event).1;
    match event {
        EventView::TextDelta(delta) if kind is Text => {
            let opens = r.text is None;
            let index = if opens {
                r.next
            } else {
                r.text->0
            };
            said_by_delta(
                stream::one_if(opens, OutView::TextStart { index }),
                stream::one_if(delta.len() > 0, OutView::TextDelta { index, text: delta }),
                delta,
                kind,
            );
        },
        EventView::ThinkingDelta(delta) if kind is Thinking => {
            let opens = r.thinking is None;
            let index = if opens {
                r.next
            } else {
                r.thinking->0
            };
            said_by_delta(
                stream::one_if(opens, OutView::ThinkingStart { index }),
                stream::one_if(delta.len() > 0, OutView::ThinkingDelta { index, text: delta }),
                delta,
                kind,
            );
        },
        EventView::Finished(usage) => finish_says_nothing(
            r,
            usage,
            stream::pending_signature(r.pending),
            kind,
        ),
        EventView::ItemAdded { output_index, item: ItemView::FunctionCall(call) } => {
            said_by_none(r.call_added(output_index, call).1, kind);
        },
        EventView::ItemDone(ItemView::Reasoning { id, encrypted_content }) => {
            let seen = r.reasoning_seen(id, encrypted_content);
            said_by_none(
                seen.thinking_done(stream::pending_signature(seen.pending)).1,
                kind,
            );
        },
        EventView::TextDelta(delta) => {
            said_by_none(r.text_delta(delta).1, kind);
        },
        EventView::ThinkingDelta(delta) => {
            said_by_none(r.thinking_delta(delta).1, kind);
        },
        _ => {
            said_by_none(outs, kind);
        },
    }
}

proof fn finish_says_nothing(
    r: ReducerView,
    usage: Option<ResponseUsage>,
    signature: Option<Seq<char>>,
    kind: BlockKind,
)
    requires
        !(kind is Tool),
    ensures
        said_in(r.finish(usage, signature).1, kind) == Seq::<char>::empty(),
{
    let thinking = r.last_thinking(signature);
    let text = r.text_done().1;
    let tools = stream::tool_stops(stream::open_tools(r.tools, r.next));
    let filler = r.filler();
    let end = stream::message_end(r.saw_tool, usage);
    said_by_none(thinking, kind);
    said_by_none(text, kind);
    said_by_none(tools, kind);
    said_by_none(filler, kind);
    said_by_none(end, kind);
    said_concat(thinking, text, kind);
    said_concat(thinking + text, tools, kind);
    said_concat(thinking + text + tools, filler, kind);
    said_concat(thinking + text + tools + filler, end, kind);
    assert(said_in(r.finish(usage, signature).1, kind) =~= Seq::empty());
}

/// The text of the message is the text of the response, and so is its
/// thinking: nothing is lost, added or reordered.
pub proof fn what_is_said_is_carried_over(events: Seq<EventView>, kind: BlockKind)
    requires
        !(kind is Tool),
    ensures
        said_in(message_of(events), kind) == heard_in(events, kind),
{
    what_was_heard_was_said(events, kind);
    let close = run(events).0.close().1;
    said_concat(run(events).1, close, kind);
    said_by_none(Seq::empty(), kind);
    finish_says_nothing(
        run(events).0,
        None,
        stream::pending_signature(run(events).0.pending),
        kind,
    );
    assert(said_in(message_of(events), kind) =~= heard_in(events, kind));
}

/// What was reported so far says what was heard so far.
pub proof fn what_was_heard_was_said(events: Seq<EventView>, kind: BlockKind)
    requires
        !(kind is Tool),
    ensures
        said_in(run(events).1, kind) == heard_in(events, kind),
    decreases events.len(),
{
    if events.len() > 0 {
        let earlier = events.drop_last();
        what_was_heard_was_said(earlier, kind);
        let r = run(earlier).0;
        step_says(r, events.last(), kind);
        said_concat(run(earlier).1, r.step(events.last()).1, kind);
    }
}

} // verus!
