//! Grok's response events turned into the content events of an Anthropic
//! message.

use vstd::prelude::*;

use crate::reasoning_signature;
use crate::reasoning_signature::{
    encode_reasoning_signature, PendingReasoning, PendingView, ReasoningReplay, ReplayView,
};
use crate::responses::{
    CallView, EventView, FunctionToolCall, ItemView, OutputItem, ResponseStreamEvent,
    ResponseUsage,
};
use crate::text;
use crate::translate::index_table;
use crate::translate::index_table::IndexTable;

verus! {

/// An event of the Anthropic message stream.
#[derive(Debug, Clone, PartialEq, Eq)]
pub enum AnthropicOut {
    ThinkingStart { index: usize },
    ThinkingDelta { index: usize, text: String },
    ThinkingSignature { index: usize, signature: String },
    ThinkingStop { index: usize },
    TextStart { index: usize },
    TextDelta { index: usize, text: String },
    TextStop { index: usize },
    ToolUseStart { index: usize, id: String, name: String },
    ToolUseDelta { index: usize, partial_json: String },
    ToolUseStop { index: usize },
    MessageDelta {
        stop_reason: Option<String>,
        input_tokens: Option<u64>,
        output_tokens: Option<u64>,
    },
    MessageStop,
    Error { message: String },
}

/// The mathematical value of an [`AnthropicOut`].
pub ghost enum OutView {
    ThinkingStart { index: int },
    ThinkingDelta { index: int, text: Seq<char> },
    ThinkingSignature { index: int, signature: Seq<char> },
    ThinkingStop { index: int },
    TextStart { index: int },
    TextDelta { index: int, text: Seq<char> },
    TextStop { index: int },
    ToolUseStart { index: int, id: Seq<char>, name: Seq<char> },
    ToolUseDelta { index: int, partial_json: Seq<char> },
    ToolUseStop { index: int },
    MessageDelta {
        stop_reason: Option<Seq<char>>,
        input_tokens: Option<u64>,
        output_tokens: Option<u64>,
    },
    MessageStop,
    Error { message: Seq<char> },
}

impl View for AnthropicOut {
    type V = OutView;

    open spec fn view(&self) -> OutView {
        match self {
            AnthropicOut::ThinkingStart { index } => OutView::ThinkingStart { index: *index as int },
            AnthropicOut::ThinkingDelta { index, text } => OutView::ThinkingDelta {
                index: *index as int,
                text: text@,
            },
            AnthropicOut::ThinkingSignature { index, signature } => OutView::ThinkingSignature {
                index: *index as int,
                signature: signature@,
            },
            AnthropicOut::ThinkingStop { index } => OutView::ThinkingStop { index: *index as int },
            AnthropicOut::TextStart { index } => OutView::TextStart { index: *index as int },
            AnthropicOut::TextDelta { index, text } => OutView::TextDelta {
                index: *index as int,
                text: text@,
            },
            AnthropicOut::TextStop { index } => OutView::TextStop { index: *index as int },
            AnthropicOut::ToolUseStart { index, id, name } => OutView::ToolUseStart {
                index: *index as int,
                id: id@,
                name: name@,
            },
            AnthropicOut::ToolUseDelta { index, partial_json } => OutView::ToolUseDelta {
                index: *index as int,
                partial_json: partial_json@,
            },
            AnthropicOut::ToolUseStop { index } => OutView::ToolUseStop { index: *index as int },
            AnthropicOut::MessageDelta { stop_reason, input_tokens, output_tokens } => {
                OutView::MessageDelta {
                    stop_reason: text::opt_string(*stop_reason),
                    input_tokens: *input_tokens,
                    output_tokens: *output_tokens,
                }
            },
            AnthropicOut::MessageStop => OutView::MessageStop,
            AnthropicOut::Error { message } => OutView::Error { message: message@ },
        }
    }
}

/// The values of a list of events.
pub open spec fn outs_view(outs: Seq<AnthropicOut>) -> Seq<OutView> {
    outs.map_values(|o: AnthropicOut| o@)
}

/// The single event `out` where `present`, else none.
pub open spec fn one_if(present: bool, out: OutView) -> Seq<OutView> {
    if present {
        seq![out]
    } else {
        Seq::empty()
    }
}

/// What the reducer remembers between events.
pub ghost struct ReducerView {
    /// Index that the next content block gets.
    pub next: int,
    /// Index of the open text block.
    pub text: Option<int>,
    /// Index of the open thinking block.
    pub thinking: Option<int>,
    /// Index of the open tool block for each call id and item id.
    pub tools: Map<Seq<char>, int>,
    /// Index of the tool block for each output index.
    pub outputs: Map<u32, int>,
    /// Reasoning fields seen so far.
    pub pending: PendingView,
    /// Whether a tool call was seen.
    pub saw_tool: bool,
    /// Whether the end of the message was reported.
    pub finished: bool,
}

/// The tool blocks below `n` that are open, in ascending order.
pub open spec fn open_tools(tools: Map<Seq<char>, int>, n: int) -> Seq<int>
    decreases n,
{
    if n <= 0 {
        Seq::empty()
    } else if index_table::has_value(tools, n - 1) {
        open_tools(tools, n - 1).push(n - 1)
    } else {
        open_tools(tools, n - 1)
    }
}

/// The stop events of these tool blocks.
pub open spec fn tool_stops(indices: Seq<int>) -> Seq<OutView> {
    indices.map_values(|i: int| OutView::ToolUseStop { index: i })
}

/// The id that a call's block reports.
pub open spec fn block_id(call: CallView, index: int) -> Seq<char> {
    if call.call_id.len() > 0 {
        call.call_id
    } else {
        match call.id {
            Some(id) => id,
            None => "call_"@ + text::decimal(index as nat),
        }
    }
}

/// The key by which the end of a call finds its block.
pub open spec fn done_key(call: CallView) -> Seq<char> {
    if call.call_id.len() > 0 {
        call.call_id
    } else {
        match call.id {
            Some(id) => id,
            None => Seq::empty(),
        }
    }
}

/// The signature for the reasoning seen so far.
pub open spec fn pending_signature(pending: PendingView) -> Option<Seq<char>> {
    match pending.replay() {
        Some(r) => reasoning_signature::signature_of(r),
        None => None,
    }
}

/// Why the message ended.
pub open spec fn stop_reason(saw_tool: bool) -> Seq<char> {
    if saw_tool {
        "tool_use"@
    } else {
        "end_turn"@
    }
}

/// What reports the end of the message.
pub open spec fn message_end(saw_tool: bool, usage: Option<ResponseUsage>) -> Seq<OutView> {
    seq![
        OutView::MessageDelta {
            stop_reason: Some(stop_reason(saw_tool)),
            input_tokens: match usage {
                Some(u) => Some(u.input_tokens),
                None => None,
            },
            output_tokens: match usage {
                Some(u) => Some(u.output_tokens),
                None => None,
            },
        },
        OutView::MessageStop,
    ]
}

impl ReducerView {
    /// The reducer at the start of a stream.
    pub open spec fn initial() -> ReducerView {
        ReducerView {
            next: 0,
            text: None,
            thinking: None,
            tools: Map::empty(),
            outputs: Map::empty(),
            pending: PendingView::empty(),
            saw_tool: false,
            finished: false,
        }
    }

    /// Text arrived: it goes to the open text block, or to a new one.
    pub open spec fn text_delta(self, delta: Seq<char>) -> (ReducerView, Seq<OutView>) {
        let opens = self.text is None;
        let index = if opens {
            self.next
        } else {
            self.text->0
        };
        (
            ReducerView {
                text: Some(index),
                next: if opens {
                    self.next + 1
                } else {
                    self.next
                },
                ..self
            },
            one_if(opens, OutView::TextStart { index }) + one_if(
                delta.len() > 0,
                OutView::TextDelta { index, text: delta },
            ),
        )
    }

    /// The open text block ends.
    pub open spec fn text_done(self) -> (ReducerView, Seq<OutView>) {
        (
            ReducerView { text: None, ..self },
            match self.text {
                Some(index) => seq![OutView::TextStop { index }],
                None => Seq::empty(),
            },
        )
    }

    /// Thinking arrived: it goes to the open thinking block, or to a new one.
    pub open spec fn thinking_delta(self, delta: Seq<char>) -> (ReducerView, Seq<OutView>) {
        let opens = self.thinking is None;
        let index = if opens {
            self.next
        } else {
            self.thinking->0
        };
        (
            ReducerView {
                thinking: Some(index),
                next: if opens {
                    self.next + 1
                } else {
                    self.next
                },
                ..self
            },
            one_if(opens, OutView::ThinkingStart { index }) + one_if(
                delta.len() > 0,
                OutView::ThinkingDelta { index, text: delta },
            ),
        )
    }

    /// A tool call begins: the open text block ends and a tool block opens,
    /// registered under its id, its item id and its output index.
    pub open spec fn call_added(self, output_index: u32, call: CallView) -> (
        ReducerView,
        Seq<OutView>,
    ) {
        let index = self.next;
        let id = block_id(call, index);
        let by_id = self.tools.insert(id, index);
        (
            ReducerView {
                text: None,
                next: index + 1,
                tools: match call.id {
                    Some(item_id) => by_id.insert(item_id, index),
                    None => by_id,
                },
                outputs: self.outputs.insert(output_index, index),
                saw_tool: true,
                ..self
            },
            self.text_done().1 + seq![OutView::ToolUseStart { index, id, name: call.name }]
                + one_if(
                call.arguments.len() > 0,
                OutView::ToolUseDelta { index, partial_json: call.arguments },
            ),
        )
    }

    /// A tool call ends: its block ends once, and every key of it goes.
    pub open spec fn call_done(self, call: CallView) -> (ReducerView, Seq<OutView>) {
        let key = done_key(call);
        if self.tools.contains_key(key) {
            let index = self.tools[key];
            (
                ReducerView {
                    tools: index_table::without_index(self.tools, index),
                    outputs: index_table::without_index(self.outputs, index),
                    ..self
                },
                seq![OutView::ToolUseStop { index }],
            )
        } else {
            (self, Seq::empty())
        }
    }

    /// Arguments of a tool call arrived, for the block of the output index or
    /// else of the item id.
    pub open spec fn arguments_delta(
        self,
        output_index: u32,
        item_id: Seq<char>,
        delta: Seq<char>,
    ) -> Seq<OutView> {
        if self.outputs.contains_key(output_index) {
            one_if(
                delta.len() > 0,
                OutView::ToolUseDelta { index: self.outputs[output_index], partial_json: delta },
            )
        } else {
            one_if(
                self.tools.contains_key(item_id),
                OutView::ToolUseDelta { index: self.tools[item_id], partial_json: delta },
            )
        }
    }

    /// A reasoning item ended with this signature: the thinking block, opened
    /// first where there is a signature but no block, gets it and ends.
    pub open spec fn thinking_done(self, signature: Option<Seq<char>>) -> (
        ReducerView,
        Seq<OutView>,
    ) {
        match signature {
            Some(signature) => {
                let opens = self.thinking is None;
                let index = if opens {
                    self.next
                } else {
                    self.thinking->0
                };
                (
                    ReducerView {
                        thinking: None,
                        next: if opens {
                            self.next + 1
                        } else {
                            self.next
                        },
                        ..self
                    },
                    one_if(opens, OutView::ThinkingStart { index })
                        + seq![
                        OutView::ThinkingSignature { index, signature },
                        OutView::ThinkingStop { index },
                    ],
                )
            },
            None => (
                ReducerView { thinking: None, ..self },
                match self.thinking {
                    Some(index) => seq![OutView::ThinkingStop { index }],
                    None => Seq::empty(),
                },
            ),
        }
    }

    /// The reasoning fields of an item, taken over.
    pub open spec fn reasoning_seen(
        self,
        id: Seq<char>,
        encrypted_content: Option<Seq<char>>,
    ) -> ReducerView {
        ReducerView { pending: self.pending.capture(Some(id), encrypted_content), ..self }
    }

    /// What ends the thinking block at the end of the message.
    pub open spec fn last_thinking(self, signature: Option<Seq<char>>) -> Seq<OutView> {
        match self.thinking {
            Some(index) => match signature {
                Some(signature) => seq![
                    OutView::ThinkingSignature { index, signature },
                    OutView::ThinkingStop { index },
                ],
                None => seq![OutView::ThinkingStop { index }],
            },
            None => Seq::empty(),
        }
    }

    /// What stands in for content in a message that had none.
    pub open spec fn filler(self) -> Seq<OutView> {
        if self.next > 0 || self.saw_tool {
            Seq::empty()
        } else {
            seq![OutView::TextStart { index: self.next }, OutView::TextStop { index: self.next }]
        }
    }

    /// The message ends: every open block ends once, a message without content
    /// gets an empty text block, and the reason and the usage are reported.
    pub open spec fn finish(
        self,
        usage: Option<ResponseUsage>,
        signature: Option<Seq<char>>,
    ) -> (ReducerView, Seq<OutView>) {
        (
            ReducerView {
                text: None,
                thinking: None,
                tools: Map::empty(),
                next: if self.next > 0 || self.saw_tool {
                    self.next
                } else {
                    self.next + 1
                },
                finished: true,
                ..self
            },
            self.last_thinking(signature) + self.text_done().1 + tool_stops(
                open_tools(self.tools, self.next),
            ) + self.filler() + message_end(self.saw_tool, usage),
        )
    }

    /// The state after an event, and what the event reports.
    pub open spec fn step(self, event: EventView) -> (ReducerView, Seq<OutView>) {
        match event {
            EventView::TextDelta(delta) => self.text_delta(delta),
            EventView::TextDone => self.text_done(),
            EventView::ThinkingDelta(delta) => self.thinking_delta(delta),
            EventView::ItemAdded { output_index, item } => match item {
                ItemView::FunctionCall(call) => self.call_added(output_index, call),
                ItemView::Reasoning { id, encrypted_content } => (
                    self.reasoning_seen(id, encrypted_content),
                    Seq::empty(),
                ),
                _ => (self, Seq::empty()),
            },
            EventView::ItemDone(item) => match item {
                ItemView::FunctionCall(call) => self.call_done(call),
                ItemView::Reasoning { id, encrypted_content } => {
                    let seen = self.reasoning_seen(id, encrypted_content);
                    seen.thinking_done(pending_signature(seen.pending))
                },
                ItemView::Message => self.text_done(),
                ItemView::Other => (self, Seq::empty()),
            },
            EventView::ArgumentsDelta { output_index, item_id, delta } => (
                self,
                self.arguments_delta(output_index, item_id, delta),
            ),
            EventView::Finished(usage) => self.finish(usage, pending_signature(self.pending)),
            EventView::Failed(message) => (
                self,
                seq![
                    OutView::Error {
                        message: match message {
                            Some(m) => m,
                            None => "upstream response failed"@,
                        },
                    },
                ],
            ),
            EventView::Other => (self, Seq::empty()),
        }
    }

    /// Closing the stream where its end was not reported yet.
    pub open spec fn close(self) -> (ReducerView, Seq<OutView>) {
        if self.finished {
            (self, Seq::empty())
        } else {
            self.finish(None, pending_signature(self.pending))
        }
    }

    /// Block indices in use are below the next one.
    pub open spec fn wf(self) -> bool {
        &&& 0 <= self.next
        &&& self.text matches Some(i) ==> 0 <= i < self.next
        &&& self.thinking matches Some(i) ==> 0 <= i < self.next
        &&& forall|k: Seq<char>| #[trigger]
            self.tools.contains_key(k) ==> 0 <= self.tools[k] < self.next
        &&& forall|k: u32| #[trigger]
            self.outputs.contains_key(k) ==> 0 <= self.outputs[k] < self.next
        &&& self.saw_tool ==> self.next > 0
    }
}

/// Whether every signature among these events carries this reasoning item.
pub open spec fn signatures_carry(outs: Seq<OutView>, item: Option<ReplayView>) -> bool {
    forall|i: int|
        0 <= i < outs.len() ==> match #[trigger] outs[i] {
            OutView::ThinkingSignature { signature, .. } => item is Some
                && reasoning_signature::replay_of(signature) == item,
            _ => true,
        }
}

/// Turns the events of one response stream into the events of one Anthropic
/// message.
pub struct StreamReducer {
    next_index: usize,
    active_text: Option<usize>,
    active_thinking: Option<usize>,
    tools: IndexTable<String>,
    output_to_tool: IndexTable<u32>,
    pending_reasoning: PendingReasoning,
    saw_tool: bool,
    finished: bool,
}

spec fn index_view(i: Option<usize>) -> Option<int> {
    match i {
        Some(n) => Some(n as int),
        None => None,
    }
}

impl View for StreamReducer {
    type V = ReducerView;

    closed spec fn view(&self) -> ReducerView {
        ReducerView {
            next: self.next_index as int,
            text: index_view(self.active_text),
            thinking: index_view(self.active_thinking),
            tools: self.tools@,
            outputs: self.output_to_tool@,
            pending: self.pending_reasoning@,
            saw_tool: self.saw_tool,
            finished: self.finished,
        }
    }
}

fn emit(outs: &mut Vec<AnthropicOut>, out: AnthropicOut)
    ensures
        outs_view(final(outs)@) == outs_view(old(outs)@).push(out@),
{
    outs.push(out);
    assert(outs_view(outs@) =~= outs_view(old(outs)@).push(out@));
}

fn no_outs() -> (r: Vec<AnthropicOut>)
    ensures
        outs_view(r@) == Seq::<OutView>::empty(),
{
    let r = Vec::new();
    assert(outs_view(r@) =~= Seq::<OutView>::empty());
    r
}

proof fn finish_signatures(
    r: ReducerView,
    usage: Option<ResponseUsage>,
    signature: Option<Seq<char>>,
    item: Option<ReplayView>,
)
    requires
        signature is Some ==> item is Some && reasoning_signature::replay_of(signature->0) == item,
    ensures
        signatures_carry(r.finish(usage, signature).1, item),
{
    let head = r.last_thinking(signature) + r.text_done().1;
    let tools = tool_stops(open_tools(r.tools, r.next));
    let tail = r.filler() + message_end(r.saw_tool, usage);
    let outs = r.finish(usage, signature).1;
    assert(outs =~= head + tools + tail);
    assert forall|i: int| 0 <= i < outs.len() implies match #[trigger] outs[i] {
        OutView::ThinkingSignature { signature, .. } => item is Some
            && reasoning_signature::replay_of(signature) == item,
        _ => true,
    } by {
        if i < head.len() {
            assert(outs[i] == head[i]);
        } else if i < head.len() + tools.len() {
            assert(outs[i] == tools[i - head.len()]);
        } else {
            assert(outs[i] == tail[i - head.len() - tools.len()]);
        }
    }
}

impl Default for StreamReducer {
    /// A reducer for a new stream.
    fn default() -> (r: StreamReducer)
        ensures
            r.wf(),
            r@ == ReducerView::initial(),
    {
        StreamReducer::new()
    }
}

impl StreamReducer {
    /// The tables hold each key once, and block indices in use are below the
    /// next one.
    pub closed spec fn wf(&self) -> bool {
        &&& self.tools.wf()
        &&& self.output_to_tool.wf()
        &&& self@.wf()
    }

    /// A reducer for a new stream.
    pub fn new() -> (r: StreamReducer)
        ensures
            r.wf(),
            r@ == ReducerView::initial(),
    {
        StreamReducer {
            next_index: 0,
            active_text: None,
            active_thinking: None,
            tools: IndexTable::new(),
            output_to_tool: IndexTable::new(),
            pending_reasoning: PendingReasoning::default(),
            saw_tool: false,
            finished: false,
        }
    }

    /// Reports what an event of the response stream means for the message. A
    /// signature that is reported carries the reasoning seen so far.
    pub fn push_event(&mut self, event: &ResponseStreamEvent) -> (r: Vec<AnthropicOut>)
        requires
            old(self).wf(),
            old(self)@.next < usize::MAX,
        ensures
            final(self).wf(),
            (final(self)@, outs_view(r@)) == old(self)@.step(event@),
            signatures_carry(outs_view(r@), final(self)@.pending.replay()),
    {
        match event {
            ResponseStreamEvent::ResponseOutputTextDelta { delta } => {
                let mut outs = no_outs();
                let index = match self.active_text {
                    Some(index) => index,
                    None => {
                        let index = self.take_index();
                        self.active_text = Some(index);
                        emit(&mut outs, AnthropicOut::TextStart { index });
                        index
                    },
                };
                if !delta.as_str().is_empty() {
                    emit(&mut outs, AnthropicOut::TextDelta { index, text: delta.clone() });
                }
                assert(outs_view(outs@) =~= old(self)@.text_delta(delta@).1);
                outs
            },
            ResponseStreamEvent::ResponseOutputTextDone => self.end_text(),
            ResponseStreamEvent::ResponseReasoningSummaryTextDelta { delta } => self.thinking_delta(
                delta.as_str(),
            ),
            ResponseStreamEvent::ResponseReasoningTextDelta { delta } => self.thinking_delta(
                delta.as_str(),
            ),
            ResponseStreamEvent::ResponseOutputItemDone { item, .. } => self.on_output_item_done(
                item,
            ),
            ResponseStreamEvent::ResponseOutputItemAdded { output_index, item } => {
                self.on_output_item_added(*output_index, item)
            },
            ResponseStreamEvent::ResponseFunctionCallArgumentsDelta {
                output_index,
                item_id,
                delta,
            } => {
                let mut outs = no_outs();
                match self.output_to_tool.get(output_index) {
                    Some(index) => {
                        if !delta.as_str().is_empty() {
                            emit(
                                &mut outs,
                                AnthropicOut::ToolUseDelta { index, partial_json: delta.clone() },
                            );
                        }
                    },
                    None => {
                        if let Some(index) = self.tools.get(item_id) {
                            emit(
                                &mut outs,
                                AnthropicOut::ToolUseDelta { index, partial_json: delta.clone() },
                            );
                        }
                    },
                }
                assert(outs_view(outs@) =~= old(self)@.arguments_delta(
                    *output_index,
                    item_id@,
                    delta@,
                ));
                outs
            },
            ResponseStreamEvent::ResponseCompleted { usage } => self.finish_open_blocks(*usage),
            ResponseStreamEvent::ResponseIncomplete { usage } => self.finish_open_blocks(*usage),
            ResponseStreamEvent::ResponseFailed { message } => {
                let mut outs = no_outs();
                let message = match message {
                    Some(m) => m.clone(),
                    None => "upstream response failed".to_owned(),
                };
                emit(&mut outs, AnthropicOut::Error { message });
                assert(outs_view(outs@) =~= old(self)@.step(event@).1);
                outs
            },
            ResponseStreamEvent::Other => no_outs(),
        }
    }

    /// Ends the open text block.
    fn end_text(&mut self) -> (r: Vec<AnthropicOut>)
        requires
            old(self).wf(),
        ensures
            final(self).wf(),
            (final(self)@, outs_view(r@)) == old(self)@.text_done(),
    {
        let mut outs = no_outs();
        self.stop_text(&mut outs);
        assert(outs_view(outs@) =~= old(self)@.text_done().1);
        outs
    }

    /// Reports thinking text.
    pub fn thinking_delta(&mut self, delta: &str) -> (r: Vec<AnthropicOut>)
        requires
            old(self).wf(),
            old(self)@.next < usize::MAX,
        ensures
            final(self).wf(),
            (final(self)@, outs_view(r@)) == old(self)@.thinking_delta(delta@),
    {
        let mut outs = no_outs();
        let index = match self.active_thinking {
            Some(index) => index,
            None => {
                let index = self.take_index();
                self.active_thinking = Some(index);
                emit(&mut outs, AnthropicOut::ThinkingStart { index });
                index
            },
        };
        if !delta.is_empty() {
            emit(&mut outs, AnthropicOut::ThinkingDelta { index, text: delta.to_owned() });
        }
        assert(outs_view(outs@) =~= old(self)@.thinking_delta(delta@).1);
        outs
    }

    /// Reports an output item that began.
    pub fn on_output_item_added(&mut self, output_index: u32, item: &OutputItem) -> (r: Vec<
        AnthropicOut,
    >)
        requires
            old(self).wf(),
            old(self)@.next < usize::MAX,
        ensures
            final(self).wf(),
            (final(self)@, outs_view(r@)) == old(self)@.step(
                EventView::ItemAdded { output_index, item: item@ },
            ),
    {
        match item {
            OutputItem::FunctionCall(call) => {
                let mut outs = self.end_text();
                let index = self.take_index();
                self.saw_tool = true;
                let id = if call.call_id.as_str().is_empty() {
                    match &call.id {
                        Some(id) => id.clone(),
                        None => text::join("call_", text::to_decimal(index as u64).as_str()),
                    }
                } else {
                    call.call_id.clone()
                };
                self.tools.insert(id.clone(), index);
                if let Some(item_id) = &call.id {
                    self.tools.insert(item_id.clone(), index);
                }
                self.output_to_tool.insert(output_index, index);
                emit(&mut outs, AnthropicOut::ToolUseStart { index, id, name: call.name.clone() });
                if !call.arguments.as_str().is_empty() {
                    emit(
                        &mut outs,
                        AnthropicOut::ToolUseDelta { index, partial_json: call.arguments.clone() },
                    );
                }
                assert(outs_view(outs@) =~= old(self)@.call_added(output_index, call@).1);
                outs
            },
            OutputItem::Reasoning(r) => {
                self.capture_reasoning(r.id.as_str(), &r.encrypted_content);
                no_outs()
            },
            _ => no_outs(),
        }
    }

    /// Takes over the fields of a reasoning item.
    fn capture_reasoning(&mut self, id: &str, encrypted_content: &Option<String>)
        requires
            old(self).wf(),
        ensures
            final(self).wf(),
            final(self)@ == old(self)@.reasoning_seen(id@, text::opt_string(*encrypted_content)),
    {
        match encrypted_content {
            Some(s) => self.pending_reasoning.capture_fields(Some(id), Some(s.as_str())),
            None => self.pending_reasoning.capture_fields(Some(id), None),
        }
    }

    /// The signature for the reasoning seen so far.
    fn pending_signature(&self) -> (r: Option<String>)
        ensures
            text::opt_string(r) == pending_signature(self@.pending),
            r is Some ==> self@.pending.replay() is Some && reasoning_signature::replay_of(r->0@)
                == self@.pending.replay(),
    {
        match self.pending_reasoning.replay() {
            Some(replay) => encode_reasoning_signature(&replay),
            None => None,
        }
    }

    /// Ends the thinking block of a reasoning item that has this signature.
    pub fn end_thinking(&mut self, signature: Option<String>) -> (r: Vec<AnthropicOut>)
        requires
            old(self).wf(),
            old(self)@.next < usize::MAX,
        ensures
            final(self).wf(),
            (final(self)@, outs_view(r@)) == old(self)@.thinking_done(text::opt_string(signature)),
    {
        let mut outs = no_outs();
        if let Some(signature) = signature {
            let index = match self.active_thinking {
                Some(index) => index,
                None => {
                    let index = self.take_index();
                    self.active_thinking = Some(index);
                    emit(&mut outs, AnthropicOut::ThinkingStart { index });
                    index
                },
            };
            emit(&mut outs, AnthropicOut::ThinkingSignature { index, signature });
        }
        if let Some(index) = self.active_thinking {
            self.active_thinking = None;
            emit(&mut outs, AnthropicOut::ThinkingStop { index });
        }
        assert(outs_view(outs@) =~= old(self)@.thinking_done(text::opt_string(signature)).1);
        outs
    }

    /// Ends the block of a tool call.
    fn end_call(&mut self, call: &FunctionToolCall) -> (r: Vec<AnthropicOut>)
        requires
            old(self).wf(),
        ensures
            final(self).wf(),
            (final(self)@, outs_view(r@)) == old(self)@.call_done(call@),
    {
        let mut outs = no_outs();
        let key = if call.call_id.as_str().is_empty() {
            match &call.id {
                Some(id) => id.clone(),
                None => String::new(),
            }
        } else {
            call.call_id.clone()
        };
        assert(key@ == done_key(call@));
        if let Some(index) = self.tools.get(&key) {
            self.tools.drop_index(index);
            self.output_to_tool.drop_index(index);
            emit(&mut outs, AnthropicOut::ToolUseStop { index });
        }
        assert(outs_view(outs@) =~= old(self)@.call_done(call@).1);
        outs
    }

    /// Reports an output item that ended.
    pub fn on_output_item_done(&mut self, item: &OutputItem) -> (r: Vec<AnthropicOut>)
        requires
            old(self).wf(),
            old(self)@.next < usize::MAX,
        ensures
            final(self).wf(),
            (final(self)@, outs_view(r@)) == old(self)@.step(EventView::ItemDone(item@)),
            signatures_carry(outs_view(r@), final(self)@.pending.replay()),
    {
        match item {
            OutputItem::FunctionCall(call) => self.end_call(call),
            OutputItem::Reasoning(r) => {
                self.capture_reasoning(r.id.as_str(), &r.encrypted_content);
                let signature = self.pending_signature();
                self.end_thinking(signature)
            },
            OutputItem::Message => self.end_text(),
            OutputItem::Other => no_outs(),
        }
    }

    /// Reports the end of every open tool block.
    fn stop_tools(&self, outs: &mut Vec<AnthropicOut>)
        requires
            self.wf(),
        ensures
            outs_view(final(outs)@) == outs_view(old(outs)@) + tool_stops(
                open_tools(self@.tools, self@.next),
            ),
    {
        let ghost before = outs_view(outs@);
        let mut i: usize = 0;
        assert(before + tool_stops(open_tools(self@.tools, 0)) =~= before);
        while i < self.next_index
            invariant
                i <= self.next_index,
                self.tools.wf(),
                outs_view(outs@) == before + tool_stops(open_tools(self@.tools, i as int)),
            decreases self.next_index - i,
        {
            if self.tools.has_index(i) {
                emit(outs, AnthropicOut::ToolUseStop { index: i });
            }
            i += 1;
            assert(outs_view(outs@) =~= before + tool_stops(open_tools(self@.tools, i as int)));
        }
    }

    /// Ends the open thinking block with this signature.
    fn stop_thinking(&mut self, signature: Option<String>, outs: &mut Vec<AnthropicOut>)
        requires
            old(self).wf(),
        ensures
            final(self).wf(),
            final(self)@ == (ReducerView { thinking: None, ..old(self)@ }),
            outs_view(final(outs)@) == outs_view(old(outs)@) + old(self)@.last_thinking(
                text::opt_string(signature),
            ),
    {
        let ghost before = outs_view(outs@);
        if let Some(index) = self.active_thinking {
            self.active_thinking = None;
            if let Some(signature) = signature {
                emit(outs, AnthropicOut::ThinkingSignature { index, signature });
            }
            emit(outs, AnthropicOut::ThinkingStop { index });
        }
        assert(outs_view(outs@) =~= before + old(self)@.last_thinking(text::opt_string(signature)));
    }

    /// Ends the open text block.
    fn stop_text(&mut self, outs: &mut Vec<AnthropicOut>)
        requires
            old(self).wf(),
        ensures
            final(self).wf(),
            final(self)@ == old(self)@.text_done().0,
            outs_view(final(outs)@) == outs_view(old(outs)@) + old(self)@.text_done().1,
    {
        let ghost before = outs_view(outs@);
        if let Some(index) = self.active_text {
            self.active_text = None;
            emit(outs, AnthropicOut::TextStop { index });
        }
        assert(outs_view(outs@) =~= before + old(self)@.text_done().1);
    }

    /// Gives a message without content an empty text block.
    fn fill_blank(&mut self, outs: &mut Vec<AnthropicOut>)
        requires
            old(self).wf(),
        ensures
            final(self).wf(),
            final(self)@ == (ReducerView {
                next: if old(self)@.next > 0 || old(self)@.saw_tool {
                    old(self)@.next
                } else {
                    old(self)@.next + 1
                },
                ..old(self)@
            }),
            outs_view(final(outs)@) == outs_view(old(outs)@) + old(self)@.filler(),
    {
        let ghost before = outs_view(outs@);
        if self.next_index == 0 && !self.saw_tool {
            let index = self.take_index();
            emit(outs, AnthropicOut::TextStart { index });
            emit(outs, AnthropicOut::TextStop { index });
        }
        assert(outs_view(outs@) =~= before + old(self)@.filler());
    }

    /// Reports why the message ended, its usage and its end.
    fn report_end(&self, usage: Option<ResponseUsage>, outs: &mut Vec<AnthropicOut>)
        ensures
            outs_view(final(outs)@) == outs_view(old(outs)@) + message_end(self@.saw_tool, usage),
    {
        let ghost before = outs_view(outs@);
        let (input_tokens, output_tokens) = match usage {
            Some(u) => (Some(u.input_tokens), Some(u.output_tokens)),
            None => (None, None),
        };
        let stop_reason = if self.saw_tool {
            "tool_use".to_owned()
        } else {
            "end_turn".to_owned()
        };
        emit(
            outs,
            AnthropicOut::MessageDelta {
                stop_reason: Some(stop_reason),
                input_tokens,
                output_tokens,
            },
        );
        emit(outs, AnthropicOut::MessageStop);
        assert(outs_view(outs@) =~= before + message_end(self@.saw_tool, usage));
    }

    /// Ends every open block and the message, the thinking block with this
    /// signature.
    pub fn finish_with_signature(
        &mut self,
        usage: Option<ResponseUsage>,
        signature: Option<String>,
    ) -> (r: Vec<AnthropicOut>)
        requires
            old(self).wf(),
        ensures
            final(self).wf(),
            (final(self)@, outs_view(r@)) == old(self)@.finish(usage, text::opt_string(signature)),
    {
        let mut outs = no_outs();
        self.stop_thinking(signature, &mut outs);
        self.stop_text(&mut outs);
        self.stop_tools(&mut outs);
        self.tools.clear();
        self.fill_blank(&mut outs);
        self.report_end(usage, &mut outs);
        self.finished = true;
        assert(outs_view(outs@) =~= old(self)@.finish(usage, text::opt_string(signature)).1);
        outs
    }

    /// Ends every open block and the message.
    fn finish_open_blocks(&mut self, usage: Option<ResponseUsage>) -> (r: Vec<AnthropicOut>)
        requires
            old(self).wf(),
        ensures
            final(self).wf(),
            (final(self)@, outs_view(r@)) == old(self)@.finish(
                usage,
                pending_signature(old(self)@.pending),
            ),
            signatures_carry(outs_view(r@), final(self)@.pending.replay()),
    {
        let signature = self.pending_signature();
        let outs = self.finish_with_signature(usage, signature);
        proof {
            finish_signatures(
                old(self)@,
                usage,
                text::opt_string(signature),
                self@.pending.replay(),
            );
        }
        outs
    }

    /// Ends the message where the response stream ended without reporting its
    /// end; reports nothing where the end was reported already. A signature that
    /// is reported carries the reasoning seen so far.
    pub fn finish_if_needed(&mut self) -> (r: Vec<AnthropicOut>)
        requires
            old(self).wf(),
        ensures
            final(self).wf(),
            (final(self)@, outs_view(r@)) == old(self)@.close(),
            signatures_carry(outs_view(r@), final(self)@.pending.replay()),
    {
        if self.finished {
            return no_outs();
        }
        self.finish_open_blocks(None)
    }

    /// Whether the end of the message was reported.
    pub fn is_finished(&self) -> (r: bool)
        ensures
            r == self@.finished,
    {
        self.finished
    }

    /// Index that the next content block gets.
    pub fn next_index(&self) -> (r: usize)
        ensures
            r == self@.next,
    {
        self.next_index
    }

    /// Takes the next block index.
    fn take_index(&mut self) -> (r: usize)
        requires
            old(self).wf(),
            old(self)@.next < usize::MAX,
        ensures
            final(self).wf(),
            r == old(self)@.next,
            final(self)@ == (ReducerView { next: old(self)@.next + 1, ..old(self)@ }),
    {
        let index = self.next_index;
        self.next_index += 1;
        index
    }

    /// The reasoning item to hand back, once its fields were seen.
    pub fn last_reasoning_replay(&self) -> (r: Option<ReasoningReplay>)
        ensures
            match r {
                Some(x) => self@.pending.replay() == Some(x@),
                None => self@.pending.replay() is None,
            },
    {
        self.pending_reasoning.replay()
    }
}

} // verus!
