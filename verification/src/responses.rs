//! What Grok's response stream reports, as far as the bridge reads it.

use vstd::prelude::*;

use crate::text;

verus! {

/// A call of a function tool.
#[derive(Debug, Clone, PartialEq, Eq)]
pub struct FunctionToolCall {
    pub arguments: String,
    pub call_id: String,
    pub name: String,
    pub id: Option<String>,
}

/// A reasoning item.
#[derive(Debug, Clone, PartialEq, Eq)]
pub struct ReasoningItem {
    pub id: String,
    pub encrypted_content: Option<String>,
}

/// An item of the response's output.
#[derive(Debug, Clone, PartialEq, Eq)]
pub enum OutputItem {
    FunctionCall(FunctionToolCall),
    Reasoning(ReasoningItem),
    Message,
    Other,
}

/// Tokens that a response used.
#[derive(Debug, Clone, Copy, PartialEq, Eq)]
pub struct ResponseUsage {
    pub input_tokens: u64,
    pub output_tokens: u64,
}

/// An event of the response stream.
#[derive(Debug, Clone, PartialEq, Eq)]
pub enum ResponseStreamEvent {
    ResponseOutputTextDelta { delta: String },
    ResponseOutputTextDone,
    ResponseReasoningSummaryTextDelta { delta: String },
    ResponseReasoningTextDelta { delta: String },
    ResponseOutputItemAdded { output_index: u32, item: OutputItem },
    ResponseOutputItemDone { output_index: u32, item: OutputItem },
    ResponseFunctionCallArgumentsDelta { output_index: u32, item_id: String, delta: String },
    ResponseCompleted { usage: Option<ResponseUsage> },
    ResponseIncomplete { usage: Option<ResponseUsage> },
    /// The response failed, with the upstream's message where it gave one.
    ResponseFailed { message: Option<String> },
    Other,
}

/// The mathematical value of a [`FunctionToolCall`].
pub ghost struct CallView {
    pub arguments: Seq<char>,
    pub call_id: Seq<char>,
    pub name: Seq<char>,
    pub id: Option<Seq<char>>,
}

/// The mathematical value of an [`OutputItem`].
pub ghost enum ItemView {
    FunctionCall(CallView),
    Reasoning { id: Seq<char>, encrypted_content: Option<Seq<char>> },
    Message,
    Other,
}

/// The mathematical value of a [`ResponseStreamEvent`].
pub ghost enum EventView {
    TextDelta(Seq<char>),
    TextDone,
    ThinkingDelta(Seq<char>),
    ItemAdded { output_index: u32, item: ItemView },
    ItemDone(ItemView),
    ArgumentsDelta { output_index: u32, item_id: Seq<char>, delta: Seq<char> },
    Finished(Option<ResponseUsage>),
    Failed(Option<Seq<char>>),
    Other,
}

impl View for FunctionToolCall {
    type V = CallView;

    open spec fn view(&self) -> CallView {
        CallView {
            arguments: self.arguments@,
            call_id: self.call_id@,
            name: self.name@,
            id: text::opt_string(self.id),
        }
    }
}

impl View for OutputItem {
    type V = ItemView;

    open spec fn view(&self) -> ItemView {
        match self {
            OutputItem::FunctionCall(call) => ItemView::FunctionCall(call@),
            OutputItem::Reasoning(r) => ItemView::Reasoning {
                id: r.id@,
                encrypted_content: text::opt_string(r.encrypted_content),
            },
            OutputItem::Message => ItemView::Message,
            OutputItem::Other => ItemView::Other,
        }
    }
}

impl View for ResponseStreamEvent {
    type V = EventView;

    open spec fn view(&self) -> EventView {
        match self {
            ResponseStreamEvent::ResponseOutputTextDelta { delta } => EventView::TextDelta(delta@),
            ResponseStreamEvent::ResponseOutputTextDone => EventView::TextDone,
            ResponseStreamEvent::ResponseReasoningSummaryTextDelta { delta } => {
                EventView::ThinkingDelta(delta@)
            },
            ResponseStreamEvent::ResponseReasoningTextDelta { delta } => EventView::ThinkingDelta(
                delta@,
            ),
            ResponseStreamEvent::ResponseOutputItemAdded { output_index, item } => {
                EventView::ItemAdded { output_index: *output_index, item: item@ }
            },
            ResponseStreamEvent::ResponseOutputItemDone { item, .. } => EventView::ItemDone(item@),
            ResponseStreamEvent::ResponseFunctionCallArgumentsDelta {
                output_index,
                item_id,
                delta,
            } => EventView::ArgumentsDelta {
                output_index: *output_index,
                item_id: item_id@,
                delta: delta@,
            },
            ResponseStreamEvent::ResponseCompleted { usage } => EventView::Finished(*usage),
            ResponseStreamEvent::ResponseIncomplete { usage } => EventView::Finished(*usage),
            ResponseStreamEvent::ResponseFailed { message } => EventView::Failed(
                text::opt_string(*message),
            ),
            ResponseStreamEvent::Other => EventView::Other,
        }
    }
}

} // verus!
