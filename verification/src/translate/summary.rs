//! Short descriptions of events, for the traffic record.

use vstd::prelude::*;
use vstd::utf8::*;

use crate::json;
use crate::json::{Json, JsonView};
use crate::responses::ResponseStreamEvent;
use crate::text;
use crate::translate::stream::{AnthropicOut, OutView};
use crate::wire;

verus! {

/// How many characters of an event's debug text stand in its description.
pub const MAX_DEBUG_CHARS: usize = 40;

/// The name under which an event of the response stream is recorded.
pub open spec fn event_name(event: ResponseStreamEvent) -> Seq<char> {
    match event {
        ResponseStreamEvent::ResponseOutputTextDelta { .. } => "response.output_text.delta"@,
        ResponseStreamEvent::ResponseCompleted { .. } => "response.completed"@,
        ResponseStreamEvent::ResponseFailed { .. } => "response.failed"@,
        ResponseStreamEvent::ResponseOutputItemDone { .. } => "response.output_item.done"@,
        ResponseStreamEvent::ResponseOutputItemAdded { .. } => "response.output_item.added"@,
        ResponseStreamEvent::ResponseFunctionCallArgumentsDelta { .. } =>
            "response.function_call_arguments.delta"@,
        _ => "response.other"@,
    }
}

/// The name under which an event of the response stream is recorded.
pub fn event_type_name(event: &ResponseStreamEvent) -> (r: &'static str)
    ensures
        r@ == event_name(*event),
{
    match event {
        ResponseStreamEvent::ResponseOutputTextDelta { .. } => "response.output_text.delta",
        ResponseStreamEvent::ResponseCompleted { .. } => "response.completed",
        ResponseStreamEvent::ResponseFailed { .. } => "response.failed",
        ResponseStreamEvent::ResponseOutputItemDone { .. } => "response.output_item.done",
        ResponseStreamEvent::ResponseOutputItemAdded { .. } => "response.output_item.added",
        ResponseStreamEvent::ResponseFunctionCallArgumentsDelta { .. } =>
            "response.function_call_arguments.delta",
        _ => "response.other",
    }
}

/// The debug text of an event that has an index alone.
pub open spec fn index_debug(head: Seq<char>, index: int) -> Seq<char> {
    head + text::decimal(index as nat) + " }"@
}

/// The debug text of an event that has an index and a text.
pub open spec fn text_debug(head: Seq<char>, index: int, label: Seq<char>, s: Seq<char>) -> Seq<
    char,
> {
    head + text::decimal(index as nat) + label + debug_text(s) + " }"@
}

/// The debug text of an optional number.
pub open spec fn number_debug(n: Option<u64>) -> Seq<char> {
    match n {
        Some(n) => "Some("@ + text::decimal(n as nat) + ")"@,
        None => "None"@,
    }
}

/// The debug text of an optional text.
pub open spec fn opt_text_debug(s: Option<Seq<char>>) -> Seq<char> {
    match s {
        Some(s) => "Some("@ + debug_text(s) + ")"@,
        None => "None"@,
    }
}

/// A description by the start of the event's debug text.
pub open spec fn shortened(debug: Seq<char>) -> JsonView {
    json::typed_object(text::head(debug, MAX_DEBUG_CHARS as int))
}

/// The description of an event of the message stream.
pub open spec fn out_debug(ev: OutView) -> JsonView {
    match ev {
        OutView::TextDelta { index, text } => json::typed_object("text_delta"@).with(
            "index"@,
            json::number_value(index as u64),
        ).with("len"@, json::number_value(text::utf8_len(text) as u64)),
        OutView::ThinkingSignature { index, signature } => json::typed_object("thinking_signature"@).with(
            "index"@,
            json::number_value(index as u64),
        ),
        OutView::ToolUseStart { index, id, name } => json::typed_object("tool_use_start"@).with(
            "index"@,
            json::number_value(index as u64),
        ).with("name"@, json::text_value(name)).with("id"@, json::text_value(id)),
        OutView::MessageStop => json::typed_object("message_stop"@),
        OutView::Error { message } => json::typed_object("error"@).with(
            "message"@,
            json::text_value(message),
        ),
        OutView::ThinkingStart { index } => shortened(
            index_debug("ThinkingStart { index: "@, index),
        ),
        OutView::ThinkingDelta { index, text } => shortened(
            text_debug("ThinkingDelta { index: "@, index, ", text: "@, text),
        ),
        OutView::ThinkingStop { index } => shortened(index_debug("ThinkingStop { index: "@, index)),
        OutView::TextStart { index } => shortened(index_debug("TextStart { index: "@, index)),
        OutView::TextStop { index } => shortened(index_debug("TextStop { index: "@, index)),
        OutView::ToolUseDelta { index, partial_json } => shortened(
            text_debug("ToolUseDelta { index: "@, index, ", partial_json: "@, partial_json),
        ),
        OutView::ToolUseStop { index } => shortened(index_debug("ToolUseStop { index: "@, index)),
        OutView::MessageDelta { stop_reason, input_tokens, output_tokens } => shortened(
            "MessageDelta { stop_reason: "@ + opt_text_debug(stop_reason) + ", input_tokens: "@
                + number_debug(input_tokens) + ", output_tokens: "@ + number_debug(output_tokens)
                + " }"@,
        ),
    }
}

fn describe_short(debug: &str) -> (r: Json)
    ensures
        r@ == shortened(debug@),
        r@.wf(),
{
    Json::typed(text::at_most(debug, MAX_DEBUG_CHARS).as_str())
}

fn debug_of_index(head: &str, index: usize) -> (r: String)
    ensures
        r@ == index_debug(head@, index as int),
{
    text::join3(head, text::to_decimal(index as u64).as_str(), " }")
}

fn debug_of_text(head: &str, index: usize, label: &str, s: &str) -> (r: String)
    ensures
        r@ == text_debug(head@, index as int, label@, s@),
{
    let mut out = text::join3(head, text::to_decimal(index as u64).as_str(), label);
    out.append(quote(s).as_str());
    out.append(" }");
    out
}

fn debug_of_number(n: Option<u64>) -> (r: String)
    ensures
        r@ == number_debug(n),
{
    match n {
        Some(n) => text::join3("Some(", text::to_decimal(n).as_str(), ")"),
        None => "None".to_owned(),
    }
}

fn debug_of_opt_text(s: &Option<String>) -> (r: String)
    ensures
        r@ == opt_text_debug(text::opt_string(*s)),
{
    match s {
        Some(s) => text::join3("Some(", quote(s.as_str()).as_str(), ")"),
        None => "None".to_owned(),
    }
}

/// Describes an event of the message stream.
pub fn anthropic_out_debug(ev: &AnthropicOut) -> (r: Json)
    ensures
        r@ == out_debug(ev@),
        r@.wf(),
{
    match ev {
        AnthropicOut::TextDelta { index, text } => Json::typed("text_delta").with(
            "index",
            Json::number(*index as u64),
        ).with("len", Json::number(text::byte_len(text.as_str()) as u64)),
        AnthropicOut::ThinkingSignature { index, .. } => Json::typed("thinking_signature").with(
            "index",
            Json::number(*index as u64),
        ),
        AnthropicOut::ToolUseStart { index, id, name } => Json::typed("tool_use_start").with(
            "index",
            Json::number(*index as u64),
        ).with("name", Json::text(name.as_str())).with("id", Json::text(id.as_str())),
        AnthropicOut::MessageStop => Json::typed("message_stop"),
        AnthropicOut::Error { message } => Json::typed("error").with(
            "message",
            Json::text(message.as_str()),
        ),
        AnthropicOut::ThinkingStart { index } => describe_short(
            debug_of_index("ThinkingStart { index: ", *index).as_str(),
        ),
        AnthropicOut::ThinkingDelta { index, text } => describe_short(
            debug_of_text("ThinkingDelta { index: ", *index, ", text: ", text.as_str()).as_str(),
        ),
        AnthropicOut::ThinkingStop { index } => describe_short(
            debug_of_index("ThinkingStop { index: ", *index).as_str(),
        ),
        AnthropicOut::TextStart { index } => describe_short(
            debug_of_index("TextStart { index: ", *index).as_str(),
        ),
        AnthropicOut::TextStop { index } => describe_short(
            debug_of_index("TextStop { index: ", *index).as_str(),
        ),
        AnthropicOut::ToolUseDelta { index, partial_json } => describe_short(
            debug_of_text(
                "ToolUseDelta { index: ",
                *index,
                ", partial_json: ",
                partial_json.as_str(),
            ).as_str(),
        ),
        AnthropicOut::ToolUseStop { index } => describe_short(
            debug_of_index("ToolUseStop { index: ", *index).as_str(),
        ),
        AnthropicOut::MessageDelta { stop_reason, input_tokens, output_tokens } => {
            let mut out = text::join3(
                "MessageDelta { stop_reason: ",
                debug_of_opt_text(stop_reason).as_str(),
                ", input_tokens: ",
            );
            out.append(debug_of_number(*input_tokens).as_str());
            out.append(", output_tokens: ");
            out.append(debug_of_number(*output_tokens).as_str());
            out.append(" }");
            describe_short(out.as_str())
        },
    }
}

/// What std's `Debug` prints for a string slice.
pub uninterp spec fn debug_text(s: Seq<char>) -> Seq<char>;

/// `format!("{:?}")` of a string slice: std's quoted and escaped form, a
/// function of the text.
#[verifier::external_body]
fn quote(s: &str) -> (r: String)
    ensures
        r@ == debug_text(s@),
{
    format!("{:?}", s)
}

/// The record of an event of the message stream says which event it is: by a
/// name of its own, or by the start of its debug text, which begins with the
/// event's name and index and is cut behind 40 characters. Of a text it holds
/// only how many bytes it has.
pub proof fn a_record_tells_its_event(ev: OutView)
    ensures
        match ev {
            OutView::TextDelta { index, text } => out_debug(ev) == JsonView::Object(
                seq![
                    ("type"@, wire::txt("text_delta"@)),
                    ("index"@, wire::num(index)),
                    ("len"@, wire::num(encode_utf8(text).len() as int)),
                ],
            ),
            OutView::ThinkingSignature { index, signature } => out_debug(ev) == JsonView::Object(
                seq![("type"@, wire::txt("thinking_signature"@)), ("index"@, wire::num(index))],
            ),
            OutView::ToolUseStart { index, id, name } => out_debug(ev) == JsonView::Object(
                seq![
                    ("type"@, wire::txt("tool_use_start"@)),
                    ("index"@, wire::num(index)),
                    ("name"@, wire::txt(name)),
                    ("id"@, wire::txt(id)),
                ],
            ),
            OutView::MessageStop => out_debug(ev) == JsonView::Object(
                seq![("type"@, wire::txt("message_stop"@))],
            ),
            OutView::Error { message } => out_debug(ev) == JsonView::Object(
                seq![("type"@, wire::txt("error"@)), ("message"@, wire::txt(message))],
            ),
            OutView::ThinkingStart { index } => told_by(
                ev,
                "ThinkingStart { index: "@ + text::decimal(index as nat) + " }"@,
            ),
            OutView::ThinkingDelta { index, text } => told_by(
                ev,
                "ThinkingDelta { index: "@ + text::decimal(index as nat) + ", text: "@
                    + debug_text(text) + " }"@,
            ),
            OutView::ThinkingStop { index } => told_by(
                ev,
                "ThinkingStop { index: "@ + text::decimal(index as nat) + " }"@,
            ),
            OutView::TextStart { index } => told_by(
                ev,
                "TextStart { index: "@ + text::decimal(index as nat) + " }"@,
            ),
            OutView::TextStop { index } => told_by(
                ev,
                "TextStop { index: "@ + text::decimal(index as nat) + " }"@,
            ),
            OutView::ToolUseDelta { index, partial_json } => told_by(
                ev,
                "ToolUseDelta { index: "@ + text::decimal(index as nat) + ", partial_json: "@
                    + debug_text(partial_json) + " }"@,
            ),
            OutView::ToolUseStop { index } => told_by(
                ev,
                "ToolUseStop { index: "@ + text::decimal(index as nat) + " }"@,
            ),
            OutView::MessageDelta { stop_reason, input_tokens, output_tokens } => told_by(
                ev,
                "MessageDelta { stop_reason: "@ + (match stop_reason {
                    Some(s) => "Some("@ + debug_text(s) + ")"@,
                    None => "None"@,
                }) + ", input_tokens: "@ + (match input_tokens {
                    Some(n) => "Some("@ + text::decimal(n as nat) + ")"@,
                    None => "None"@,
                }) + ", output_tokens: "@ + (match output_tokens {
                    Some(n) => "Some("@ + text::decimal(n as nat) + ")"@,
                    None => "None"@,
                }) + " }"@,
            ),
        },
{
    reveal_strlit("type");
    reveal_strlit("index");
    reveal_strlit("len");
    reveal_strlit("name");
    reveal_strlit("id");
    reveal_strlit("message");
    assert("type"@[0] == 't' && "name"@[0] == 'n');
    assert("type"@.len() == 4 && "index"@.len() == 5 && "len"@.len() == 3 && "name"@.len() == 4
        && "id"@.len() == 2 && "message"@.len() == 7);
    match ev {
        OutView::TextDelta { index, text } => {
            wire::typed_triple(
                "text_delta"@,
                "index"@,
                wire::num(index),
                "len"@,
                wire::num(encode_utf8(text).len() as int),
            );
        },
        OutView::ThinkingSignature { index, signature } => {
            wire::typed_pair("thinking_signature"@, "index"@, wire::num(index));
        },
        OutView::ToolUseStart { index, id, name } => {
            wire::typed_triple(
                "tool_use_start"@,
                "index"@,
                wire::num(index),
                "name"@,
                wire::txt(name),
            );
            let three = seq![
                ("type"@, wire::txt("tool_use_start"@)),
                ("index"@, wire::num(index)),
                ("name"@, wire::txt(name)),
            ];
            json::with_new_name(three, "id"@, wire::txt(id));
            assert(three.push(("id"@, wire::txt(id))) =~= seq![
                ("type"@, wire::txt("tool_use_start"@)),
                ("index"@, wire::num(index)),
                ("name"@, wire::txt(name)),
                ("id"@, wire::txt(id)),
            ]);
        },
        OutView::MessageStop => {
            json::a_typed_object_has_its_type("message_stop"@);
        },
        OutView::Error { message } => {
            wire::typed_pair("error"@, "message"@, wire::txt(message));
        },
        _ => {
            let told = out_debug(ev);
            assert forall|s: Seq<char>| told == #[trigger] shortened(s) implies told_by(ev, s) by {
                json::a_typed_object_has_its_type(text::head(s, 40));
                text::a_head_begins_its_text(s, 40);
            }
        },
    }
}

/// Whether an event is recorded by this debug text, or by its first 40
/// characters where it is longer.
pub open spec fn told_by(ev: OutView, debug: Seq<char>) -> bool {
    &&& out_debug(ev) matches JsonView::Object(members)
    &&& members.len() == 1
    &&& members[0].0 == "type"@
    &&& members[0].1 matches JsonView::Text(ty)
    &&& ty.is_prefix_of(debug)
    &&& ty.len() == 40 || ty == debug
}

/// Events of the response stream that are told apart by name, by what they are
/// heard as.
pub proof fn events_are_recorded_by_what_they_say(event: ResponseStreamEvent)
    ensures
        event@ is TextDelta ==> event_name(event) == "response.output_text.delta"@,
        event@ is ArgumentsDelta ==> event_name(event)
            == "response.function_call_arguments.delta"@,
        event@ is ItemAdded ==> event_name(event) == "response.output_item.added"@,
        event@ is ItemDone ==> event_name(event) == "response.output_item.done"@,
        event@ is Failed ==> event_name(event) == "response.failed"@,
        event@ is ThinkingDelta || event@ is TextDone || event@ is Other ==> event_name(event)
            == "response.other"@,
        event is ResponseCompleted ==> event_name(event) == "response.completed"@,
        event is ResponseIncomplete ==> event_name(event) == "response.other"@,
{
}

} // verus!
