//! Frames of the server-sent event stream of an Anthropic message.
//!
//! The `event:` line of a frame names the `type` of its JSON payload. Clients
//! filter on that line and drop a frame that is named otherwise.

use vstd::prelude::*;

use crate::json;
use crate::json::{Json, JsonView};
use crate::text;
use crate::translate::stream::{AnthropicOut, OutView};

verus! {

/// The frame of an event.
pub open spec fn sse_frame(event: Seq<char>, payload: JsonView) -> Seq<char> {
    "event: "@ + event + "\ndata: "@ + json::json_text(payload.sorted()) + "\n\n"@
}

/// The event name of a payload: its `type`, or `message` where it has none.
pub open spec fn payload_event(payload: JsonView) -> Seq<char> {
    match payload.text_at("type"@) {
        Some(ty) => ty,
        None => "message"@,
    }
}

/// A message that holds nothing yet.
pub open spec fn blank_message(id: Seq<char>, model: Seq<char>) -> JsonView {
    json::empty_object().with("id"@, json::text_value(id)).with(
        "type"@,
        json::text_value("message"@),
    ).with("role"@, json::text_value("assistant"@)).with(
        "content"@,
        JsonView::List(Seq::empty()),
    ).with("model"@, json::text_value(model)).with("stop_reason"@, JsonView::Null).with(
        "stop_sequence"@,
        JsonView::Null,
    ).with("usage"@, usage_value(Some(0), Some(0)))
}

/// The payload that begins a message.
pub open spec fn message_start_payload(id: Seq<char>, model: Seq<char>) -> JsonView {
    json::typed_object("message_start"@).with("message"@, blank_message(id, model))
}

/// The body of an error of this type.
pub open spec fn error_body(ty: Seq<char>, message: Seq<char>) -> JsonView {
    json::typed_object("error"@).with(
        "error"@,
        json::typed_object(ty).with("message"@, json::text_value(message)),
    )
}

/// The event name of an event of the message stream.
pub open spec fn out_event(ev: OutView) -> Seq<char> {
    match ev {
        OutView::ThinkingStart { .. } => "content_block_start"@,
        OutView::TextStart { .. } => "content_block_start"@,
        OutView::ToolUseStart { .. } => "content_block_start"@,
        OutView::ThinkingDelta { .. } => "content_block_delta"@,
        OutView::ThinkingSignature { .. } => "content_block_delta"@,
        OutView::TextDelta { .. } => "content_block_delta"@,
        OutView::ToolUseDelta { .. } => "content_block_delta"@,
        OutView::ThinkingStop { .. } => "content_block_stop"@,
        OutView::TextStop { .. } => "content_block_stop"@,
        OutView::ToolUseStop { .. } => "content_block_stop"@,
        OutView::MessageDelta { .. } => "message_delta"@,
        OutView::MessageStop => "message_stop"@,
        OutView::Error { .. } => "error"@,
    }
}

/// The payload of an event of a block.
pub open spec fn block_payload(ev: OutView, index: int) -> JsonView {
    json::typed_object(out_event(ev)).with("index"@, json::number_value(index as u64))
}

/// What an event of a block adds to it.
pub open spec fn delta_value(ty: Seq<char>, key: Seq<char>, s: Seq<char>) -> JsonView {
    json::typed_object(ty).with(key, json::text_value(s))
}

/// The usage that a message reports.
pub open spec fn usage_value(input_tokens: Option<u64>, output_tokens: Option<u64>) -> JsonView {
    let input = match input_tokens {
        Some(n) => json::empty_object().with("input_tokens"@, json::number_value(n)),
        None => json::empty_object(),
    };
    match output_tokens {
        Some(n) => input.with("output_tokens"@, json::number_value(n)),
        None => input,
    }
}

/// A text, or null where there is none.
pub open spec fn nullable_text(s: Option<Seq<char>>) -> JsonView {
    match s {
        Some(s) => json::text_value(s),
        None => JsonView::Null,
    }
}

/// The payload of an event of the message stream.
pub open spec fn out_payload(ev: OutView) -> JsonView {
    match ev {
        OutView::ThinkingStart { index } => block_payload(ev, index).with(
            "content_block"@,
            json::typed_object("thinking"@).with("thinking"@, json::text_value(""@)).with(
                "signature"@,
                json::text_value(""@),
            ),
        ),
        OutView::ThinkingDelta { index, text } => block_payload(ev, index).with(
            "delta"@,
            delta_value("thinking_delta"@, "thinking"@, text),
        ),
        OutView::ThinkingSignature { index, signature } => block_payload(ev, index).with(
            "delta"@,
            delta_value("signature_delta"@, "signature"@, signature),
        ),
        OutView::ThinkingStop { index } => block_payload(ev, index),
        OutView::TextStart { index } => block_payload(ev, index).with(
            "content_block"@,
            json::typed_object("text"@).with("text"@, json::text_value(""@)),
        ),
        OutView::TextDelta { index, text } => block_payload(ev, index).with(
            "delta"@,
            delta_value("text_delta"@, "text"@, text),
        ),
        OutView::TextStop { index } => block_payload(ev, index),
        OutView::ToolUseStart { index, id, name } => block_payload(ev, index).with(
            "content_block"@,
            json::typed_object("tool_use"@).with("id"@, json::text_value(id)).with(
                "name"@,
                json::text_value(name),
            ).with("input"@, json::empty_object()),
        ),
        OutView::ToolUseDelta { index, partial_json } => block_payload(ev, index).with(
            "delta"@,
            delta_value("input_json_delta"@, "partial_json"@, partial_json),
        ),
        OutView::ToolUseStop { index } => block_payload(ev, index),
        OutView::MessageDelta { stop_reason, input_tokens, output_tokens } => json::typed_object(
            "message_delta"@,
        ).with(
            "delta"@,
            json::empty_object().with("stop_reason"@, nullable_text(stop_reason)).with(
                "stop_sequence"@,
                JsonView::Null,
            ),
        ).with("usage"@, usage_value(input_tokens, output_tokens)),
        OutView::MessageStop => json::typed_object("message_stop"@),
        OutView::Error { message } => error_body("api_error"@, message),
    }
}

/// The frame of an event of the message stream.
pub open spec fn out_frame(ev: OutView) -> Seq<char> {
    sse_frame(out_event(ev), out_payload(ev))
}

/// Formats one frame. The name is to be the payload's `type`.
pub fn format_sse_event(event_name: &str, payload: &Json) -> (r: String)
    requires
        payload@.wf(),
    ensures
        r@ == sse_frame(event_name@, payload@),
        json::single_line(json::json_text(payload@.sorted())),
{
    let mut out = text::join3("event: ", event_name, "\ndata: ");
    out.append(payload.to_text().as_str());
    out.append("\n\n");
    out
}

/// Formats one frame, named by the payload's `type`.
pub fn format_sse_data(payload: &Json) -> (r: String)
    requires
        payload@.wf(),
    ensures
        r@ == sse_frame(payload_event(payload@), payload@),
        json::single_line(json::json_text(payload@.sorted())),
{
    let event_name = match payload.str_at("type") {
        Some(ty) => ty,
        None => "message",
    };
    format_sse_event(event_name, payload)
}

/// The frame that begins a message.
pub fn message_start(message_id: &str, model: &str) -> (r: String)
    ensures
        r@ == sse_frame("message_start"@, message_start_payload(message_id@, model@)),
{
    let content = Json::list(Vec::new());
    assert(content@->List_0 =~= Seq::empty());
    let message = Json::object().with("id", Json::text(message_id)).with(
        "type",
        Json::text("message"),
    ).with("role", Json::text("assistant")).with("content", content).with(
        "model",
        Json::text(model),
    ).with("stop_reason", Json::Null).with("stop_sequence", Json::Null).with(
        "usage",
        usage(Some(0), Some(0)),
    );
    format_sse_event("message_start", &Json::typed("message_start").with("message", message))
}

/// The frame that keeps a connection alive.
pub fn ping() -> (r: String)
    ensures
        r@ == sse_frame("ping"@, json::typed_object("ping"@)),
{
    format_sse_event("ping", &Json::typed("ping"))
}

/// The body of an error of this type.
pub fn error_value(ty: &str, message: &str) -> (r: Json)
    ensures
        r@ == error_body(ty@, message@),
        r@.wf(),
{
    Json::typed("error").with("error", Json::typed(ty).with("message", Json::text(message)))
}

/// The frame of an error that ends the stream.
pub fn error_event(message: String) -> (r: String)
    ensures
        r@ == sse_frame("error"@, error_body("api_error"@, message@)),
{
    format_sse_event("error", &error_value("api_error", message.as_str()))
}

fn block(event: &str, index: usize) -> (r: Json)
    ensures
        r@ == json::typed_object(event@).with("index"@, json::number_value(index as u64)),
        r@.wf(),
{
    Json::typed(event).with("index", Json::number(index as u64))
}

fn delta(ty: &str, key: &str, s: &str) -> (r: Json)
    ensures
        r@ == delta_value(ty@, key@, s@),
        r@.wf(),
{
    Json::typed(ty).with(key, Json::text(s))
}

/// The usage that a message reports.
pub fn usage(input_tokens: Option<u64>, output_tokens: Option<u64>) -> (r: Json)
    ensures
        r@ == usage_value(input_tokens, output_tokens),
        r@.wf(),
{
    let mut out = Json::object();
    if let Some(n) = input_tokens {
        out = out.with("input_tokens", Json::number(n));
    }
    if let Some(n) = output_tokens {
        out = out.with("output_tokens", Json::number(n));
    }
    out
}

/// A text, or null where there is none.
pub fn text_or_null(s: &Option<String>) -> (r: Json)
    ensures
        r@ == nullable_text(text::opt_string(*s)),
        r@.wf(),
{
    match s {
        Some(s) => Json::text(s.as_str()),
        None => Json::Null,
    }
}

/// The payload of an event of the message stream.
fn payload_of(ev: &AnthropicOut) -> (r: Json)
    ensures
        r@ == out_payload(ev@),
        r@.wf(),
{
    match ev {
        AnthropicOut::ThinkingStart { index } => block("content_block_start", *index).with(
            "content_block",
            Json::typed("thinking").with("thinking", Json::text("")).with(
                "signature",
                Json::text(""),
            ),
        ),
        AnthropicOut::ThinkingDelta { index, text } => block("content_block_delta", *index).with(
            "delta",
            delta("thinking_delta", "thinking", text.as_str()),
        ),
        AnthropicOut::ThinkingSignature { index, signature } => block(
            "content_block_delta",
            *index,
        ).with("delta", delta("signature_delta", "signature", signature.as_str())),
        AnthropicOut::ThinkingStop { index } => block("content_block_stop", *index),
        AnthropicOut::TextStart { index } => block("content_block_start", *index).with(
            "content_block",
            Json::typed("text").with("text", Json::text("")),
        ),
        AnthropicOut::TextDelta { index, text } => block("content_block_delta", *index).with(
            "delta",
            delta("text_delta", "text", text.as_str()),
        ),
        AnthropicOut::TextStop { index } => block("content_block_stop", *index),
        AnthropicOut::ToolUseStart { index, id, name } => block("content_block_start", *index).with(
            "content_block",
            Json::typed("tool_use").with("id", Json::text(id.as_str())).with(
                "name",
                Json::text(name.as_str()),
            ).with("input", Json::object()),
        ),
        AnthropicOut::ToolUseDelta { index, partial_json } => block(
            "content_block_delta",
            *index,
        ).with("delta", delta("input_json_delta", "partial_json", partial_json.as_str())),
        AnthropicOut::ToolUseStop { index } => block("content_block_stop", *index),
        AnthropicOut::MessageDelta { stop_reason, input_tokens, output_tokens } => Json::typed(
            "message_delta",
        ).with(
            "delta",
            Json::object().with("stop_reason", text_or_null(stop_reason)).with(
                "stop_sequence",
                Json::Null,
            ),
        ).with("usage", usage(*input_tokens, *output_tokens)),
        AnthropicOut::MessageStop => Json::typed("message_stop"),
        AnthropicOut::Error { message } => error_value("api_error", message.as_str()),
    }
}

/// The event name of an event of the message stream.
fn event_of(ev: &AnthropicOut) -> (r: &'static str)
    ensures
        r@ == out_event(ev@),
{
    match ev {
        AnthropicOut::ThinkingStart { .. } => "content_block_start",
        AnthropicOut::TextStart { .. } => "content_block_start",
        AnthropicOut::ToolUseStart { .. } => "content_block_start",
        AnthropicOut::ThinkingDelta { .. } => "content_block_delta",
        AnthropicOut::ThinkingSignature { .. } => "content_block_delta",
        AnthropicOut::TextDelta { .. } => "content_block_delta",
        AnthropicOut::ToolUseDelta { .. } => "content_block_delta",
        AnthropicOut::ThinkingStop { .. } => "content_block_stop",
        AnthropicOut::TextStop { .. } => "content_block_stop",
        AnthropicOut::ToolUseStop { .. } => "content_block_stop",
        AnthropicOut::MessageDelta { .. } => "message_delta",
        AnthropicOut::MessageStop => "message_stop",
        AnthropicOut::Error { .. } => "error",
    }
}

/// The frames of an event of the message stream: always one.
pub fn encode_out(ev: &AnthropicOut) -> (r: Vec<String>)
    ensures
        r@.len() == 1,
        r@[0]@ == out_frame(ev@),
        json::single_line(json::json_text(out_payload(ev@).sorted())),
{
    let mut frames: Vec<String> = Vec::new();
    frames.push(format_sse_event(event_of(ev), &payload_of(ev)));
    frames
}

proof fn keeps_type(v: JsonView, key: Seq<char>, value: JsonView)
    requires
        v is Object,
        key.len() != 4,
    ensures
        v.with(key, value) is Object,
        v.with(key, value).text_at("type"@) == v.text_at("type"@),
{
    reveal_strlit("type");
    json::get_after_with(v, key, value, "type"@);
}

proof fn typed_object_has_type(ty: Seq<char>)
    ensures
        json::typed_object(ty) is Object,
        json::typed_object(ty).text_at("type"@) == Some(ty),
{
    json::get_after_with(json::empty_object(), "type"@, json::text_value(ty), "type"@);
}

/// A frame is named by the `type` of its payload, on one line, and never by the
/// generic name `message`.
pub proof fn frames_are_named_by_their_type(ev: OutView)
    ensures
        payload_event(out_payload(ev)) == out_event(ev),
        out_event(ev) != "message"@,
        json::single_line(out_event(ev)),
{
    reveal_strlit("index");
    reveal_strlit("delta");
    reveal_strlit("usage");
    reveal_strlit("error");
    reveal_strlit("content_block");
    reveal_strlit("message");
    reveal_strlit("content_block_start");
    reveal_strlit("content_block_delta");
    reveal_strlit("content_block_stop");
    reveal_strlit("message_delta");
    reveal_strlit("message_stop");
    let ty = out_event(ev);
    assert(ty.len() != "message"@.len());
    let base = json::typed_object(ty);
    typed_object_has_type(ty);
    assert forall|index: int| (#[trigger] block_payload(ev, index)) is Object && block_payload(
        ev,
        index,
    ).text_at("type"@) == Some(ty) by {
        keeps_type(base, "index"@, json::number_value(index as u64));
    }
    match ev {
        OutView::MessageDelta { stop_reason, input_tokens, output_tokens } => {
            let d = json::empty_object().with("stop_reason"@, nullable_text(stop_reason)).with(
                "stop_sequence"@,
                JsonView::Null,
            );
            keeps_type(base, "delta"@, d);
            keeps_type(base.with("delta"@, d), "usage"@, usage_value(input_tokens, output_tokens));
        },
        OutView::Error { message } => {
            keeps_type(
                base,
                "error"@,
                json::typed_object("api_error"@).with("message"@, json::text_value(message)),
            );
        },
        OutView::ThinkingStart { index } => {
            keeps_type(
                block_payload(ev, index),
                "content_block"@,
                json::typed_object("thinking"@).with("thinking"@, json::text_value(""@)).with(
                    "signature"@,
                    json::text_value(""@),
                ),
            );
        },
        OutView::TextStart { index } => {
            keeps_type(
                block_payload(ev, index),
                "content_block"@,
                json::typed_object("text"@).with("text"@, json::text_value(""@)),
            );
        },
        OutView::ToolUseStart { index, id, name } => {
            keeps_type(
                block_payload(ev, index),
                "content_block"@,
                json::typed_object("tool_use"@).with("id"@, json::text_value(id)).with(
                    "name"@,
                    json::text_value(name),
                ).with("input"@, json::empty_object()),
            );
        },
        OutView::ThinkingDelta { index, text } => {
            keeps_type(
                block_payload(ev, index),
                "delta"@,
                delta_value("thinking_delta"@, "thinking"@, text),
            );
        },
        OutView::ThinkingSignature { index, signature } => {
            keeps_type(
                block_payload(ev, index),
                "delta"@,
                delta_value("signature_delta"@, "signature"@, signature),
            );
        },
        OutView::TextDelta { index, text } => {
            keeps_type(
                block_payload(ev, index),
                "delta"@,
                delta_value("text_delta"@, "text"@, text),
            );
        },
        OutView::ToolUseDelta { index, partial_json } => {
            keeps_type(
                block_payload(ev, index),
                "delta"@,
                delta_value("input_json_delta"@, "partial_json"@, partial_json),
            );
        },
        _ => {},
    }
}

/// The frame that begins a message is named by the `type` of its payload.
pub proof fn message_start_is_named_by_its_type(id: Seq<char>, model: Seq<char>)
    ensures
        payload_event(message_start_payload(id, model)) == "message_start"@,
{
    reveal_strlit("message");
    typed_object_has_type("message_start"@);
    keeps_type(json::typed_object("message_start"@), "message"@, blank_message(id, model));
}

/// A frame holds no blank line but the one that ends it.
pub proof fn a_frame_is_one_event(event: Seq<char>, payload: JsonView, i: int)
    requires
        json::single_line(event),
        json::single_line(json::json_text(payload.sorted())),
        0 <= i < sse_frame(event, payload).len() - 1,
        sse_frame(event, payload)[i] == '\n',
        sse_frame(event, payload)[i + 1] == '\n',
    ensures
        i == sse_frame(event, payload).len() - 2,
{
    reveal_strlit("event: ");
    reveal_strlit("\ndata: ");
    reveal_strlit("\n\n");
    let data = json::json_text(payload.sorted());
    let f = sse_frame(event, payload);
    let p = 7 + event.len();
    assert forall|j: int| 0 <= j < f.len() && #[trigger] f[j] == '\n' implies j == p || j
        == f.len() - 2 || j == f.len() - 1 by {
        if 7 <= j < p {
            assert(f[j] == event[j - 7]);
        } else if p + 7 <= j < f.len() - 2 {
            assert(f[j] == data[j - p - 7]);
        }
    }
}

} // verus!
