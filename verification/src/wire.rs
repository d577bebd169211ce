//! What a client reads off the frames: the events of a message, whole and in
//! order.

use vstd::prelude::*;

use crate::json;
use crate::json::{JsonNumber, JsonView};
use crate::json_order;
use crate::responses::EventView;
use crate::sse;
use crate::stream_session;
use crate::stream_session::UpstreamView;
use crate::text;
use crate::translate::lifecycle;
use crate::translate::lifecycle::BlockKind;
use crate::translate::stream::OutView;

verus! {

/// The members of an object that are named here differ in name from each other.
proof fn names_differ()
    ensures
        "type"@.len() == 4,
        "index"@.len() == 5,
        "delta"@.len() == 5,
        "index"@ != "delta"@,
        "usage"@.len() == 5,
        "delta"@ != "usage"@,
        "error"@.len() == 5,
        "content_block"@.len() == 13,
        "message"@.len() == 7,
        "text"@.len() == 4,
        "type"@ != "text"@,
        "thinking"@.len() == 8,
        "signature"@.len() == 9,
        "partial_json"@.len() == 12,
        "id"@.len() == 2,
        "name"@.len() == 4,
        "name"@ != "type"@,
        "input"@.len() == 5,
        "stop_reason"@.len() == 11,
        "stop_sequence"@.len() == 13,
        "input_tokens"@.len() == 12,
        "output_tokens"@.len() == 13,
        "role"@.len() == 4,
        "role"@ != "type"@,
        "content"@.len() == 7,
        "model"@.len() == 5,
        "model"@ != "usage"@,
        "message"@ != "content"@,
{
    reveal_strlit("type");
    reveal_strlit("index");
    reveal_strlit("delta");
    reveal_strlit("usage");
    reveal_strlit("error");
    reveal_strlit("content_block");
    reveal_strlit("message");
    reveal_strlit("text");
    reveal_strlit("thinking");
    reveal_strlit("signature");
    reveal_strlit("partial_json");
    reveal_strlit("id");
    reveal_strlit("name");
    reveal_strlit("input");
    reveal_strlit("stop_reason");
    reveal_strlit("stop_sequence");
    reveal_strlit("input_tokens");
    reveal_strlit("output_tokens");
    reveal_strlit("role");
    reveal_strlit("content");
    reveal_strlit("model");
    assert("index"@[0] == 'i' && "delta"@[0] == 'd' && "usage"@[0] == 'u' && "model"@[0] == 'm');
    assert("type"@[1] == 'y' && "text"@[1] == 'e' && "name"@[1] == 'a' && "role"@[1] == 'o');
    assert("message"@[0] == 'm' && "content"@[0] == 'c');
}

/// Setting a member of a new name adds it behind the others.
proof fn one_more(list: Seq<(Seq<char>, JsonView)>, key: Seq<char>, value: JsonView)
    requires
        forall|i: int| 0 <= i < list.len() ==> (#[trigger] list[i]).0 != key,
    ensures
        JsonView::Object(list).with(key, value) == JsonView::Object(list.push((key, value))),
{
    json::with_new_name(list, key, value);
}

/// The payload of a block's event: its name, the block's index, and one more
/// member, if any.
proof fn block_event(name: Seq<char>, index: int, key: Seq<char>, value: JsonView)
    requires
        key == "delta"@ || key == "content_block"@,
    ensures
        json::typed_object(name).with("index"@, json::number_value(index as u64))
            == JsonView::Object(
            seq![
                ("type"@, JsonView::Text(name)),
                ("index"@, JsonView::Number(JsonNumber::Unsigned(index as u64))),
            ],
        ),
        json::typed_object(name).with("index"@, json::number_value(index as u64)).with(key, value)
            == JsonView::Object(
            seq![
                ("type"@, JsonView::Text(name)),
                ("index"@, JsonView::Number(JsonNumber::Unsigned(index as u64))),
                (key, value),
            ],
        ),
{
    names_differ();
    json::a_typed_object_has_its_type(name);
    let a = seq![("type"@, JsonView::Text(name))];
    let n = JsonView::Number(JsonNumber::Unsigned(index as u64));
    one_more(a, "index"@, n);
    let b = seq![("type"@, JsonView::Text(name)), ("index"@, n)];
    assert(a.push(("index"@, n)) =~= b);
    one_more(b, key, value);
    assert(b.push((key, value)) =~= seq![
        ("type"@, JsonView::Text(name)),
        ("index"@, n),
        (key, value),
    ]);
}

/// An object of a type with one more member.
pub proof fn typed_pair(ty: Seq<char>, key: Seq<char>, value: JsonView)
    requires
        key != "type"@,
    ensures
        json::typed_object(ty).with(key, value) == JsonView::Object(
            seq![("type"@, JsonView::Text(ty)), (key, value)],
        ),
{
    json::a_typed_object_has_its_type(ty);
    let a = seq![("type"@, JsonView::Text(ty))];
    one_more(a, key, value);
    assert(a.push((key, value)) =~= seq![("type"@, JsonView::Text(ty)), (key, value)]);
}

/// An object of a type with two more members.
pub proof fn typed_triple(ty: Seq<char>, k1: Seq<char>, v1: JsonView, k2: Seq<char>, v2: JsonView)
    requires
        k1 != "type"@,
        k2 != "type"@,
        k1 != k2,
    ensures
        json::typed_object(ty).with(k1, v1).with(k2, v2) == JsonView::Object(
            seq![("type"@, JsonView::Text(ty)), (k1, v1), (k2, v2)],
        ),
{
    typed_pair(ty, k1, v1);
    let b = seq![("type"@, JsonView::Text(ty)), (k1, v1)];
    one_more(b, k2, v2);
    assert(b.push((k2, v2)) =~= seq![("type"@, JsonView::Text(ty)), (k1, v1), (k2, v2)]);
}

/// The block of a tool call, member by member.
pub proof fn a_tool_block(id: Seq<char>, name: Seq<char>, input: JsonView)
    ensures
        json::typed_object("tool_use"@).with("id"@, json::text_value(id)).with(
            "name"@,
            json::text_value(name),
        ).with("input"@, input) == JsonView::Object(
            seq![
                ("type"@, txt("tool_use"@)),
                ("id"@, txt(id)),
                ("name"@, txt(name)),
                ("input"@, input),
            ],
        ),
{
    names_differ();
    typed_triple("tool_use"@, "id"@, txt(id), "name"@, txt(name));
    let three = seq![("type"@, txt("tool_use"@)), ("id"@, txt(id)), ("name"@, txt(name))];
    one_more(three, "input"@, input);
    assert(three.push(("input"@, input)) =~= seq![
        ("type"@, txt("tool_use"@)),
        ("id"@, txt(id)),
        ("name"@, txt(name)),
        ("input"@, input),
    ]);
}

/// The usage that was reported, where anything was.
pub open spec fn usage_members(input: Option<u64>, output: Option<u64>) -> Seq<
    (Seq<char>, JsonView),
> {
    (match input {
        Some(n) => seq![("input_tokens"@, JsonView::Number(JsonNumber::Unsigned(n)))],
        None => Seq::empty(),
    }) + (match output {
        Some(n) => seq![("output_tokens"@, JsonView::Number(JsonNumber::Unsigned(n)))],
        None => Seq::empty(),
    })
}

/// A usage holds the tokens that were reported, each under its name, and
/// nothing else.
pub proof fn a_usage_holds_its_tokens(input: Option<u64>, output: Option<u64>)
    ensures
        sse::usage_value(input, output) == JsonView::Object(usage_members(input, output)),
{
    names_differ();
    let start = Seq::<(Seq<char>, JsonView)>::empty();
    let a = match input {
        Some(n) => seq![("input_tokens"@, JsonView::Number(JsonNumber::Unsigned(n)))],
        None => start,
    };
    if let Some(n) = input {
        one_more(start, "input_tokens"@, json::number_value(n));
        assert(start.push(("input_tokens"@, json::number_value(n))) =~= a);
    }
    if let Some(n) = output {
        one_more(a, "output_tokens"@, json::number_value(n));
        assert(a.push(("output_tokens"@, json::number_value(n))) =~= usage_members(input, output));
    } else {
        assert(a =~= usage_members(input, output));
    }
}

/// A JSON text.
pub open spec fn txt(s: Seq<char>) -> JsonView {
    JsonView::Text(s)
}

/// A JSON number.
pub open spec fn num(n: int) -> JsonView {
    JsonView::Number(JsonNumber::Unsigned(n as u64))
}

/// A frame that opens a block.
pub open spec fn opening(index: int, block: Seq<(Seq<char>, JsonView)>) -> (
    Seq<char>,
    Seq<(Seq<char>, JsonView)>,
) {
    (
        "content_block_start"@,
        seq![
            ("type"@, txt("content_block_start"@)),
            ("index"@, num(index)),
            ("content_block"@, JsonView::Object(block)),
        ],
    )
}

/// A frame that adds to a block.
pub open spec fn adding(index: int, ty: Seq<char>, key: Seq<char>, s: Seq<char>) -> (
    Seq<char>,
    Seq<(Seq<char>, JsonView)>,
) {
    (
        "content_block_delta"@,
        seq![
            ("type"@, txt("content_block_delta"@)),
            ("index"@, num(index)),
            ("delta"@, JsonView::Object(seq![("type"@, txt(ty)), (key, txt(s))])),
        ],
    )
}

/// A frame that closes a block.
pub open spec fn closing(index: int) -> (Seq<char>, Seq<(Seq<char>, JsonView)>) {
    (
        "content_block_stop"@,
        seq![("type"@, txt("content_block_stop"@)), ("index"@, num(index))],
    )
}

/// The event of a frame and the members of its payload, written out.
pub open spec fn written_out(ev: OutView) -> (Seq<char>, Seq<(Seq<char>, JsonView)>) {
    match ev {
        OutView::ThinkingStart { index } => opening(
            index,
            seq![("type"@, txt("thinking"@)), ("thinking"@, txt(""@)), ("signature"@, txt(""@))],
        ),
        OutView::ThinkingDelta { index, text } => adding(
            index,
            "thinking_delta"@,
            "thinking"@,
            text,
        ),
        OutView::ThinkingSignature { index, signature } => adding(
            index,
            "signature_delta"@,
            "signature"@,
            signature,
        ),
        OutView::ThinkingStop { index } => closing(index),
        OutView::TextStart { index } => opening(
            index,
            seq![("type"@, txt("text"@)), ("text"@, txt(""@))],
        ),
        OutView::TextDelta { index, text } => adding(index, "text_delta"@, "text"@, text),
        OutView::TextStop { index } => closing(index),
        OutView::ToolUseStart { index, id, name } => opening(
            index,
            seq![
                ("type"@, txt("tool_use"@)),
                ("id"@, txt(id)),
                ("name"@, txt(name)),
                ("input"@, JsonView::Object(Seq::empty())),
            ],
        ),
        OutView::ToolUseDelta { index, partial_json } => adding(
            index,
            "input_json_delta"@,
            "partial_json"@,
            partial_json,
        ),
        OutView::ToolUseStop { index } => closing(index),
        OutView::MessageDelta { stop_reason, input_tokens, output_tokens } => (
            "message_delta"@,
            seq![
                ("type"@, txt("message_delta"@)),
                (
                    "delta"@,
                    JsonView::Object(
                        seq![
                            (
                                "stop_reason"@,
                                match stop_reason {
                                    Some(s) => txt(s),
                                    None => JsonView::Null,
                                },
                            ),
                            ("stop_sequence"@, JsonView::Null),
                        ],
                    ),
                ),
                ("usage"@, JsonView::Object(usage_members(input_tokens, output_tokens))),
            ],
        ),
        OutView::MessageStop => ("message_stop"@, seq![("type"@, txt("message_stop"@))]),
        OutView::Error { message } => (
            "error"@,
            seq![
                ("type"@, txt("error"@)),
                (
                    "error"@,
                    JsonView::Object(seq![("type"@, txt("api_error"@)), ("message"@, txt(message))]),
                ),
            ],
        ),
    }
}

/// The frame of an event is its name on a line of its own, the JSON text of its
/// payload on the next, and a blank line; the payload has the members that the
/// protocol asks for, and no others.
pub proof fn a_frame_is_its_event(ev: OutView)
    ensures
        sse::out_payload(ev) == JsonView::Object(written_out(ev).1),
        sse::out_frame(ev) == "event: "@ + written_out(ev).0 + "\ndata: "@ + json::json_text(
            JsonView::Object(written_out(ev).1).sorted(),
        ) + "\n\n"@,
{
    names_differ();
    match ev {
        OutView::ThinkingStart { index } => {
            let block = seq![
                ("type"@, txt("thinking"@)),
                ("thinking"@, txt(""@)),
                ("signature"@, txt(""@)),
            ];
            typed_triple("thinking"@, "thinking"@, txt(""@), "signature"@, txt(""@));
            block_event("content_block_start"@, index, "content_block"@, JsonView::Object(block));
        },
        OutView::ThinkingDelta { index, text } => {
            typed_pair("thinking_delta"@, "thinking"@, txt(text));
            block_event(
                "content_block_delta"@,
                index,
                "delta"@,
                JsonView::Object(seq![("type"@, txt("thinking_delta"@)), ("thinking"@, txt(text))]),
            );
        },
        OutView::ThinkingSignature { index, signature } => {
            typed_pair("signature_delta"@, "signature"@, txt(signature));
            block_event(
                "content_block_delta"@,
                index,
                "delta"@,
                JsonView::Object(
                    seq![("type"@, txt("signature_delta"@)), ("signature"@, txt(signature))],
                ),
            );
        },
        OutView::TextStart { index } => {
            typed_pair("text"@, "text"@, txt(""@));
            block_event(
                "content_block_start"@,
                index,
                "content_block"@,
                JsonView::Object(seq![("type"@, txt("text"@)), ("text"@, txt(""@))]),
            );
        },
        OutView::TextDelta { index, text } => {
            typed_pair("text_delta"@, "text"@, txt(text));
            block_event(
                "content_block_delta"@,
                index,
                "delta"@,
                JsonView::Object(seq![("type"@, txt("text_delta"@)), ("text"@, txt(text))]),
            );
        },
        OutView::ToolUseStart { index, id, name } => {
            typed_triple("tool_use"@, "id"@, txt(id), "name"@, txt(name));
            let three = seq![("type"@, txt("tool_use"@)), ("id"@, txt(id)), ("name"@, txt(name))];
            let block = seq![
                ("type"@, txt("tool_use"@)),
                ("id"@, txt(id)),
                ("name"@, txt(name)),
                ("input"@, JsonView::Object(Seq::empty())),
            ];
            one_more(three, "input"@, JsonView::Object(Seq::empty()));
            assert(three.push(("input"@, JsonView::Object(Seq::empty()))) =~= block);
            block_event("content_block_start"@, index, "content_block"@, JsonView::Object(block));
        },
        OutView::ToolUseDelta { index, partial_json } => {
            typed_pair("input_json_delta"@, "partial_json"@, txt(partial_json));
            block_event(
                "content_block_delta"@,
                index,
                "delta"@,
                JsonView::Object(
                    seq![("type"@, txt("input_json_delta"@)), ("partial_json"@, txt(partial_json))],
                ),
            );
        },
        OutView::ThinkingStop { index } => {
            block_event("content_block_stop"@, index, "delta"@, JsonView::Null);
        },
        OutView::TextStop { index } => {
            block_event("content_block_stop"@, index, "delta"@, JsonView::Null);
        },
        OutView::ToolUseStop { index } => {
            block_event("content_block_stop"@, index, "delta"@, JsonView::Null);
        },
        OutView::MessageDelta { stop_reason, input_tokens, output_tokens } => {
            let reason = match stop_reason {
                Some(s) => txt(s),
                None => JsonView::Null,
            };
            let none = Seq::<(Seq<char>, JsonView)>::empty();
            let first = seq![("stop_reason"@, reason)];
            let both = seq![("stop_reason"@, reason), ("stop_sequence"@, JsonView::Null)];
            one_more(none, "stop_reason"@, reason);
            assert(none.push(("stop_reason"@, reason)) =~= first);
            one_more(first, "stop_sequence"@, JsonView::Null);
            assert(first.push(("stop_sequence"@, JsonView::Null)) =~= both);
            a_usage_holds_its_tokens(input_tokens, output_tokens);
            let d = json::empty_object().with(
                "stop_reason"@,
                sse::nullable_text(stop_reason),
            ).with("stop_sequence"@, JsonView::Null);
            assert(d == JsonView::Object(both));
            typed_triple(
                "message_delta"@,
                "delta"@,
                JsonView::Object(both),
                "usage"@,
                JsonView::Object(usage_members(input_tokens, output_tokens)),
            );
            assert(written_out(ev).1[1].1->Object_0 =~= both);
            assert(written_out(ev).1 =~= seq![
                ("type"@, txt("message_delta"@)),
                ("delta"@, JsonView::Object(both)),
                ("usage"@, JsonView::Object(usage_members(input_tokens, output_tokens))),
            ]);
        },
        OutView::MessageStop => {
            json::a_typed_object_has_its_type("message_stop"@);
        },
        OutView::Error { message } => {
            typed_pair("api_error"@, "message"@, txt(message));
            typed_pair(
                "error"@,
                "error"@,
                JsonView::Object(seq![("type"@, txt("api_error"@)), ("message"@, txt(message))]),
            );
        },
    }
}

pub proof fn found(list: Seq<(Seq<char>, JsonView)>, key: Seq<char>, at: int)
    requires
        0 <= at < list.len(),
        list[at].0 == key,
        forall|i: int| 0 <= i < at ==> (#[trigger] list[i]).0 != key,
    ensures
        JsonView::Object(list).get(key) == Some(list[at].1),
{
    json::member_position_is(list, key, at);
}

/// A payload can be printed.
proof fn payloads_are_wf(ev: OutView)
    ensures
        JsonView::Object(written_out(ev).1).wf(),
{
    names_differ();
    let list = written_out(ev).1;
    assert(json::distinct_names(list));
    assert forall|i: int| 0 <= i < list.len() implies (#[trigger] list[i]).1.wf() by {
        if let JsonView::Object(inner) = list[i].1 {
            assert(json::distinct_names(inner));
            assert forall|j: int| 0 <= j < inner.len() implies (#[trigger] inner[j]).1.wf() by {}
        }
    }
}

/// What a client reads of one kind of delta off a payload.
pub open spec fn delta_read(payload: JsonView, ty: Seq<char>, key: Seq<char>) -> Seq<char> {
    if payload.text_at("type"@) == Some("content_block_delta"@) {
        match payload.get("delta"@) {
            Some(d) => if d.text_at("type"@) == Some(ty) {
                match d.text_at(key) {
                    Some(s) => s,
                    None => Seq::empty(),
                }
            } else {
                Seq::empty()
            },
            None => Seq::empty(),
        }
    } else {
        Seq::empty()
    }
}

/// What a client reads off a payload: text, thinking or tool input.
pub open spec fn read(payload: JsonView, kind: BlockKind) -> Seq<char> {
    match kind {
        BlockKind::Text => delta_read(payload, "text_delta"@, "text"@),
        BlockKind::Thinking => delta_read(payload, "thinking_delta"@, "thinking"@),
        BlockKind::Tool => delta_read(payload, "input_json_delta"@, "partial_json"@),
    }
}

/// What a client reads off payloads together.
pub open spec fn read_all(payloads: Seq<JsonView>, kind: BlockKind) -> Seq<char>
    decreases payloads.len(),
{
    if payloads.len() == 0 {
        Seq::empty()
    } else {
        read_all(payloads.drop_last(), kind) + read(payloads.last(), kind)
    }
}

/// The payload that the frame of an event prints.
pub open spec fn printed(ev: OutView) -> JsonView {
    sse::out_payload(ev).sorted()
}

/// The block that an event is about.
pub open spec fn block_of(ev: OutView) -> Option<int> {
    match ev {
        OutView::ThinkingStart { index } => Some(index),
        OutView::ThinkingDelta { index, .. } => Some(index),
        OutView::ThinkingSignature { index, .. } => Some(index),
        OutView::ThinkingStop { index } => Some(index),
        OutView::TextStart { index } => Some(index),
        OutView::TextDelta { index, .. } => Some(index),
        OutView::TextStop { index } => Some(index),
        OutView::ToolUseStart { index, .. } => Some(index),
        OutView::ToolUseDelta { index, .. } => Some(index),
        OutView::ToolUseStop { index } => Some(index),
        _ => None,
    }
}

proof fn types_differ()
    ensures
        "text_delta"@.len() == 10,
        "thinking_delta"@.len() == 14,
        "signature_delta"@.len() == 15,
        "input_json_delta"@.len() == 16,
        "content_block_start"@.len() == 19,
        "content_block_delta"@.len() == 19,
        "content_block_stop"@.len() == 18,
        "content_block_start"@ != "content_block_delta"@,
        "message_delta"@.len() == 13,
        "message_stop"@.len() == 12,
{
    reveal_strlit("text_delta");
    reveal_strlit("thinking_delta");
    reveal_strlit("signature_delta");
    reveal_strlit("input_json_delta");
    reveal_strlit("content_block_start");
    reveal_strlit("content_block_delta");
    reveal_strlit("content_block_stop");
    reveal_strlit("message_delta");
    reveal_strlit("message_stop");
    assert("content_block_start"@[14] == 's' && "content_block_delta"@[14] == 'd');
}

proof fn a_delta_is_read(ev: OutView, index: int, ty: Seq<char>, key: Seq<char>, s: Seq<char>)
    requires
        written_out(ev) == adding(index, ty, key, s),
        key != "type"@,
    ensures
        printed(ev).text_at("type"@) == Some("content_block_delta"@),
        printed(ev).get("delta"@) is Some,
        printed(ev).get("delta"@)->0.text_at("type"@) == Some(ty),
        printed(ev).get("delta"@)->0.text_at(key) == Some(s),
{
    names_differ();
    a_frame_is_its_event(ev);
    payloads_are_wf(ev);
    let list = written_out(ev).1;
    let v = JsonView::Object(list);
    let inner = seq![("type"@, txt(ty)), (key, txt(s))];
    let d = JsonView::Object(inner);
    found(list, "type"@, 0);
    found(list, "delta"@, 2);
    found(inner, "type"@, 0);
    found(inner, key, 1);
    json_order::sorting_keeps_texts(v, "type"@);
    json_order::sorting_keeps_the_value(v, "delta"@);
    json::get_is_a_member(v, "delta"@);
    json_order::sorting_keeps_texts(d, "type"@);
    json_order::sorting_keeps_texts(d, key);
}

/// What a client reads off the frame of an event is exactly what the event
/// says: the text of a text delta, the thinking, the signature or the tool
/// input, at the block of the event.
pub proof fn a_client_reads_what_an_event_says(ev: OutView, kind: BlockKind)
    ensures
        read(printed(ev), kind) == lifecycle::said(ev, kind),
        ev matches OutView::ThinkingSignature { signature, .. } ==> delta_read(
            printed(ev),
            "signature_delta"@,
            "signature"@,
        ) == signature,
        block_of(ev) matches Some(index) ==> printed(ev).get("index"@) == Some(
            JsonView::Number(JsonNumber::Unsigned(index as u64)),
        ),
        printed(ev).text_at("type"@) == Some(written_out(ev).0),
{
    names_differ();
    types_differ();
    a_frame_is_its_event(ev);
    payloads_are_wf(ev);
    let list = written_out(ev).1;
    let v = JsonView::Object(list);
    found(list, "type"@, 0);
    json_order::sorting_keeps_texts(v, "type"@);
    if let Some(index) = block_of(ev) {
        found(list, "index"@, 1);
        json_order::sorting_keeps_the_value(v, "index"@);
        json::get_is_a_member(v, "index"@);
        json_order::sorting_keeps_the_value(num(index), "index"@);
    }
    match ev {
        OutView::TextDelta { index, text } => a_delta_is_read(
            ev,
            index,
            "text_delta"@,
            "text"@,
            text,
        ),
        OutView::ThinkingDelta { index, text } => a_delta_is_read(
            ev,
            index,
            "thinking_delta"@,
            "thinking"@,
            text,
        ),
        OutView::ThinkingSignature { index, signature } => a_delta_is_read(
            ev,
            index,
            "signature_delta"@,
            "signature"@,
            signature,
        ),
        OutView::ToolUseDelta { index, partial_json } => a_delta_is_read(
            ev,
            index,
            "input_json_delta"@,
            "partial_json"@,
            partial_json,
        ),
        _ => {},
    }
}

proof fn reading_events(outs: Seq<OutView>, kind: BlockKind)
    ensures
        read_all(outs.map_values(|o: OutView| printed(o)), kind) == lifecycle::said_in(outs, kind),
    decreases outs.len(),
{
    let payloads = outs.map_values(|o: OutView| printed(o));
    if outs.len() > 0 {
        reading_events(outs.drop_last(), kind);
        assert(payloads.drop_last() =~= outs.drop_last().map_values(|o: OutView| printed(o)));
        a_client_reads_what_an_event_says(outs.last(), kind);
    }
}

/// The frames that print these payloads.
pub open spec fn frames_of(outs: Seq<OutView>) -> Seq<Seq<char>> {
    Seq::new(
        outs.len(),
        |i: int|
            "event: "@ + written_out(outs[i]).0 + "\ndata: "@ + json::json_text(printed(outs[i]))
                + "\n\n"@,
    )
}

/// A client of a response that does not fail gets the text and the thinking of
/// the response: nothing is lost, added or reordered between the events of the
/// upstream and the payloads of the frames.
pub proof fn a_client_reads_the_response(events: Seq<EventView>, kind: BlockKind)
    requires
        forall|i: int| 0 <= i < events.len() ==> !(#[trigger] events[i] is Failed),
        !(kind is Tool),
    ensures
        ({
            let sent = stream_session::answered(
                stream_session::event_inputs(events).push(UpstreamView::Closed),
            ).1;
            let outs = lifecycle::message_of(events);
            &&& sent.map_values(|p: stream_session::PieceView| p.frame) == frames_of(outs)
            &&& read_all(outs.map_values(|o: OutView| printed(o)), kind) == lifecycle::heard_in(
                events,
                kind,
            )
        }),
{
    let outs = lifecycle::message_of(events);
    stream_session::a_whole_response_is_a_whole_message(events);
    let sent = stream_session::answered(
        stream_session::event_inputs(events).push(UpstreamView::Closed),
    ).1;
    assert forall|i: int| 0 <= i < sent.len() implies sent.map_values(
        |p: stream_session::PieceView| p.frame,
    )[i] == #[trigger] frames_of(outs)[i] by {
        a_frame_is_its_event(outs[i]);
    }
    assert(sent.map_values(|p: stream_session::PieceView| p.frame) =~= frames_of(outs));
    reading_events(outs, kind);
    lifecycle::what_is_said_is_carried_over(events, kind);
}

/// The frame that begins a message names the message and its model, and holds
/// nothing else of it yet.
pub proof fn a_message_begins_empty(id: Seq<char>, model: Seq<char>)
    ensures
        sse::message_start_payload(id, model) == JsonView::Object(
            seq![
                ("type"@, txt("message_start"@)),
                (
                    "message"@,
                    JsonView::Object(
                        seq![
                            ("id"@, txt(id)),
                            ("type"@, txt("message"@)),
                            ("role"@, txt("assistant"@)),
                            ("content"@, JsonView::List(Seq::empty())),
                            ("model"@, txt(model)),
                            ("stop_reason"@, JsonView::Null),
                            ("stop_sequence"@, JsonView::Null),
                            (
                                "usage"@,
                                JsonView::Object(
                                    seq![("input_tokens"@, num(0)), ("output_tokens"@, num(0))],
                                ),
                            ),
                        ],
                    ),
                ),
            ],
        ),
{
    names_differ();
    let usage = seq![("input_tokens"@, num(0)), ("output_tokens"@, num(0))];
    a_usage_holds_its_tokens(Some(0), Some(0));
    assert(usage_members(Some(0), Some(0)) =~= usage);
    a_message_object(
        id,
        model,
        JsonView::List(Seq::empty()),
        JsonView::Null,
        JsonView::Object(usage),
    );
    typed_pair("message_start"@, "message"@, sse::blank_message(id, model));
}

/// An object built member by member as a message is.
pub proof fn a_message_object(
    id: Seq<char>,
    model: Seq<char>,
    content: JsonView,
    stop_reason: JsonView,
    usage: JsonView,
)
    ensures
        json::empty_object().with("id"@, json::text_value(id)).with(
            "type"@,
            json::text_value("message"@),
        ).with("role"@, json::text_value("assistant"@)).with("content"@, content).with(
            "model"@,
            json::text_value(model),
        ).with("stop_reason"@, stop_reason).with("stop_sequence"@, JsonView::Null).with(
            "usage"@,
            usage,
        ) == JsonView::Object(
            seq![
                ("id"@, txt(id)),
                ("type"@, txt("message"@)),
                ("role"@, txt("assistant"@)),
                ("content"@, content),
                ("model"@, txt(model)),
                ("stop_reason"@, stop_reason),
                ("stop_sequence"@, JsonView::Null),
                ("usage"@, usage),
            ],
        ),
{
    names_differ();
    let all = seq![
        ("id"@, txt(id)),
        ("type"@, txt("message"@)),
        ("role"@, txt("assistant"@)),
        ("content"@, content),
        ("model"@, txt(model)),
        ("stop_reason"@, stop_reason),
        ("stop_sequence"@, JsonView::Null),
        ("usage"@, usage),
    ];
    assert(all.take(0) =~= Seq::empty());
    assert forall|n: int| 0 <= n < 8 implies JsonView::Object(#[trigger] all.take(n)).with(
        all[n].0,
        all[n].1,
    ) == JsonView::Object(all.take(n + 1)) by {
        one_more(all.take(n), all[n].0, all[n].1);
        assert(all.take(n).push((all[n].0, all[n].1)) =~= all.take(n + 1));
    }
    assert(JsonView::Object(all.take(0)).with(all[0].0, all[0].1) == JsonView::Object(all.take(1)));
    assert(JsonView::Object(all.take(1)).with(all[1].0, all[1].1) == JsonView::Object(all.take(2)));
    assert(JsonView::Object(all.take(2)).with(all[2].0, all[2].1) == JsonView::Object(all.take(3)));
    assert(JsonView::Object(all.take(3)).with(all[3].0, all[3].1) == JsonView::Object(all.take(4)));
    assert(JsonView::Object(all.take(4)).with(all[4].0, all[4].1) == JsonView::Object(all.take(5)));
    assert(JsonView::Object(all.take(5)).with(all[5].0, all[5].1) == JsonView::Object(all.take(6)));
    assert(JsonView::Object(all.take(6)).with(all[6].0, all[6].1) == JsonView::Object(all.take(7)));
    assert(JsonView::Object(all.take(7)).with(all[7].0, all[7].1) == JsonView::Object(all.take(8)));
    assert(all.take(8) =~= all);
}

/// The body of an error says that it is one, of which type, and its message.
pub proof fn an_error_says_its_message(ty: Seq<char>, message: Seq<char>)
    ensures
        sse::error_body(ty, message) == JsonView::Object(
            seq![
                ("type"@, txt("error"@)),
                (
                    "error"@,
                    JsonView::Object(seq![("type"@, txt(ty)), ("message"@, txt(message))]),
                ),
            ],
        ),
{
    names_differ();
    typed_pair(ty, "message"@, txt(message));
    typed_pair(
        "error"@,
        "error"@,
        JsonView::Object(seq![("type"@, txt(ty)), ("message"@, txt(message))]),
    );
}

/// A frame names its event and carries its payload, sorted, on one line each,
/// and ends with an empty line.
pub proof fn a_frame_has_two_lines(event: Seq<char>, payload: JsonView)
    ensures
        sse::sse_frame(event, payload) == "event: "@ + event + seq!['\n'] + "data: "@
            + json::json_text(payload.sorted()) + seq!['\n', '\n'],
        payload.text_at("type"@) is Some ==> sse::payload_event(payload) == payload.text_at(
            "type"@,
        )->0,
        payload.text_at("type"@) is None ==> sse::payload_event(payload) == "message"@,
{
    reveal_strlit("\ndata: ");
    reveal_strlit("data: ");
    reveal_strlit("\n\n");
    assert("\n\n"@ =~= seq!['\n', '\n']);
    assert("\ndata: "@ =~= seq!['\n'] + "data: "@);
    assert(sse::sse_frame(event, payload) =~= "event: "@ + event + seq!['\n'] + "data: "@
        + json::json_text(payload.sorted()) + seq!['\n', '\n']);
}

} // verus!
