//! The Messages endpoint: what each request is answered, short of sending it.

use vstd::prelude::*;
use vstd::utf8::*;

use crate::epoch;
use crate::epoch::{EpochView, SessionEpoch, SessionRegistry};
use crate::ids;
use crate::json;
use crate::json::{Json, JsonNumber, JsonView};
use crate::serve_config::ServeConfig;
use crate::sse;
use crate::sse::error_value;
use crate::text;
use crate::translate::request;
use crate::translate::request::{
    translate_messages_request, ConversationRequest, RequestView,
};
use crate::wire;

verus! {

/// What the health endpoint answers.
pub fn healthz() -> (r: Json)
    ensures
        r@ == json::empty_object().with("ok"@, JsonView::Bool(true)).with(
            "service"@,
            json::text_value("grok-anthropic-bridge"@),
        ),
        r@.wf(),
{
    Json::object().with("ok", Json::Bool(true)).with("service", Json::text("grok-anthropic-bridge"))
}

/// Tokens of a text of this many bytes: about four bytes each, one at least.
pub open spec fn estimated_tokens(bytes: int) -> int {
    if bytes / 4 < 1 {
        1
    } else {
        bytes / 4
    }
}

/// Estimates the tokens of a text of this many bytes.
pub fn estimate_tokens(bytes: usize) -> (r: u64)
    ensures
        r == estimated_tokens(bytes as int),
{
    let n: u64 = bytes as u64 / 4;
    if n < 1 {
        1
    } else {
        n
    }
}

/// What the token count endpoint answers for a body.
pub open spec fn token_count(body: JsonView) -> JsonView {
    json::empty_object().with(
        "input_tokens"@,
        json::number_value(
            estimated_tokens(text::utf8_len(json::json_text(body.sorted())) as int) as u64,
        ),
    )
}

/// What the token count endpoint answers: an estimate for the body's JSON text.
pub fn count_tokens(body: &Json) -> (r: Json)
    requires
        body@.wf(),
    ensures
        r@ == json::empty_object().with(
            "input_tokens"@,
            json::number_value(
                estimated_tokens(text::utf8_len(json::json_text(body@.sorted())) as int) as u64,
            ),
        ),
        r@ == token_count(body@),
        r@.wf(),
{
    let n = estimate_tokens(text::byte_len(body.to_text().as_str()));
    Json::object().with("input_tokens", Json::number(n))
}

/// Whether a request asks for a stream.
pub open spec fn asks_for_stream(body: JsonView) -> bool {
    body.get("stream"@) == Some(JsonView::Bool(true))
}

/// Whether a request asks for a stream.
pub fn wants_stream(body: &Json) -> (r: bool)
    ensures
        r == asks_for_stream(body@),
{
    match body.get("stream") {
        Some(Json::Bool(b)) => *b,
        _ => false,
    }
}

/// The client session of a request: that of its header, else the user of its
/// metadata.
pub open spec fn session_id(header: Option<Seq<char>>, body: JsonView) -> Option<Seq<char>> {
    match header {
        Some(id) => Some(id),
        None => request::nested_text(body, "metadata"@, "user_id"@),
    }
}

/// The client session of a request.
pub fn claude_session<'a>(header: Option<&'a str>, body: &'a Json) -> (r: Option<&'a str>)
    ensures
        text::opt_str(r) == session_id(text::opt_str(header), body@),
{
    if header.is_some() {
        return header;
    }
    match body.get("metadata") {
        Some(m) => m.str_at("user_id"),
        None => None,
    }
}

/// What is recorded of a conversation request.
pub open spec fn request_meta_value(req: RequestView) -> JsonView {
    json::empty_object().with("model"@, sse::nullable_text(req.model)).with(
        "items"@,
        json::number_value(req.items.len() as u64),
    ).with("tools"@, json::number_value(req.tools.len() as u64)).with(
        "hosted_tools"@,
        json::number_value(req.hosted_tools.len() as u64),
    ).with("x_grok_session_id"@, sse::nullable_text(req.x_grok_session_id)).with(
        "x_grok_conv_id"@,
        sse::nullable_text(req.x_grok_conv_id),
    ).with("x_grok_turn_idx"@, sse::nullable_text(req.x_grok_turn_idx)).with(
        "x_grok_req_id"@,
        sse::nullable_text(req.x_grok_req_id),
    )
}

/// What is recorded of a conversation request.
pub fn request_meta(req: &ConversationRequest) -> (r: Json)
    ensures
        r@ == request_meta_value(req@),
        r@.wf(),
{
    Json::object().with("model", sse::text_or_null(&req.model)).with(
        "items",
        Json::number(req.items.len() as u64),
    ).with("tools", Json::number(req.tools.len() as u64)).with(
        "hosted_tools",
        Json::number(req.hosted_tools.len() as u64),
    ).with("x_grok_session_id", sse::text_or_null(&req.x_grok_session_id)).with(
        "x_grok_conv_id",
        sse::text_or_null(&req.x_grok_conv_id),
    ).with("x_grok_turn_idx", sse::text_or_null(&req.x_grok_turn_idx)).with(
        "x_grok_req_id",
        sse::text_or_null(&req.x_grok_req_id),
    )
}

/// An error that a request is answered with.
#[derive(Debug, PartialEq)]
pub struct ErrorReply {
    /// HTTP status.
    pub status: u16,
    pub body: Json,
}

impl ErrorReply {
    /// Whether the reply has this status and the body of this error.
    pub open spec fn is(self, status: int, ty: Seq<char>, message: Seq<char>) -> bool {
        self.status == status && self.body@ == sse::error_body(ty, message)
    }
}

/// The error reply with this status, type and message.
pub fn anthropic_error(status: u16, ty: &str, message: &str) -> (r: ErrorReply)
    ensures
        r.is(status as int, ty@, message@),
        r.body@.wf(),
{
    ErrorReply { status, body: error_value(ty, message) }
}

/// The reply where the upstream failed.
pub fn upstream_error(message: &str) -> (r: ErrorReply)
    ensures
        r.is(502, "api_error"@, message@),
        r.body@.wf(),
{
    anthropic_error(502, "api_error", message)
}

/// A request that can be sent upstream.
#[derive(Debug, PartialEq)]
pub struct MessagePlan {
    pub request: ConversationRequest,
    /// Whether the answer is to be a stream.
    pub stream: bool,
    /// What is recorded of the request.
    pub meta: Json,
}

impl MessagePlan {
    /// What the plan holds of JSON can be printed.
    pub open spec fn wf(self) -> bool {
        self.meta@.wf() && self.request.wf()
    }
}

/// Plans a request of a session that began its turn. A body that cannot be
/// translated is refused.
pub fn plan_message(body: &Json, epoch: &SessionEpoch, default_model: &str, req_id: &str) -> (r:
    Result<MessagePlan, ErrorReply>)
    requires
        body@.wf(),
    ensures
        match r {
            Ok(plan) => {
                &&& request::translated(body@, epoch@, default_model@, req_id@) == Ok::<
                    RequestView,
                    Seq<char>,
                >(plan.request@)
                &&& plan.stream == asks_for_stream(body@)
                &&& plan.meta@ == request_meta_value(plan.request@)
                &&& plan.wf()
            },
            Err(e) => {
                &&& e.body@.wf()
                &&& request::conversation_items(body@) is Err
                &&& e.is(
                    400,
                    "invalid_request_error"@,
                    request::conversation_items(body@)->Err_0,
                )
            },
        },
{
    match translate_messages_request(body, epoch, default_model, req_id) {
        Ok(request) => {
            let meta = request_meta(&request);
            Ok(MessagePlan { request, stream: wants_stream(body), meta })
        },
        Err(e) => Err(
            anthropic_error(400, "invalid_request_error", e.to_string().as_str()),
        ),
    }
}

/// Lets a planned request through whose model is accepted, and refuses another.
pub fn check_model<P>(config: &ServeConfig<P>, plan: MessagePlan) -> (r: Result<
    MessagePlan,
    ErrorReply,
>)
    ensures
        match r {
            Ok(p) => {
                &&& p == plan
                &&& plan.request.model matches Some(m) ==> config.accepts(m@)
            },
            Err(e) => {
                &&& plan.request.model matches Some(m)
                &&& !config.accepts(m@)
                &&& e.body@.wf()
                &&& e.is(400, "invalid_request_error"@, "model is not allowed: "@ + m@)
            },
        },
{
    if let Some(model) = &plan.request.model {
        if !config.allows_model(model.as_str()) {
            return Err(
                anthropic_error(
                    400,
                    "invalid_request_error",
                    text::join("model is not allowed: ", model.as_str()).as_str(),
                ),
            );
        }
    }
    Ok(plan)
}

/// A fresh id for a request.
pub fn new_request_id() -> (r: String)
    ensures
        ids::is_uuid_text(r@),
{
    ids::new_uuid()
}

/// Begins a turn of the request's session and plans the request. The turn
/// counts even where the request is refused.
pub fn accept_message(
    sessions: &mut SessionRegistry,
    session_header: Option<&str>,
    body: &Json,
    default_model: &str,
    req_id: &str,
) -> (r: Result<MessagePlan, ErrorReply>)
    requires
        old(sessions).wf(),
        old(sessions).turn_count() < u64::MAX,
        body@.wf(),
    ensures
        final(sessions).wf(),
        final(sessions).turn_count() == old(sessions).turn_count() + 1,
        exists|e: EpochView|
            {
                &&& #[trigger] epoch::turn_begun(
                    old(sessions)@,
                    session_id(text::opt_str(session_header), body@),
                    body@.get("tools"@),
                    e,
                    final(sessions)@,
                )
                &&& match r {
                    Ok(plan) => {
                        &&& request::translated(body@, e, default_model@, req_id@) == Ok::<
                            RequestView,
                            Seq<char>,
                        >(plan.request@)
                        &&& plan.stream == asks_for_stream(body@)
                        &&& plan.meta@ == request_meta_value(plan.request@)
                        &&& plan.wf()
                    },
                    Err(reply) => {
                        &&& reply.body@.wf()
                        &&& request::conversation_items(body@) is Err
                        &&& reply.is(
                            400,
                            "invalid_request_error"@,
                            request::conversation_items(body@)->Err_0,
                        )
                    },
                }
            },
{
    let id = claude_session(session_header, body);
    let turn = sessions.begin_turn(id, body.get("tools"));
    plan_message(body, &turn, default_model, req_id)
}

/// Four bytes make a token, and a text has one at least.
pub proof fn four_bytes_make_a_token(bytes: int)
    requires
        0 <= bytes,
    ensures
        estimated_tokens(bytes) >= 1,
        bytes < 8 ==> estimated_tokens(bytes) == 1,
        bytes >= 4 ==> 4 * estimated_tokens(bytes) <= bytes < 4 * estimated_tokens(bytes) + 4,
{
}

/// A stream is asked for by the member `stream`, where it is true, and by
/// nothing else.
pub proof fn only_true_asks_for_a_stream(body: JsonView)
    ensures
        asks_for_stream(body) ==> body is Object && body->Object_0.contains(
            ("stream"@, JsonView::Bool(true)),
        ),
        body.wf() && body is Object && body->Object_0.contains(("stream"@, JsonView::Bool(true)))
            ==> asks_for_stream(body),
{
    if asks_for_stream(body) {
        json::get_is_a_member(body, "stream"@);
    }
    if body.wf() && body is Object && body->Object_0.contains(("stream"@, JsonView::Bool(true))) {
        let list = body->Object_0;
        let at = list.index_of(("stream"@, JsonView::Bool(true)));
        assert forall|i: int| 0 <= i < at implies (#[trigger] list[i]).0 != "stream"@ by {
            assert(list[i].0 != list[at].0);
        }
        wire::found(list, "stream"@, at);
    }
}

/// The session is the one of the header, whatever the body says; without a
/// header it is the user that the metadata names, if it names one.
pub proof fn the_header_names_the_session(id: Seq<char>, body: JsonView)
    ensures
        session_id(Some(id), body) == Some(id),
        body.get("metadata"@) matches Some(m) ==> session_id(None, body) == m.text_at("user_id"@),
        body.get("metadata"@) is None ==> session_id(None, body) is None,
{
}

/// What is recorded of a request, member by member: its model, how many items
/// and tools it has, and its ids.
pub proof fn a_request_is_recorded(req: RequestView)
    ensures
        request_meta_value(req) == JsonView::Object(
            seq![
                ("model"@, text_or_nothing(req.model)),
                ("items"@, wire::num(req.items.len() as int)),
                ("tools"@, wire::num(req.tools.len() as int)),
                ("hosted_tools"@, wire::num(req.hosted_tools.len() as int)),
                ("x_grok_session_id"@, text_or_nothing(req.x_grok_session_id)),
                ("x_grok_conv_id"@, text_or_nothing(req.x_grok_conv_id)),
                ("x_grok_turn_idx"@, text_or_nothing(req.x_grok_turn_idx)),
                ("x_grok_req_id"@, text_or_nothing(req.x_grok_req_id)),
            ],
        ),
{
    reveal_strlit("model");
    reveal_strlit("items");
    reveal_strlit("tools");
    reveal_strlit("hosted_tools");
    reveal_strlit("x_grok_session_id");
    reveal_strlit("x_grok_conv_id");
    reveal_strlit("x_grok_turn_idx");
    reveal_strlit("x_grok_req_id");
    assert("model"@.len() == 5 && "items"@.len() == 5 && "tools"@.len() == 5);
    assert("hosted_tools"@.len() == 12 && "x_grok_session_id"@.len() == 17);
    assert("x_grok_conv_id"@.len() == 14 && "x_grok_turn_idx"@.len() == 15);
    assert("x_grok_req_id"@.len() == 13);
    assert("model"@[0] == 'm' && "items"@[0] == 'i' && "tools"@[0] == 't');
    let all = seq![
        ("model"@, text_or_nothing(req.model)),
        ("items"@, wire::num(req.items.len() as int)),
        ("tools"@, wire::num(req.tools.len() as int)),
        ("hosted_tools"@, wire::num(req.hosted_tools.len() as int)),
        ("x_grok_session_id"@, text_or_nothing(req.x_grok_session_id)),
        ("x_grok_conv_id"@, text_or_nothing(req.x_grok_conv_id)),
        ("x_grok_turn_idx"@, text_or_nothing(req.x_grok_turn_idx)),
        ("x_grok_req_id"@, text_or_nothing(req.x_grok_req_id)),
    ];
    assert(all.take(0) =~= Seq::empty());
    assert forall|n: int| 0 <= n < 8 implies JsonView::Object(#[trigger] all.take(n)).with(
        all[n].0,
        all[n].1,
    ) == JsonView::Object(all.take(n + 1)) by {
        json::with_new_name(all.take(n), all[n].0, all[n].1);
        assert(all.take(n).push((all[n].0, all[n].1)) =~= all.take(n + 1));
    }
    assert(JsonView::Object(all.take(0)).with(all[0].0, all[0].1) == JsonView::Object(all.take(1)));
    assert(JsonView::Object(all.take(1)).with(all[1].0, all[1].1) == JsonView::Object(all.take(2)));
    assert(JsonView::Object(all.take(2)).with(all[2].0, all[2].1) == JsonView::Object(all.take(3)));
    assert(JsonView::Object(all.take(3)).with(all[3].0, all[3].1) == JsonView::Object(all.take(4)));
    assert(JsonView::Object(all.take(4)).with(all[4].0, all[4].1) == JsonView::Object(all.take(5)));
    assert(JsonView::Object(all.take(5)).with(all[5].0, all[5].1) == JsonView::Object(all.take(6)));
    assert(JsonView::Object(all.take(6)).with(all[6].0, all[6].1) == JsonView::Object(all.take(7)));
    assert(JsonView::Object(all.take(7)).with(all[7].0, all[7].1) == JsonView::Object(all.take(8)));
    assert(all.take(8) =~= all);
}

/// A text, or null where there is none.
pub open spec fn text_or_nothing(s: Option<Seq<char>>) -> JsonView {
    if s is Some {
        JsonView::Text(s->0)
    } else {
        JsonView::Null
    }
}

/// An error reply has its status, and a body that tells its type and message.
pub proof fn an_error_reply_tells_its_error(
    reply: ErrorReply,
    status: int,
    ty: Seq<char>,
    message: Seq<char>,
)
    requires
        reply.is(status, ty, message),
    ensures
        reply.status == status,
        reply.body@ == JsonView::Object(
            seq![
                ("type"@, JsonView::Text("error"@)),
                (
                    "error"@,
                    JsonView::Object(
                        seq![("type"@, JsonView::Text(ty)), ("message"@, JsonView::Text(message))],
                    ),
                ),
            ],
        ),
{
    wire::an_error_says_its_message(ty, message);
}

/// The count that is answered is one for every four bytes of the body's whole
/// JSON text, and one at least.
pub proof fn the_whole_body_is_counted(body: JsonView, n: u64)
    requires
        encode_utf8(json::json_text(body.sorted())).len() <= u64::MAX,
        4 * n <= encode_utf8(json::json_text(body.sorted())).len() < 4 * n + 4,
    ensures
        n >= 1 ==> token_count(body) == JsonView::Object(
            seq![("input_tokens"@, JsonView::Number(JsonNumber::Unsigned(n)))],
        ),
        n == 0 ==> token_count(body) == JsonView::Object(
            seq![("input_tokens"@, JsonView::Number(JsonNumber::Unsigned(1)))],
        ),
{
    let none = Seq::<(Seq<char>, JsonView)>::empty();
    let m = if n >= 1 {
        n
    } else {
        1
    };
    let value = JsonView::Number(JsonNumber::Unsigned(m));
    json::with_new_name(none, "input_tokens"@, value);
    assert(none.push(("input_tokens"@, value)) =~= seq![("input_tokens"@, value)]);
}

} // verus!
