//! The mathematical values of the public types hold what their fields hold, each
//! under its own name.

use vstd::prelude::*;

use crate::credentials;
use crate::credentials::ResolvedAuth;
use crate::epoch::SessionEpoch;
use crate::json;
use crate::json::{Json, JsonView};
use crate::launcher;
use crate::monitor::{KeyAction, KeyActionView, UiState};
use crate::reasoning_signature::ReasoningReplay;
use crate::responses::{EventView, ItemView, OutputItem, ResponseStreamEvent};
use crate::stream_session;
use crate::stream_session::{Piece, UpstreamInput, UpstreamView};
use crate::text;
use crate::traffic;
use crate::traffic::{RequestSummary, TrafficFrame};
use crate::translate::request;
use crate::translate::request::{
    ConversationItem, ConversationItemView, ConversationRequest, ConversationToolChoice,
    HostedTool, HostedToolView, ToolCall, ToolChoiceView, ToolSpec,
    TranslateError,
};
use crate::translate::stream;
use crate::translate::stream::{AnthropicOut, OutView};
use crate::upstream::{OpenAction, OpenActionView, OpenEvent, OpenEventView};

verus! {

/// An optional string is the text that it holds.
pub proof fn an_optional_string_is_its_text(s: Option<String>, t: Option<&str>)
    ensures
        text::opt_string(s) is Some <==> s is Some,
        s is Some ==> text::opt_string(s)->0 == s->0@,
        text::opt_str(t) is Some <==> t is Some,
        t is Some ==> text::opt_str(t)->0 == t->0@,
{
}

/// A JSON value is what it holds: a list its items, and an object its members,
/// in order.
pub proof fn a_json_value_is_what_it_holds(v: Json, i: int)
    ensures
        v is Null <==> v@ is Null,
        v matches Json::Bool(b) ==> v@ == JsonView::Bool(b),
        v matches Json::Number(n) ==> v@ == JsonView::Number(n),
        v matches Json::Text(s) ==> v@ == JsonView::Text(s@),
        v matches Json::List(items) ==> v@ is List && v@->List_0.len() == items@.len() && (0 <= i
            < items@.len() ==> v@->List_0[i] == items@[i]@),
        v matches Json::Object(members) ==> v@ is Object && v@->Object_0.len() == members@.len() && (
        0 <= i < members@.len() ==> v@->Object_0[i] == (members@[i].0@, members@[i].1@)),
{
}

/// A member of an object is read under its name, as what it is.
pub proof fn a_member_is_read_as_it_is(v: JsonView, i: int, other: Seq<char>)
    requires
        v is Object,
        v.wf(),
        0 <= i < v->Object_0.len(),
    ensures
        v.get(v->Object_0[i].0) == Some(v->Object_0[i].1),
        v->Object_0[i].1 matches JsonView::Text(s) ==> v.text_at(v->Object_0[i].0) == Some(s),
        !(v->Object_0[i].1 is Text) ==> v.text_at(v->Object_0[i].0) is None,
        (forall|j: int| 0 <= j < v->Object_0.len() ==> (#[trigger] v->Object_0[j]).0 != other)
            ==> v.get(other) is None && v.text_at(other) is None,
        v->Object_0[i].1 matches JsonView::List(items) ==> v->Object_0[i].1.as_list() == Some(items),
{
    let members = v->Object_0;
    let key = members[i].0;
    assert forall|j: int| 0 <= j < i implies (#[trigger] members[j]).0 != key by {
        assert(members[j].0 != members[i].0);
    }
    json::member_position_is(members, key, i);
    if forall|j: int| 0 <= j < members.len() ==> (#[trigger] members[j]).0 != other {
        json::member_position_is(members, other, members.len() as int);
    }
}

/// The value of a request.
pub proof fn a_request_is_its_fields(r: ConversationRequest, i: int)
    ensures
        r@.items.len() == r.items@.len(),
        0 <= i < r.items@.len() ==> r@.items[i] == r.items@[i]@,
        r@.tools.len() == r.tools@.len(),
        0 <= i < r.tools@.len() ==> r@.tools[i] == r.tools@[i]@,
        r@.hosted_tools.len() == r.hosted_tools@.len(),
        0 <= i < r.hosted_tools@.len() ==> r@.hosted_tools[i] == r.hosted_tools@[i]@,
        r@.tool_choice is Some <==> r.tool_choice is Some,
        r.tool_choice is Some ==> r@.tool_choice->0 == r.tool_choice->0@,
        r@.model == text::opt_string(r.model),
        r@.temperature == r.temperature,
        r@.max_output_tokens is Some <==> r.max_output_tokens is Some,
        r.max_output_tokens is Some ==> r@.max_output_tokens->0 == r.max_output_tokens->0,
        r@.top_p == r.top_p,
        r@.x_grok_conv_id == text::opt_string(r.x_grok_conv_id),
        r@.x_grok_req_id == text::opt_string(r.x_grok_req_id),
        r@.x_grok_session_id == text::opt_string(r.x_grok_session_id),
        r@.x_grok_turn_idx == text::opt_string(r.x_grok_turn_idx),
        r@.x_grok_agent_id == text::opt_string(r.x_grok_agent_id),
        r@.x_grok_deployment_id == text::opt_string(r.x_grok_deployment_id),
        r@.x_grok_user_id == text::opt_string(r.x_grok_user_id),
        r@.reasoning_effort == r.reasoning_effort,
{
}

/// The value of an item of a conversation.
pub proof fn an_item_is_its_fields(item: ConversationItem, i: int)
    ensures
        item matches ConversationItem::System(s) ==> item@ == ConversationItemView::System(s@),
        item matches ConversationItem::User(s) ==> item@ == ConversationItemView::User(s@),
        item matches ConversationItem::Assistant(s) ==> item@ == ConversationItemView::Assistant(
            s@,
        ),
        item matches ConversationItem::AssistantToolCalls(calls) ==> item@ is AssistantToolCalls
            && item@->AssistantToolCalls_0.len() == calls@.len() && (0 <= i < calls@.len()
            ==> item@->AssistantToolCalls_0[i] == calls@[i]@),
        item matches ConversationItem::ToolResult { call_id, output } ==> item@ is ToolResult
            && item@->call_id == call_id@ && item@->output == output@,
        item matches ConversationItem::Reasoning { id, encrypted_content } ==> item@ is Reasoning
            && item@->Reasoning_0.id == id@ && item@->Reasoning_0.encrypted_content
            == encrypted_content@,
{
}

/// The values of tools, of calls of them and of a choice among them.
pub proof fn tools_are_their_fields(
    call: ToolCall,
    tool: ToolSpec,
    hosted: HostedTool,
    choice: ConversationToolChoice,
    i: int,
)
    ensures
        call@.id == call.id@,
        call@.name == call.name@,
        call@.arguments == call.arguments@,
        tool@.name == tool.name@,
        tool@.description == text::opt_string(tool.description),
        tool@.parameters == tool.parameters@,
        hosted is XSearch <==> hosted@ is XSearch,
        hosted matches HostedTool::WebSearch { allowed_domains: None } ==> hosted@
            == HostedToolView::WebSearch(None),
        hosted matches HostedTool::WebSearch { allowed_domains: Some(v) } ==> hosted@ is WebSearch
            && hosted@->WebSearch_0 is Some && hosted@->WebSearch_0->0.len() == v@.len() && (0 <= i
            < v@.len() ==> hosted@->WebSearch_0->0[i] == v@[i]@),
        choice is Auto <==> choice@ is Auto,
        choice is Never <==> choice@ is Never,
        choice is Required <==> choice@ is Required,
        choice matches ConversationToolChoice::Function(s) ==> choice@ == ToolChoiceView::Function(
            s@,
        ),
{
}

/// The value of an event of the message stream.
pub proof fn an_event_is_its_fields(o: AnthropicOut)
    ensures
        match o {
            AnthropicOut::ThinkingStart { index } => o@ == (OutView::ThinkingStart {
                index: index as int,
            }),
            AnthropicOut::ThinkingDelta { index, text } => o@ == (OutView::ThinkingDelta {
                index: index as int,
                text: text@,
            }),
            AnthropicOut::ThinkingSignature { index, signature } => o@ == (
            OutView::ThinkingSignature { index: index as int, signature: signature@ }),
            AnthropicOut::ThinkingStop { index } => o@ == (OutView::ThinkingStop {
                index: index as int,
            }),
            AnthropicOut::TextStart { index } => o@ == (OutView::TextStart { index: index as int }),
            AnthropicOut::TextDelta { index, text } => o@ == (OutView::TextDelta {
                index: index as int,
                text: text@,
            }),
            AnthropicOut::TextStop { index } => o@ == (OutView::TextStop { index: index as int }),
            AnthropicOut::ToolUseStart { index, id, name } => o@ == (OutView::ToolUseStart {
                index: index as int,
                id: id@,
                name: name@,
            }),
            AnthropicOut::ToolUseDelta { index, partial_json } => o@ == (OutView::ToolUseDelta {
                index: index as int,
                partial_json: partial_json@,
            }),
            AnthropicOut::ToolUseStop { index } => o@ == (OutView::ToolUseStop {
                index: index as int,
            }),
            AnthropicOut::MessageDelta { stop_reason, input_tokens, output_tokens } => o@ == (
            OutView::MessageDelta {
                stop_reason: text::opt_string(stop_reason),
                input_tokens,
                output_tokens,
            }),
            AnthropicOut::MessageStop => o@ is MessageStop,
            AnthropicOut::Error { message } => o@ == (OutView::Error { message: message@ }),
        },
{
}

/// The value of an item that a response added or ended, and of a failure.
pub proof fn an_upstream_item_is_its_fields(e: ResponseStreamEvent, item: OutputItem)
    ensures
        e matches ResponseStreamEvent::ResponseOutputItemAdded { output_index, item } ==> e@ == (
        EventView::ItemAdded { output_index, item: item@ }),
        e matches ResponseStreamEvent::ResponseOutputItemDone { output_index, item } ==> e@
            == EventView::ItemDone(item@),
        e matches ResponseStreamEvent::ResponseFailed { message } ==> e@ == EventView::Failed(
            text::opt_string(message),
        ),
        e is ResponseOutputTextDone <==> e@ is TextDone,
        item matches OutputItem::Reasoning(r) ==> item@ == (ItemView::Reasoning {
            id: r.id@,
            encrypted_content: text::opt_string(r.encrypted_content),
        }),
        item matches OutputItem::FunctionCall(c) ==> item@ is FunctionCall
            && item@->FunctionCall_0.arguments == c.arguments@ && item@->FunctionCall_0.call_id
            == c.call_id@ && item@->FunctionCall_0.name == c.name@ && item@->FunctionCall_0.id
            == text::opt_string(c.id),
        item is Message <==> item@ is Message,
        item is Other <==> item@ is Other,
{
}

/// The values of a session, of credentials and of a reasoning item.
pub proof fn sessions_are_their_fields(e: SessionEpoch, a: ResolvedAuth, r: ReasoningReplay)
    ensures
        e@.claude_session_id == e.claude_session_id@,
        e@.grok_session_id == e.grok_session_id@,
        e@.conv_id == e.conv_id@,
        e@.turn == e.turn,
        e@.tools_hash == text::opt_string(e.tools_hash),
        e@.epoch == e.epoch,
        a@.bearer == a.bearer@,
        a@.source == a.source,
        a@.scope == text::opt_string(a.scope),
        r@.id == r.id@,
        r@.encrypted_content == r.encrypted_content@,
{
}

/// The values of a frame, of a summary and of the monitor.
pub proof fn what_is_monitored_is_its_fields(f: TrafficFrame, s: RequestSummary, ui: UiState)
    ensures
        f@.request_id == f.request_id@,
        f@.side == f.side,
        f@.phase == f.phase@,
        f@.payload == f.payload@,
        f@.unix_ms == f.unix_ms,
        s@.request_id == s.request_id@,
        s@.frame_count == s.frame_count,
        s@.claude_frames == s.claude_frames,
        s@.grok_frames == s.grok_frames,
        s@.last_phase == s.last_phase@,
        s@.has_error == s.has_error,
        ui@.selected is Some <==> ui.selected is Some,
        ui.selected is Some ==> ui@.selected->0 == ui.selected->0,
        ui@.focus == ui.focus,
        ui@.claude_scroll == ui.claude_scroll,
        ui@.grok_scroll == ui.grok_scroll,
        ui@.selected_id == text::opt_string(ui.selected_id),
        ui@.status == ui.status@,
        ui@.follow_latest == ui.follow_latest,
{
}

/// The values of what happens and of what is to be done about it.
pub proof fn steps_are_their_fields(
    piece: Piece,
    input: UpstreamInput,
    opened: OpenEvent,
    open: OpenAction,
    key: KeyAction,
)
    ensures
        piece@.frame == piece.frame@,
        piece@.record is Some <==> piece.record is Some,
        piece.record is Some ==> piece@.record->0 == piece.record->0@,
        input matches UpstreamInput::Event(e) ==> input@ == UpstreamView::Event(e@),
        input matches UpstreamInput::Broken(m) ==> input@ == UpstreamView::Broken(m@),
        input is Closed <==> input@ is Closed,
        opened is Opened <==> opened@ is Opened,
        opened matches OpenEvent::Failed(m) ==> opened@ == OpenEventView::Failed(m@),
        opened matches OpenEvent::Recovered(ok) ==> opened@ == OpenEventView::Recovered(ok),
        open is Open <==> open@ is Open,
        open is Recover <==> open@ is Recover,
        open is Use <==> open@ is Use,
        open matches OpenAction::Fail(m) ==> open@ == OpenActionView::Fail(m@),
        key is Stay <==> key@ is Stay,
        key is Quit <==> key@ is Quit,
        key matches KeyAction::Dump(id) ==> key@ == KeyActionView::Dump(id@),
{
}

/// The values of a list are those of its items, one for each and in order.
pub proof fn lists_are_their_items(
    values: Seq<Json>,
    outs: Seq<AnthropicOut>,
    items: Seq<ConversationItem>,
    frames: Seq<TrafficFrame>,
    requests: Seq<RequestSummary>,
    pieces: Seq<Piece>,
    strings: Seq<String>,
    i: int,
)
    ensures
        json::values(values).len() == values.len(),
        0 <= i < values.len() ==> json::values(values)[i] == values[i]@,
        stream::outs_view(outs).len() == outs.len(),
        0 <= i < outs.len() ==> stream::outs_view(outs)[i] == outs[i]@,
        request::items_view(items).len() == items.len(),
        0 <= i < items.len() ==> request::items_view(items)[i] == items[i]@,
        traffic::frames_view(frames).len() == frames.len(),
        0 <= i < frames.len() ==> traffic::frames_view(frames)[i] == frames[i]@,
        traffic::summaries_view(requests).len() == requests.len(),
        0 <= i < requests.len() ==> traffic::summaries_view(requests)[i] == requests[i]@,
        stream_session::pieces_view(pieces).len() == pieces.len(),
        0 <= i < pieces.len() ==> stream_session::pieces_view(pieces)[i] == pieces[i]@,
        request::texts_of(strings).len() == strings.len(),
        0 <= i < strings.len() ==> request::texts_of(strings)[i] == strings[i]@,
{
}

/// The value of something that may be missing is that of what is there.
pub proof fn what_may_be_missing_is_what_is_there(
    v: Option<&Json>,
    a: Option<ResolvedAuth>,
    c: Option<ConversationToolChoice>,
    t: Option<i64>,
    m: Map<Seq<char>, String>,
    k: Seq<char>,
)
    ensures
        json::opt_json(v) is Some <==> v is Some,
        v is Some ==> json::opt_json(v)->0 == v->0@,
        credentials::opt_auth(a) is Some <==> a is Some,
        a is Some ==> credentials::opt_auth(a)->0 == a->0@,
        request::opt_choice(c) is Some <==> c is Some,
        c is Some ==> request::opt_choice(c)->0 == c->0@,
        credentials::opt_seconds(t) is Some <==> t is Some,
        t is Some ==> credentials::opt_seconds(t)->0 == t->0,
        launcher::texts_in(m).contains_key(k) <==> m.contains_key(k),
        m.contains_key(k) ==> launcher::texts_in(m)[k] == m[k]@,
{
}

/// A failure to translate is told by its message.
pub proof fn a_failure_is_its_message(e: TranslateError)
    ensures
        e matches TranslateError::Message(m) && e.text() == m@,
{
}

} // verus!
