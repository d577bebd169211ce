//! From the body of an Anthropic `/v1/messages` request to a Grok conversation.

use vstd::prelude::*;

use crate::epoch::{EpochView, SessionEpoch};
use crate::json;
use crate::json::{Json, JsonNumber, JsonView};
use crate::reasoning_signature;
use crate::reasoning_signature::{decode_reasoning_signature, ReplayView};
use crate::text;

verus! {

/// Why a request cannot be translated.
#[derive(Debug, Clone, PartialEq, Eq)]
pub enum TranslateError {
    Message(String),
}

impl TranslateError {
    /// The message.
    pub open spec fn text(self) -> Seq<char> {
        match self {
            TranslateError::Message(m) => m@,
        }
    }

    /// The message.
    pub fn to_string(&self) -> (r: String)
        ensures
            r@ == self.text(),
    {
        match self {
            TranslateError::Message(m) => m.clone(),
        }
    }
}

fn refuse<T>(message: &str) -> (r: Result<T, TranslateError>)
    ensures
        r is Err,
        r->Err_0.text() == message@,
{
    Err(TranslateError::Message(message.to_owned()))
}

/// A call of a tool, in the conversation.
#[derive(Debug, Clone, PartialEq, Eq)]
pub struct ToolCall {
    pub id: String,
    pub name: String,
    /// JSON text.
    pub arguments: String,
}

/// An item of the conversation.
#[derive(Debug, Clone, PartialEq, Eq)]
pub enum ConversationItem {
    System(String),
    User(String),
    Assistant(String),
    AssistantToolCalls(Vec<ToolCall>),
    ToolResult { call_id: String, output: String },
    /// A reasoning item that is handed back.
    Reasoning { id: String, encrypted_content: String },
}

/// A tool that the client runs.
#[derive(Debug, PartialEq)]
pub struct ToolSpec {
    pub name: String,
    pub description: Option<String>,
    pub parameters: Json,
}

/// A tool that Grok runs.
#[derive(Debug, Clone, PartialEq, Eq)]
pub enum HostedTool {
    WebSearch { allowed_domains: Option<Vec<String>> },
    XSearch,
}

/// Which tool Grok is to call.
#[derive(Debug, Clone, PartialEq, Eq)]
pub enum ConversationToolChoice {
    Auto,
    /// No tool.
    Never,
    Required,
    Function(String),
}

/// How much Grok is to reason.
#[derive(Debug, Clone, Copy, PartialEq, Eq)]
pub enum ReasoningEffort {
    /// Not at all.
    Off,
    Low,
    Medium,
    High,
    Xhigh,
}

/// A conversation for Grok to go on with.
#[derive(Debug, PartialEq)]
pub struct ConversationRequest {
    pub items: Vec<ConversationItem>,
    pub tools: Vec<ToolSpec>,
    pub hosted_tools: Vec<HostedTool>,
    pub tool_choice: Option<ConversationToolChoice>,
    pub model: Option<String>,
    pub temperature: Option<JsonNumber>,
    pub max_output_tokens: Option<u32>,
    pub top_p: Option<JsonNumber>,
    pub x_grok_conv_id: Option<String>,
    pub x_grok_req_id: Option<String>,
    pub x_grok_session_id: Option<String>,
    pub x_grok_turn_idx: Option<String>,
    pub x_grok_agent_id: Option<String>,
    pub x_grok_deployment_id: Option<String>,
    pub x_grok_user_id: Option<String>,
    pub reasoning_effort: Option<ReasoningEffort>,
}

/// Whether the parameters of every tool can be printed.
pub open spec fn parameters_wf(tools: Seq<ToolSpec>) -> bool {
    forall|i: int| 0 <= i < tools.len() ==> (#[trigger] tools[i]).parameters@.wf()
}

impl ConversationRequest {
    /// What the request holds of JSON can be printed.
    pub open spec fn wf(self) -> bool {
        parameters_wf(self.tools@)
    }
}

/// The mathematical value of a [`ToolCall`].
pub ghost struct ToolCallView {
    pub id: Seq<char>,
    pub name: Seq<char>,
    pub arguments: Seq<char>,
}

/// The mathematical value of a [`ConversationItem`].
pub ghost enum ConversationItemView {
    System(Seq<char>),
    User(Seq<char>),
    Assistant(Seq<char>),
    AssistantToolCalls(Seq<ToolCallView>),
    ToolResult { call_id: Seq<char>, output: Seq<char> },
    Reasoning(ReplayView),
}

/// The mathematical value of a [`ToolSpec`].
pub ghost struct ToolSpecView {
    pub name: Seq<char>,
    pub description: Option<Seq<char>>,
    pub parameters: JsonView,
}

/// The mathematical value of a [`HostedTool`].
pub ghost enum HostedToolView {
    WebSearch(Option<Seq<Seq<char>>>),
    XSearch,
}

/// The mathematical value of a [`ConversationToolChoice`].
pub ghost enum ToolChoiceView {
    Auto,
    Never,
    Required,
    Function(Seq<char>),
}

/// The mathematical value of a [`ConversationRequest`].
pub ghost struct RequestView {
    pub items: Seq<ConversationItemView>,
    pub tools: Seq<ToolSpecView>,
    pub hosted_tools: Seq<HostedToolView>,
    pub tool_choice: Option<ToolChoiceView>,
    pub model: Option<Seq<char>>,
    pub temperature: Option<JsonNumber>,
    pub max_output_tokens: Option<int>,
    pub top_p: Option<JsonNumber>,
    pub x_grok_conv_id: Option<Seq<char>>,
    pub x_grok_req_id: Option<Seq<char>>,
    pub x_grok_session_id: Option<Seq<char>>,
    pub x_grok_turn_idx: Option<Seq<char>>,
    pub x_grok_agent_id: Option<Seq<char>>,
    pub x_grok_deployment_id: Option<Seq<char>>,
    pub x_grok_user_id: Option<Seq<char>>,
    pub reasoning_effort: Option<ReasoningEffort>,
}

impl View for ToolCall {
    type V = ToolCallView;

    open spec fn view(&self) -> ToolCallView {
        ToolCallView { id: self.id@, name: self.name@, arguments: self.arguments@ }
    }
}

impl View for ConversationItem {
    type V = ConversationItemView;

    open spec fn view(&self) -> ConversationItemView {
        match self {
            ConversationItem::System(s) => ConversationItemView::System(s@),
            ConversationItem::User(s) => ConversationItemView::User(s@),
            ConversationItem::Assistant(s) => ConversationItemView::Assistant(s@),
            ConversationItem::AssistantToolCalls(calls) => ConversationItemView::AssistantToolCalls(
                calls@.map_values(|c: ToolCall| c@),
            ),
            ConversationItem::ToolResult { call_id, output } => ConversationItemView::ToolResult {
                call_id: call_id@,
                output: output@,
            },
            ConversationItem::Reasoning { id, encrypted_content } => {
                ConversationItemView::Reasoning(
                    ReplayView { id: id@, encrypted_content: encrypted_content@ },
                )
            },
        }
    }
}

impl View for ToolSpec {
    type V = ToolSpecView;

    open spec fn view(&self) -> ToolSpecView {
        ToolSpecView {
            name: self.name@,
            description: text::opt_string(self.description),
            parameters: self.parameters@,
        }
    }
}

/// The texts of a list of strings.
pub open spec fn texts_of(v: Seq<String>) -> Seq<Seq<char>> {
    v.map_values(|s: String| s@)
}

impl View for HostedTool {
    type V = HostedToolView;

    open spec fn view(&self) -> HostedToolView {
        match self {
            HostedTool::WebSearch { allowed_domains } => HostedToolView::WebSearch(
                match allowed_domains {
                    Some(v) => Some(texts_of(v@)),
                    None => None,
                },
            ),
            HostedTool::XSearch => HostedToolView::XSearch,
        }
    }
}

impl View for ConversationToolChoice {
    type V = ToolChoiceView;

    open spec fn view(&self) -> ToolChoiceView {
        match self {
            ConversationToolChoice::Auto => ToolChoiceView::Auto,
            ConversationToolChoice::Never => ToolChoiceView::Never,
            ConversationToolChoice::Required => ToolChoiceView::Required,
            ConversationToolChoice::Function(s) => ToolChoiceView::Function(s@),
        }
    }
}

/// The values of a list of items.
pub open spec fn items_view(items: Seq<ConversationItem>) -> Seq<ConversationItemView> {
    items.map_values(|i: ConversationItem| i@)
}

impl View for ConversationRequest {
    type V = RequestView;

    open spec fn view(&self) -> RequestView {
        RequestView {
            items: items_view(self.items@),
            tools: self.tools@.map_values(|t: ToolSpec| t@),
            hosted_tools: self.hosted_tools@.map_values(|t: HostedTool| t@),
            tool_choice: match self.tool_choice {
                Some(c) => Some(c@),
                None => None,
            },
            model: text::opt_string(self.model),
            temperature: self.temperature,
            max_output_tokens: match self.max_output_tokens {
                Some(n) => Some(n as int),
                None => None,
            },
            top_p: self.top_p,
            x_grok_conv_id: text::opt_string(self.x_grok_conv_id),
            x_grok_req_id: text::opt_string(self.x_grok_req_id),
            x_grok_session_id: text::opt_string(self.x_grok_session_id),
            x_grok_turn_idx: text::opt_string(self.x_grok_turn_idx),
            x_grok_agent_id: text::opt_string(self.x_grok_agent_id),
            x_grok_deployment_id: text::opt_string(self.x_grok_deployment_id),
            x_grok_user_id: text::opt_string(self.x_grok_user_id),
            reasoning_effort: self.reasoning_effort,
        }
    }
}

/// The model without a context hint such as `[1m]`.
pub open spec fn without_context_suffix(model: Seq<char>) -> Seq<char> {
    match text::split_pair(model, '[') {
        Some((name, _)) => name,
        None => model,
    }
}

/// The model without a context hint such as `[1m]`.
pub fn strip_context_suffix(model: &str) -> (r: String)
    ensures
        r@ == without_context_suffix(model@),
{
    match text::split_once(model, '[') {
        Some((name, _)) => name,
        None => model.to_owned(),
    }
}

/// Which text a block of a content list stands for.
#[derive(Clone, Copy)]
pub enum Piece {
    /// Its `text`.
    Text,
    /// Its `text`, or the block itself where it is a text.
    TextOrSelf,
    /// Its `text`, or a placeholder where it is an image.
    TextOrImage,
}

/// The text that a block stands for.
pub open spec fn piece_of(block: JsonView, piece: Piece) -> Seq<char> {
    match (block.text_at("text"@), piece) {
        (Some(t), _) => t,
        (None, Piece::TextOrSelf) => match block.as_text() {
            Some(t) => t,
            None => Seq::empty(),
        },
        (None, Piece::TextOrImage) => if block.text_at("type"@) == Some("image"@) {
            "[image omitted]"@
        } else {
            Seq::empty()
        },
        (None, Piece::Text) => Seq::empty(),
    }
}

/// The text that blocks stand for together.
pub open spec fn joined_pieces(blocks: Seq<JsonView>, piece: Piece) -> Seq<char>
    decreases blocks.len(),
{
    if blocks.len() == 0 {
        Seq::empty()
    } else {
        joined_pieces(blocks.drop_last(), piece) + piece_of(blocks.last(), piece)
    }
}

fn type_is(block: &Json, ty: &str) -> (r: bool)
    ensures
        r == (block@.text_at("type"@) == Some(ty@)),
{
    match block.str_at("type") {
        Some(t) => text::same(t, ty),
        None => false,
    }
}

fn append_piece(out: &mut String, block: &Json, piece: Piece)
    ensures
        final(out)@ == old(out)@ + piece_of(block@, piece),
{
    match block.str_at("text") {
        Some(t) => out.append(t),
        None => match piece {
            Piece::TextOrSelf => {
                if let Some(t) = block.as_str() {
                    out.append(t);
                }
            },
            Piece::TextOrImage => {
                if type_is(block, "image") {
                    out.append("[image omitted]");
                }
            },
            Piece::Text => {},
        },
    }
    assert(out@ =~= old(out)@ + piece_of(block@, piece));
}

fn join_pieces(blocks: &Vec<Json>, piece: Piece) -> (r: String)
    ensures
        r@ == joined_pieces(json::values(blocks@), piece),
{
    let ghost all = json::values(blocks@);
    let mut out = String::new();
    let mut i: usize = 0;
    assert(out@ =~= joined_pieces(all.take(0), piece));
    while i < blocks.len()
        invariant
            i <= blocks@.len(),
            all == json::values(blocks@),
            out@ == joined_pieces(all.take(i as int), piece),
        decreases blocks@.len() - i,
    {
        assert(all.take(i as int + 1).drop_last() =~= all.take(i as int));
        append_piece(&mut out, &blocks[i], piece);
        i += 1;
    }
    assert(all.take(i as int) =~= all);
    out
}

/// What is made of the top-level `system`.
pub open spec fn system_text(system: JsonView) -> Result<Option<Seq<char>>, Seq<char>> {
    match system {
        JsonView::Text(s) => Ok(Some(s)),
        JsonView::List(blocks) => if forall|i: int|
            0 <= i < blocks.len() ==> (#[trigger] blocks[i]).text_at("text"@) is Some {
            Ok(Some(joined_pieces(blocks, Piece::Text)))
        } else {
            Err("system block missing text"@)
        },
        JsonView::Null => Ok(None),
        _ => Err("unsupported system shape"@),
    }
}

/// Makes a text of the top-level `system`.
fn system_to_text(system: &Json) -> (r: Result<Option<String>, TranslateError>)
    ensures
        match r {
            Ok(t) => system_text(system@) == Ok::<Option<Seq<char>>, Seq<char>>(
                text::opt_string(t),
            ),
            Err(e) => system_text(system@) == Err::<Option<Seq<char>>, Seq<char>>(e.text()),
        },
{
    match system {
        Json::Text(s) => Ok(Some(s.clone())),
        Json::List(blocks) => {
            let ghost all = system@->List_0;
            assert(all =~= json::values(blocks@));
            let mut i: usize = 0;
            while i < blocks.len()
                invariant
                    i <= blocks@.len(),
                    all == json::values(blocks@),
                    system@ == JsonView::List(all),
                    forall|j: int| 0 <= j < i ==> (#[trigger] all[j]).text_at("text"@) is Some,
                decreases blocks@.len() - i,
            {
                if blocks[i].str_at("text").is_none() {
                    assert(all[i as int].text_at("text"@) is None);
                    return refuse("system block missing text");
                }
                i += 1;
            }
            Ok(Some(join_pieces(blocks, Piece::Text)))
        },
        Json::Null => Ok(None),
        _ => refuse("unsupported system shape"),
    }
}

/// What is made of the content of a system message.
pub open spec fn plain_text(content: Option<JsonView>) -> Result<Option<Seq<char>>, Seq<char>> {
    match content {
        None => Ok(None),
        Some(JsonView::Text(s)) => Ok(Some(s)),
        Some(JsonView::List(blocks)) => Ok(Some(joined_pieces(blocks, Piece::TextOrSelf))),
        _ => Err("unsupported content shape for system/text"@),
    }
}

/// Makes a text of the content of a system message.
fn content_to_plain_text(content: Option<&Json>) -> (r: Result<Option<String>, TranslateError>)
    ensures
        match r {
            Ok(t) => plain_text(json::opt_json(content)) == Ok::<Option<Seq<char>>, Seq<char>>(
                text::opt_string(t),
            ),
            Err(e) => plain_text(json::opt_json(content)) == Err::<Option<Seq<char>>, Seq<char>>(
                e.text(),
            ),
        },
{
    let content = match content {
        Some(c) => c,
        None => return Ok(None),
    };
    match content {
        Json::Text(s) => Ok(Some(s.clone())),
        Json::List(blocks) => {
            assert(content@->List_0 =~= json::values(blocks@));
            Ok(Some(join_pieces(blocks, Piece::TextOrSelf)))
        },
        _ => refuse("unsupported content shape for system/text"),
    }
}

/// A user item for gathered text, where there is any.
pub open spec fn flushed(s: Seq<char>) -> Seq<ConversationItemView> {
    if s.len() > 0 {
        seq![ConversationItemView::User(s)]
    } else {
        Seq::empty()
    }
}

/// The text of a tool result.
pub open spec fn tool_result_text(content: Option<JsonView>) -> Seq<char> {
    match content {
        Some(JsonView::Text(s)) => s,
        Some(JsonView::List(blocks)) => joined_pieces(blocks, Piece::TextOrImage),
        Some(other) => json::json_text(other.sorted()),
        None => Seq::empty(),
    }
}

/// A text, or `default` where there is none.
pub open spec fn text_or(s: Option<Seq<char>>, default: Seq<char>) -> Seq<char> {
    match s {
        Some(t) => t,
        None => default,
    }
}

fn str_or(s: Option<&str>, default: &str) -> (r: String)
    ensures
        r@ == text_or(text::opt_str(s), default@),
{
    match s {
        Some(t) => t.to_owned(),
        None => default.to_owned(),
    }
}

/// The text of a tool result.
fn tool_result_to_string(content: Option<&Json>) -> (r: String)
    requires
        content is Some ==> content->0@.wf(),
    ensures
        r@ == tool_result_text(json::opt_json(content)),
{
    match content {
        Some(c) => match c {
            Json::Text(s) => s.clone(),
            Json::List(blocks) => {
                assert(c@->List_0 =~= json::values(blocks@));
                join_pieces(blocks, Piece::TextOrImage)
            },
            other => other.to_text(),
        },
        None => {
            let r = String::new();
            assert(r@ =~= Seq::empty());
            r
        },
    }
}

fn add_item(items: &mut Vec<ConversationItem>, item: ConversationItem)
    ensures
        items_view(final(items)@) == items_view(old(items)@).push(item@),
{
    items.push(item);
    assert(items_view(items@) =~= items_view(old(items)@).push(item@));
}

/// Turns gathered text into a user item.
fn flush_text(s: String, items: &mut Vec<ConversationItem>)
    ensures
        items_view(final(items)@) == items_view(old(items)@) + flushed(s@),
{
    if !s.as_str().is_empty() {
        add_item(items, ConversationItem::User(s));
    }
    assert(items_view(items@) =~= items_view(old(items)@) + flushed(s@));
}

/// The gathered text and the items after a block of user content.
pub open spec fn user_block(
    before: (Seq<char>, Seq<ConversationItemView>),
    block: JsonView,
) -> (Seq<char>, Seq<ConversationItemView>) {
    let ty = block.text_at("type"@);
    if ty == Some("text"@) {
        (before.0 + piece_of(block, Piece::Text), before.1)
    } else if ty == Some("tool_result"@) {
        (
            Seq::empty(),
            (before.1 + flushed(before.0)).push(
                ConversationItemView::ToolResult {
                    call_id: text_or(block.text_at("tool_use_id"@), "tool_call"@),
                    output: tool_result_text(block.get("content"@)),
                },
            ),
        )
    } else if ty == Some("image"@) {
        (before.0 + "[image omitted]"@, before.1)
    } else {
        before
    }
}

/// The gathered text and the items after blocks of user content.
pub open spec fn user_blocks(blocks: Seq<JsonView>) -> (Seq<char>, Seq<ConversationItemView>)
    decreases blocks.len(),
{
    if blocks.len() == 0 {
        (Seq::empty(), Seq::empty())
    } else {
        user_block(user_blocks(blocks.drop_last()), blocks.last())
    }
}

/// The items for the content of a user message.
pub open spec fn user_items(content: Option<JsonView>) -> Result<
    Seq<ConversationItemView>,
    Seq<char>,
> {
    match content {
        None => Ok(Seq::empty()),
        Some(JsonView::Text(s)) => Ok(seq![ConversationItemView::User(s)]),
        Some(JsonView::List(blocks)) => Ok(
            user_blocks(blocks).1 + flushed(user_blocks(blocks).0),
        ),
        _ => Err("unsupported user content shape"@),
    }
}

/// Adds the items for the blocks of a user message.
fn push_user_blocks(blocks: &Vec<Json>, items: &mut Vec<ConversationItem>)
    requires
        forall|i: int| 0 <= i < blocks@.len() ==> (#[trigger] blocks@[i])@.wf(),
    ensures
        items_view(final(items)@) == items_view(old(items)@) + user_blocks(
            json::values(blocks@),
        ).1 + flushed(user_blocks(json::values(blocks@)).0),
{
    let ghost all = json::values(blocks@);
    let ghost start = items_view(items@);
    let mut gathered = String::new();
    let mut i: usize = 0;
    assert(gathered@ =~= user_blocks(all.take(0)).0);
    assert(items_view(items@) =~= start + user_blocks(all.take(0)).1);
    while i < blocks.len()
        invariant
            i <= blocks@.len(),
            all == json::values(blocks@),
            forall|j: int| 0 <= j < blocks@.len() ==> (#[trigger] blocks@[j])@.wf(),
            gathered@ == user_blocks(all.take(i as int)).0,
            items_view(items@) == start + user_blocks(all.take(i as int)).1,
        decreases blocks@.len() - i,
    {
        let ghost before = user_blocks(all.take(i as int));
        assert(all.take(i as int + 1).drop_last() =~= all.take(i as int));
        let block = &blocks[i];
        if type_is(block, "text") {
            append_piece(&mut gathered, block, Piece::Text);
        } else if type_is(block, "tool_result") {
            flush_text(gathered, items);
            gathered = String::new();
            assert(gathered@ =~= Seq::empty());
            let call_id = str_or(block.str_at("tool_use_id"), "tool_call");
            let output = tool_result_to_string(block.get("content"));
            add_item(items, ConversationItem::ToolResult { call_id, output });
            assert(items_view(items@) =~= start + user_block(before, block@).1);
        } else if type_is(block, "image") {
            gathered.append("[image omitted]");
        }
        i += 1;
    }
    assert(all.take(i as int) =~= all);
    flush_text(gathered, items);
}

/// Adds the items for the content of a user message.
fn push_user_content(content: Option<&Json>, items: &mut Vec<ConversationItem>) -> (r: Result<
    (),
    TranslateError,
>)
    requires
        content is Some ==> content->0@.wf(),
    ensures
        match r {
            Ok(_) => {
                &&& user_items(json::opt_json(content)) is Ok
                &&& items_view(final(items)@) == items_view(old(items)@) + user_items(
                    json::opt_json(content),
                )->Ok_0
            },
            Err(e) => user_items(json::opt_json(content)) == Err::<
                Seq<ConversationItemView>,
                Seq<char>,
            >(e.text()),
        },
{
    let ghost start = items_view(items@);
    let content = match content {
        Some(c) => c,
        None => {
            assert(start + Seq::<ConversationItemView>::empty() =~= start);
            return Ok(());
        },
    };
    match content {
        Json::Text(s) => {
            add_item(items, ConversationItem::User(s.clone()));
            assert(items_view(items@) =~= start + seq![ConversationItemView::User(s@)]);
            Ok(())
        },
        Json::List(_) => {
            if let Some(blocks) = content.as_list() {
                push_user_blocks(blocks, items);
                assert(items_view(items@) =~= start + user_items(Some(content@))->Ok_0);
            }
            Ok(())
        },
        _ => refuse("unsupported user content shape"),
    }
}

/// The text that a block of assistant content adds.
pub open spec fn assistant_text(blocks: Seq<JsonView>) -> Seq<char>
    decreases blocks.len(),
{
    if blocks.len() == 0 {
        Seq::empty()
    } else {
        assistant_text(blocks.drop_last()) + if blocks.last().text_at("type"@) == Some("text"@) {
            piece_of(blocks.last(), Piece::Text)
        } else {
            Seq::empty()
        }
    }
}

/// The reasoning item that a block of assistant content carries: thinking with
/// a signature of this bridge.
pub open spec fn block_reasoning(block: JsonView) -> Option<ReplayView> {
    if block.text_at("type"@) == Some("thinking"@) || block.text_at("type"@) == Some(
        "redacted_thinking"@,
    ) {
        match block.text_at("signature"@) {
            Some(sig) => reasoning_signature::replay_of(sig),
            None => None,
        }
    } else {
        None
    }
}

/// The reasoning items that blocks of assistant content carry.
pub open spec fn assistant_reasoning(blocks: Seq<JsonView>) -> Seq<ConversationItemView>
    decreases blocks.len(),
{
    if blocks.len() == 0 {
        Seq::empty()
    } else {
        let before = assistant_reasoning(blocks.drop_last());
        match block_reasoning(blocks.last()) {
            Some(r) => before.push(ConversationItemView::Reasoning(r)),
            None => before,
        }
    }
}

/// The call that a `tool_use` block stands for.
pub open spec fn block_call(block: JsonView) -> ToolCallView {
    ToolCallView {
        id: text_or(block.text_at("id"@), "tool_call"@),
        name: text_or(block.text_at("name"@), "tool"@),
        arguments: json::json_text(
            match block.get("input"@) {
                Some(input) => input,
                None => json::empty_object(),
            }.sorted(),
        ),
    }
}

/// The calls that blocks of assistant content stand for.
pub open spec fn assistant_calls(blocks: Seq<JsonView>) -> Seq<ToolCallView>
    decreases blocks.len(),
{
    if blocks.len() == 0 {
        Seq::empty()
    } else {
        let before = assistant_calls(blocks.drop_last());
        if blocks.last().text_at("type"@) == Some("tool_use"@) {
            before.push(block_call(blocks.last()))
        } else {
            before
        }
    }
}

/// The items for the content of an assistant message: the reasoning items, and
/// the tool calls or else the text.
pub open spec fn assistant_items(content: Option<JsonView>) -> Result<
    Seq<ConversationItemView>,
    Seq<char>,
> {
    match content {
        None => Ok(Seq::empty()),
        Some(JsonView::Text(s)) => Ok(seq![ConversationItemView::Assistant(s)]),
        Some(JsonView::List(blocks)) => Ok(
            assistant_reasoning(blocks) + if assistant_calls(blocks).len() > 0 {
                seq![ConversationItemView::AssistantToolCalls(assistant_calls(blocks))]
            } else if assistant_text(blocks).len() > 0 {
                seq![ConversationItemView::Assistant(assistant_text(blocks))]
            } else {
                Seq::empty()
            },
        ),
        _ => Err("unsupported assistant content shape"@),
    }
}

/// The call that a `tool_use` block stands for.
fn call_of_block(block: &Json) -> (r: ToolCall)
    requires
        block@.wf(),
    ensures
        r@ == block_call(block@),
{
    let id = str_or(block.str_at("id"), "tool_call");
    let name = str_or(block.str_at("name"), "tool");
    let arguments = match block.get("input") {
        Some(input) => input.to_text(),
        None => Json::object().to_text(),
    };
    ToolCall { id, name, arguments }
}

/// Adds the reasoning item that a thinking block carries.
fn push_reasoning(block: &Json, items: &mut Vec<ConversationItem>)
    requires
        block@.text_at("type"@) == Some("thinking"@) || block@.text_at("type"@) == Some(
            "redacted_thinking"@,
        ),
    ensures
        items_view(final(items)@) == match block_reasoning(block@) {
            Some(r) => items_view(old(items)@).push(ConversationItemView::Reasoning(r)),
            None => items_view(old(items)@),
        },
{
    if let Some(sig) = block.str_at("signature") {
        if let Some(replay) = decode_reasoning_signature(sig) {
            add_item(
                items,
                ConversationItem::Reasoning {
                    id: replay.id,
                    encrypted_content: replay.encrypted_content,
                },
            );
        }
    }
}

proof fn block_types_differ()
    ensures
        "text"@ != "thinking"@,
        "text"@ != "redacted_thinking"@,
        "text"@ != "tool_use"@,
        "thinking"@ != "tool_use"@,
        "redacted_thinking"@ != "tool_use"@,
{
    reveal_strlit("text");
    reveal_strlit("thinking");
    reveal_strlit("redacted_thinking");
    reveal_strlit("tool_use");
    assert("text"@.len() == 4 && "redacted_thinking"@.len() == 17);
    assert("thinking"@.len() == 8 && "tool_use"@.len() == 8);
    assert("thinking"@[1] == 'h' && "tool_use"@[1] == 'o');
}

/// Adds the items for the blocks of an assistant message.
fn push_assistant_blocks(blocks: &Vec<Json>, items: &mut Vec<ConversationItem>)
    requires
        forall|i: int| 0 <= i < blocks@.len() ==> (#[trigger] blocks@[i])@.wf(),
    ensures
        items_view(final(items)@) == items_view(old(items)@) + assistant_items(
            Some(JsonView::List(json::values(blocks@))),
        )->Ok_0,
{
    let ghost all = json::values(blocks@);
    let ghost start = items_view(items@);
    let mut said = String::new();
    let mut calls: Vec<ToolCall> = Vec::new();
    let mut i: usize = 0;
    assert(said@ =~= assistant_text(all.take(0)));
    assert(calls@.map_values(|c: ToolCall| c@) =~= assistant_calls(all.take(0)));
    assert(items_view(items@) =~= start + assistant_reasoning(all.take(0)));
    while i < blocks.len()
        invariant
            i <= blocks@.len(),
            all == json::values(blocks@),
            forall|j: int| 0 <= j < blocks@.len() ==> (#[trigger] blocks@[j])@.wf(),
            said@ == assistant_text(all.take(i as int)),
            calls@.map_values(|c: ToolCall| c@) == assistant_calls(all.take(i as int)),
            items_view(items@) == start + assistant_reasoning(all.take(i as int)),
        decreases blocks@.len() - i,
    {
        proof {
            block_types_differ();
        }
        let ghost said_before = said@;
        let ghost calls_before = calls@.map_values(|c: ToolCall| c@);
        assert(all.take(i as int + 1).drop_last() =~= all.take(i as int));
        assert(all.take(i as int + 1).last() == blocks@[i as int]@);
        let block = &blocks[i];
        if type_is(block, "text") {
            append_piece(&mut said, block, Piece::Text);
        } else if type_is(block, "thinking") || type_is(block, "redacted_thinking") {
            push_reasoning(block, items);
            assert(items_view(items@) =~= start + assistant_reasoning(all.take(i as int + 1)));
        } else if type_is(block, "tool_use") {
            let call = call_of_block(block);
            calls.push(call);
            assert(calls@.map_values(|c: ToolCall| c@) =~= calls_before.push(call@));
        }
        i += 1;
        assert(said@ =~= assistant_text(all.take(i as int)));
    }
    assert(all.take(i as int) =~= all);
    if calls.len() > 0 {
        add_item(items, ConversationItem::AssistantToolCalls(calls));
    } else if !said.as_str().is_empty() {
        add_item(items, ConversationItem::Assistant(said));
    }
    assert(items_view(items@) =~= start + assistant_items(Some(JsonView::List(all)))->Ok_0);
}

/// Adds the items for the content of an assistant message.
fn push_assistant_content(content: Option<&Json>, items: &mut Vec<ConversationItem>) -> (r: Result<
    (),
    TranslateError,
>)
    requires
        content is Some ==> content->0@.wf(),
    ensures
        match r {
            Ok(_) => {
                &&& assistant_items(json::opt_json(content)) is Ok
                &&& items_view(final(items)@) == items_view(old(items)@) + assistant_items(
                    json::opt_json(content),
                )->Ok_0
            },
            Err(e) => assistant_items(json::opt_json(content)) == Err::<
                Seq<ConversationItemView>,
                Seq<char>,
            >(e.text()),
        },
{
    let ghost start = items_view(items@);
    let content = match content {
        Some(c) => c,
        None => {
            assert(start + Seq::<ConversationItemView>::empty() =~= start);
            return Ok(());
        },
    };
    match content {
        Json::Text(s) => {
            add_item(items, ConversationItem::Assistant(s.clone()));
            assert(items_view(items@) =~= start + seq![ConversationItemView::Assistant(s@)]);
            Ok(())
        },
        Json::List(_) => {
            if let Some(blocks) = content.as_list() {
                push_assistant_blocks(blocks, items);
            }
            Ok(())
        },
        _ => refuse("unsupported assistant content shape"),
    }
}

/// A system item for a text, where there is any.
pub open spec fn system_item(s: Option<Seq<char>>) -> Seq<ConversationItemView> {
    match s {
        Some(s) if s.len() > 0 => seq![ConversationItemView::System(s)],
        _ => Seq::empty(),
    }
}

fn push_system(s: Option<String>, items: &mut Vec<ConversationItem>)
    ensures
        items_view(final(items)@) == items_view(old(items)@) + system_item(text::opt_string(s)),
{
    let ghost start = items_view(items@);
    if let Some(s) = s {
        if !s.as_str().is_empty() {
            add_item(items, ConversationItem::System(s));
        }
    }
    assert(items_view(items@) =~= start + system_item(text::opt_string(s)));
}

/// The items for a message.
pub open spec fn message_items(msg: JsonView) -> Result<Seq<ConversationItemView>, Seq<char>> {
    match msg.text_at("role"@) {
        None => Err("message missing role"@),
        Some(role) => if role == "system"@ {
            match plain_text(msg.get("content"@)) {
                Ok(s) => Ok(system_item(s)),
                Err(e) => Err(e),
            }
        } else if role == "user"@ {
            user_items(msg.get("content"@))
        } else if role == "assistant"@ {
            assistant_items(msg.get("content"@))
        } else {
            Err("unsupported message role: "@ + role)
        },
    }
}

/// Adds the items for a message.
fn push_message(msg: &Json, items: &mut Vec<ConversationItem>) -> (r: Result<(), TranslateError>)
    requires
        msg@.wf(),
    ensures
        match r {
            Ok(_) => {
                &&& message_items(msg@) is Ok
                &&& items_view(final(items)@) == items_view(old(items)@) + message_items(msg@)->Ok_0
            },
            Err(e) => message_items(msg@) == Err::<Seq<ConversationItemView>, Seq<char>>(e.text()),
        },
{
    let role = match msg.str_at("role") {
        Some(role) => role,
        None => return refuse("message missing role"),
    };
    if text::same(role, "system") {
        match content_to_plain_text(msg.get("content")) {
            Ok(s) => {
                push_system(s, items);
                Ok(())
            },
            Err(e) => Err(e),
        }
    } else if text::same(role, "user") {
        push_user_content(msg.get("content"), items)
    } else if text::same(role, "assistant") {
        push_assistant_content(msg.get("content"), items)
    } else {
        refuse(text::join("unsupported message role: ", role).as_str())
    }
}

/// The items for messages; the first error where there is one.
pub open spec fn messages_items(messages: Seq<JsonView>) -> Result<
    Seq<ConversationItemView>,
    Seq<char>,
>
    decreases messages.len(),
{
    if messages.len() == 0 {
        Ok(Seq::empty())
    } else {
        match messages_items(messages.drop_last()) {
            Ok(items) => match message_items(messages.last()) {
                Ok(more) => Ok(items + more),
                Err(e) => Err(e),
            },
            Err(e) => Err(e),
        }
    }
}

/// An error among the first messages is the error of all.
proof fn first_error_stays(messages: Seq<JsonView>, n: int)
    requires
        0 <= n <= messages.len(),
        messages_items(messages.take(n)) is Err,
    ensures
        messages_items(messages) == messages_items(messages.take(n)),
    decreases messages.len() - n,
{
    if n < messages.len() {
        assert(messages.take(n + 1).drop_last() =~= messages.take(n));
        first_error_stays(messages, n + 1);
    } else {
        assert(messages.take(n) =~= messages);
    }
}

/// Adds the items for messages.
fn push_messages(messages: &Vec<Json>, items: &mut Vec<ConversationItem>) -> (r: Result<
    (),
    TranslateError,
>)
    requires
        forall|i: int| 0 <= i < messages@.len() ==> (#[trigger] messages@[i])@.wf(),
    ensures
        match r {
            Ok(_) => {
                &&& messages_items(json::values(messages@)) is Ok
                &&& items_view(final(items)@) == items_view(old(items)@) + messages_items(
                    json::values(messages@),
                )->Ok_0
            },
            Err(e) => messages_items(json::values(messages@)) == Err::<
                Seq<ConversationItemView>,
                Seq<char>,
            >(e.text()),
        },
{
    let ghost all = json::values(messages@);
    let ghost start = items_view(items@);
    let mut i: usize = 0;
    assert(all.take(0) =~= Seq::empty());
    assert(items_view(items@) =~= start + messages_items(all.take(0))->Ok_0);
    while i < messages.len()
        invariant
            i <= messages@.len(),
            all == json::values(messages@),
            forall|j: int| 0 <= j < messages@.len() ==> (#[trigger] messages@[j])@.wf(),
            messages_items(all.take(i as int)) is Ok,
            items_view(items@) == start + messages_items(all.take(i as int))->Ok_0,
        decreases messages@.len() - i,
    {
        assert(all.take(i as int + 1).drop_last() =~= all.take(i as int));
        assert(all.take(i as int + 1).last() == messages@[i as int]@);
        match push_message(&messages[i], items) {
            Ok(_) => {},
            Err(e) => {
                proof {
                    first_error_stays(all, i as int + 1);
                }
                return Err(e);
            },
        }
        assert(items_view(items@) =~= start + messages_items(all.take(i as int + 1))->Ok_0);
        i += 1;
    }
    assert(all.take(i as int) =~= all);
    Ok(())
}

/// The texts among the values of a list.
pub open spec fn texts_among(items: Seq<JsonView>) -> Seq<Seq<char>>
    decreases items.len(),
{
    if items.len() == 0 {
        Seq::empty()
    } else {
        let before = texts_among(items.drop_last());
        match items.last().as_text() {
            Some(s) => before.push(s),
            None => before,
        }
    }
}

/// The domains that a web search is limited to.
pub open spec fn allowed_domains(tool: JsonView) -> Option<Seq<Seq<char>>> {
    match tool.get("allowed_domains"@) {
        Some(JsonView::List(items)) => Some(texts_among(items)),
        _ => None,
    }
}

/// What is made of a tool.
pub ghost enum ToolPlan {
    Hosted(HostedToolView),
    Function(ToolSpecView),
    /// A tool without a name.
    Dropped,
}

/// What is made of a tool: web and X searches are hosted, any other tool that
/// has a name is a function of the client.
pub open spec fn tool_plan(tool: JsonView) -> ToolPlan {
    let name = text_or(tool.text_at("name"@), ""@);
    let ty = text_or(tool.text_at("type"@), "custom"@);
    if name == "WebSearch"@ || "web_search"@.is_prefix_of(name) || text::occurs(
        "web_search"@,
        ty,
    ) {
        ToolPlan::Hosted(HostedToolView::WebSearch(allowed_domains(tool)))
    } else if name == "XSearch"@ || "x_search"@.is_prefix_of(name) || text::occurs(
        "x_search"@,
        ty,
    ) {
        ToolPlan::Hosted(HostedToolView::XSearch)
    } else if name.len() == 0 {
        ToolPlan::Dropped
    } else {
        ToolPlan::Function(
            ToolSpecView {
                name,
                description: tool.text_at("description"@),
                parameters: match tool.get("input_schema"@) {
                    Some(v) => v,
                    None => match tool.get("parameters"@) {
                        Some(v) => v,
                        None => json::typed_object("object"@).with(
                            "properties"@,
                            json::empty_object(),
                        ),
                    },
                },
            },
        )
    }
}

/// The function tools among tools, in order.
pub open spec fn function_tools(tools: Seq<JsonView>) -> Seq<ToolSpecView>
    decreases tools.len(),
{
    if tools.len() == 0 {
        Seq::empty()
    } else {
        let before = function_tools(tools.drop_last());
        match tool_plan(tools.last()) {
            ToolPlan::Function(t) => before.push(t),
            _ => before,
        }
    }
}

/// The hosted tools among tools, in order.
pub open spec fn hosted_tools(tools: Seq<JsonView>) -> Seq<HostedToolView>
    decreases tools.len(),
{
    if tools.len() == 0 {
        Seq::empty()
    } else {
        let before = hosted_tools(tools.drop_last());
        match tool_plan(tools.last()) {
            ToolPlan::Hosted(t) => before.push(t),
            _ => before,
        }
    }
}

/// The tools of a request; none where they are not a list.
pub open spec fn tools_list(tools: Option<JsonView>) -> Seq<JsonView> {
    match tools {
        Some(JsonView::List(items)) => items,
        _ => Seq::empty(),
    }
}

fn domains_of(tool: &Json) -> (r: Option<Vec<String>>)
    ensures
        match r {
            Some(v) => allowed_domains(tool@) == Some(texts_of(v@)),
            None => allowed_domains(tool@) is None,
        },
{
    let items = match tool.get("allowed_domains") {
        Some(v) => match v.as_list() {
            Some(items) => items,
            None => return None,
        },
        None => return None,
    };
    let ghost all = json::values(items@);
    let mut out: Vec<String> = Vec::new();
    let mut i: usize = 0;
    assert(texts_of(out@) =~= texts_among(all.take(0)));
    while i < items.len()
        invariant
            i <= items@.len(),
            all == json::values(items@),
            texts_of(out@) == texts_among(all.take(i as int)),
        decreases items@.len() - i,
    {
        let ghost before = texts_of(out@);
        assert(all.take(i as int + 1).drop_last() =~= all.take(i as int));
        assert(all.take(i as int + 1).last() == items@[i as int]@);
        if let Some(s) = items[i].as_str() {
            out.push(s.to_owned());
            assert(texts_of(out@) =~= before.push(s@));
        }
        i += 1;
    }
    assert(all.take(i as int) =~= all);
    Some(out)
}

/// What is made of a tool.
enum PlannedTool {
    Hosted(HostedTool),
    Function(ToolSpec),
    Dropped,
}

impl View for PlannedTool {
    type V = ToolPlan;

    closed spec fn view(&self) -> ToolPlan {
        match self {
            PlannedTool::Hosted(t) => ToolPlan::Hosted(t@),
            PlannedTool::Function(t) => ToolPlan::Function(t@),
            PlannedTool::Dropped => ToolPlan::Dropped,
        }
    }
}

fn plan_tool(tool: &Json) -> (r: PlannedTool)
    requires
        tool@.wf(),
    ensures
        r@ == tool_plan(tool@),
        r matches PlannedTool::Function(t) ==> t.parameters@.wf(),
{
    let name = str_or(tool.str_at("name"), "");
    let ty = str_or(tool.str_at("type"), "custom");
    if text::same(name.as_str(), "WebSearch") || text::starts_with(name.as_str(), "web_search")
        || text::contains(ty.as_str(), "web_search") {
        PlannedTool::Hosted(HostedTool::WebSearch { allowed_domains: domains_of(tool) })
    } else if text::same(name.as_str(), "XSearch") || text::starts_with(name.as_str(), "x_search")
        || text::contains(ty.as_str(), "x_search") {
        PlannedTool::Hosted(HostedTool::XSearch)
    } else if name.as_str().is_empty() {
        PlannedTool::Dropped
    } else {
        let description = match tool.str_at("description") {
            Some(d) => Some(d.to_owned()),
            None => None,
        };
        let parameters = match tool.get("input_schema") {
            Some(v) => v.duplicate(),
            None => match tool.get("parameters") {
                Some(v) => v.duplicate(),
                None => Json::typed("object").with("properties", Json::object()),
            },
        };
        PlannedTool::Function(ToolSpec { name, description, parameters })
    }
}

/// Sorts tools into functions of the client and hosted ones.
fn parse_tools(tools: Option<&Json>) -> (r: (Vec<ToolSpec>, Vec<HostedTool>))
    requires
        tools is Some ==> tools->0@.wf(),
    ensures
        parameters_wf(r.0@),
        r.0@.map_values(|t: ToolSpec| t@) == function_tools(tools_list(json::opt_json(tools))),
        r.1@.map_values(|t: HostedTool| t@) == hosted_tools(tools_list(json::opt_json(tools))),
{
    let mut functions: Vec<ToolSpec> = Vec::new();
    let mut hosted: Vec<HostedTool> = Vec::new();
    let ghost all = tools_list(json::opt_json(tools));
    assert(functions@.map_values(|t: ToolSpec| t@) =~= function_tools(all.take(0)));
    assert(hosted@.map_values(|t: HostedTool| t@) =~= hosted_tools(all.take(0)));
    let items = match tools {
        Some(v) => match v.as_list() {
            Some(items) => items,
            None => {
                assert(all.take(0) =~= all);
                return (functions, hosted);
            },
        },
        None => {
            assert(all.take(0) =~= all);
            return (functions, hosted);
        },
    };
    assert(all == json::values(items@));
    let mut i: usize = 0;
    while i < items.len()
        invariant
            i <= items@.len(),
            all == json::values(items@),
            functions@.map_values(|t: ToolSpec| t@) == function_tools(all.take(i as int)),
            hosted@.map_values(|t: HostedTool| t@) == hosted_tools(all.take(i as int)),
            forall|j: int| 0 <= j < items@.len() ==> (#[trigger] items@[j])@.wf(),
            parameters_wf(functions@),
        decreases items@.len() - i,
    {
        let ghost f = functions@.map_values(|t: ToolSpec| t@);
        let ghost h = hosted@.map_values(|t: HostedTool| t@);
        assert(all.take(i as int + 1).drop_last() =~= all.take(i as int));
        assert(all.take(i as int + 1).last() == items@[i as int]@);
        match plan_tool(&items[i]) {
            PlannedTool::Hosted(t) => {
                hosted.push(t);
                assert(hosted@.map_values(|t: HostedTool| t@) =~= h.push(t@));
            },
            PlannedTool::Function(t) => {
                functions.push(t);
                assert(functions@.map_values(|t: ToolSpec| t@) =~= f.push(t@));
            },
            PlannedTool::Dropped => {},
        }
        i += 1;
    }
    assert(all.take(i as int) =~= all);
    (functions, hosted)
}

/// The choice that a name stands for.
pub open spec fn named_choice(s: Seq<char>) -> Option<ToolChoiceView> {
    if s == "auto"@ {
        Some(ToolChoiceView::Auto)
    } else if s == "none"@ {
        Some(ToolChoiceView::Never)
    } else if s == "any"@ {
        Some(ToolChoiceView::Required)
    } else {
        None
    }
}

/// What is made of `tool_choice`.
pub open spec fn tool_choice(v: Option<JsonView>) -> Option<ToolChoiceView> {
    match v {
        None => None,
        Some(JsonView::Text(s)) => if s == "required"@ {
            Some(ToolChoiceView::Required)
        } else {
            named_choice(s)
        },
        Some(v) => match v.text_at("type"@) {
            Some(ty) => if ty == "tool"@ {
                match v.text_at("name"@) {
                    Some(name) => Some(ToolChoiceView::Function(name)),
                    None => None,
                }
            } else {
                named_choice(ty)
            },
            None => None,
        },
    }
}

fn choice_named(s: &str) -> (r: Option<ConversationToolChoice>)
    ensures
        opt_choice(r) == named_choice(s@),
{
    if text::same(s, "auto") {
        Some(ConversationToolChoice::Auto)
    } else if text::same(s, "none") {
        Some(ConversationToolChoice::Never)
    } else if text::same(s, "any") {
        Some(ConversationToolChoice::Required)
    } else {
        None
    }
}

/// The value of an optional choice.
pub open spec fn opt_choice(c: Option<ConversationToolChoice>) -> Option<ToolChoiceView> {
    match c {
        Some(c) => Some(c@),
        None => None,
    }
}

/// Reads `tool_choice`.
fn parse_tool_choice(v: Option<&Json>) -> (r: Option<ConversationToolChoice>)
    ensures
        opt_choice(r) == tool_choice(json::opt_json(v)),
{
    let v = match v {
        Some(v) => v,
        None => return None,
    };
    if let Some(s) = v.as_str() {
        if text::same(s, "required") {
            return Some(ConversationToolChoice::Required);
        }
        return choice_named(s);
    }
    match v.str_at("type") {
        Some(ty) => if text::same(ty, "tool") {
            match v.str_at("name") {
                Some(name) => Some(ConversationToolChoice::Function(name.to_owned())),
                None => None,
            }
        } else {
            choice_named(ty)
        },
        None => None,
    }
}

/// The effort that a name stands for.
pub open spec fn named_effort(s: Seq<char>) -> Option<ReasoningEffort> {
    if s == "none"@ {
        Some(ReasoningEffort::Off)
    } else if s == "minimal"@ || s == "low"@ {
        Some(ReasoningEffort::Low)
    } else if s == "medium"@ {
        Some(ReasoningEffort::Medium)
    } else if s == "high"@ {
        Some(ReasoningEffort::High)
    } else if s == "xhigh"@ || s == "max"@ {
        Some(ReasoningEffort::Xhigh)
    } else {
        None
    }
}

/// Reads the name of an effort.
fn parse_effort(s: &str) -> (r: Option<ReasoningEffort>)
    ensures
        r == named_effort(s@),
{
    if text::same(s, "none") {
        Some(ReasoningEffort::Off)
    } else if text::same(s, "minimal") || text::same(s, "low") {
        Some(ReasoningEffort::Low)
    } else if text::same(s, "medium") {
        Some(ReasoningEffort::Medium)
    } else if text::same(s, "high") {
        Some(ReasoningEffort::High)
    } else if text::same(s, "xhigh") || text::same(s, "max") {
        Some(ReasoningEffort::Xhigh)
    } else {
        None
    }
}

/// The text of the member `inner` of the object member `outer`.
pub open spec fn nested_text(v: JsonView, outer: Seq<char>, inner: Seq<char>) -> Option<Seq<char>> {
    match v.get(outer) {
        Some(o) => o.text_at(inner),
        None => None,
    }
}

/// The model that a request asks for.
pub open spec fn model_of(body: JsonView, default_model: Seq<char>) -> Seq<char> {
    match body.text_at("model"@) {
        Some(m) => if without_context_suffix(m).len() > 0 {
            without_context_suffix(m)
        } else {
            default_model
        },
        None => default_model,
    }
}

/// The number at a member.
pub open spec fn number_at(v: JsonView, key: Seq<char>) -> Option<JsonNumber> {
    match v.get(key) {
        Some(JsonView::Number(n)) => Some(n),
        _ => None,
    }
}

/// The limit on output tokens, of which the low 32 bits are kept.
pub open spec fn max_tokens_of(body: JsonView) -> Option<int> {
    match body.get("max_tokens"@) {
        Some(v) => match v.as_unsigned() {
            Some(n) => Some(n as int % 0x1_0000_0000),
            None => None,
        },
        None => None,
    }
}

/// The items of a conversation: the system text and the messages. The system
/// text is judged first, then whether the messages are a list, then each
/// message.
pub open spec fn conversation_items(body: JsonView) -> Result<
    Seq<ConversationItemView>,
    Seq<char>,
> {
    let system = match body.get("system"@) {
        Some(v) => system_text(v),
        None => Ok(None),
    };
    match system {
        Err(e) => Err(e),
        Ok(s) => match body.get("messages"@) {
            Some(JsonView::List(messages)) => match messages_items(messages) {
                Ok(items) => Ok(system_item(s) + items),
                Err(e) => Err(e),
            },
            _ => Err("messages must be an array"@),
        },
    }
}

/// The conversation that a request stands for.
pub open spec fn translated(
    body: JsonView,
    epoch: EpochView,
    default_model: Seq<char>,
    req_id: Seq<char>,
) -> Result<RequestView, Seq<char>> {
    match conversation_items(body) {
        Err(e) => Err(e),
        Ok(items) => Ok(
            RequestView {
                items,
                tools: function_tools(tools_list(body.get("tools"@))),
                hosted_tools: hosted_tools(tools_list(body.get("tools"@))),
                tool_choice: tool_choice(body.get("tool_choice"@)),
                model: Some(model_of(body, default_model)),
                temperature: number_at(body, "temperature"@),
                max_output_tokens: max_tokens_of(body),
                top_p: number_at(body, "top_p"@),
                x_grok_conv_id: Some(epoch.conv_id),
                x_grok_req_id: Some(req_id),
                x_grok_session_id: Some(epoch.grok_session_id),
                x_grok_turn_idx: Some(text::decimal(epoch.turn as nat)),
                x_grok_agent_id: Some("anthropic-bridge"@),
                x_grok_deployment_id: None,
                x_grok_user_id: None,
                reasoning_effort: match nested_text(body, "output_config"@, "effort"@) {
                    Some(s) => named_effort(s),
                    None => None,
                },
            },
        ),
    }
}

fn number_in(v: &Json, key: &str) -> (r: Option<JsonNumber>)
    ensures
        r == number_at(v@, key@),
{
    match v.get(key) {
        Some(Json::Number(n)) => Some(n.duplicate()),
        _ => None,
    }
}

fn max_tokens_in(body: &Json) -> (r: Option<u32>)
    ensures
        match r {
            Some(n) => max_tokens_of(body@) == Some(n as int),
            None => max_tokens_of(body@) is None,
        },
{
    match body.get("max_tokens") {
        Some(v) => match v.as_u64() {
            Some(n) => {
                assert(n as u32 == n % 0x1_0000_0000) by (bit_vector);
                Some(
                    #[verifier::truncate]
                    (n as u32),
                )
            },
            None => None,
        },
        None => None,
    }
}

fn model_in(body: &Json, default_model: &str) -> (r: String)
    ensures
        r@ == model_of(body@, default_model@),
{
    if let Some(m) = body.str_at("model") {
        let stripped = strip_context_suffix(m);
        if !stripped.as_str().is_empty() {
            return stripped;
        }
    }
    default_model.to_owned()
}

fn items_in(body: &Json) -> (r: Result<Vec<ConversationItem>, TranslateError>)
    requires
        body@.wf(),
    ensures
        match r {
            Ok(items) => conversation_items(body@) == Ok::<Seq<ConversationItemView>, Seq<char>>(
                items_view(items@),
            ),
            Err(e) => conversation_items(body@) == Err::<Seq<ConversationItemView>, Seq<char>>(
                e.text(),
            ),
        },
{
    let mut items: Vec<ConversationItem> = Vec::new();
    assert(items_view(items@) =~= Seq::empty());
    let system = match body.get("system") {
        Some(v) => match system_to_text(v) {
            Ok(s) => s,
            Err(e) => return Err(e),
        },
        None => None,
    };
    push_system(system, &mut items);
    assert(items_view(items@) =~= system_item(text::opt_string(system)));
    let messages = match body.get("messages") {
        Some(v) => match v.as_list() {
            Some(m) => m,
            None => return refuse("messages must be an array"),
        },
        None => return refuse("messages must be an array"),
    };
    match push_messages(messages, &mut items) {
        Ok(_) => Ok(items),
        Err(e) => Err(e),
    }
}

/// Translates the body of an Anthropic `/v1/messages` request.
pub fn translate_messages_request(
    body: &Json,
    epoch: &SessionEpoch,
    default_model: &str,
    req_id: &str,
) -> (r: Result<ConversationRequest, TranslateError>)
    requires
        body@.wf(),
    ensures
        match r {
            Ok(req) => req.wf() && translated(body@, epoch@, default_model@, req_id@) == Ok::<
                RequestView,
                Seq<char>,
            >(req@),
            Err(e) => translated(body@, epoch@, default_model@, req_id@) == Err::<
                RequestView,
                Seq<char>,
            >(e.text()),
        },
{
    let model = model_in(body, default_model);
    let items = match items_in(body) {
        Ok(items) => items,
        Err(e) => return Err(e),
    };
    let (tools, hosted_tools) = parse_tools(body.get("tools"));
    let tool_choice = parse_tool_choice(body.get("tool_choice"));
    let reasoning_effort = match body.get("output_config") {
        Some(c) => match c.str_at("effort") {
            Some(s) => parse_effort(s),
            None => None,
        },
        None => None,
    };
    Ok(
        ConversationRequest {
            items,
            tools,
            hosted_tools,
            tool_choice,
            model: Some(model),
            temperature: number_in(body, "temperature"),
            max_output_tokens: max_tokens_in(body),
            top_p: number_in(body, "top_p"),
            x_grok_conv_id: Some(epoch.conv_id.clone()),
            x_grok_req_id: Some(req_id.to_owned()),
            x_grok_session_id: Some(epoch.grok_session_id.clone()),
            x_grok_turn_idx: Some(text::to_decimal(epoch.turn)),
            x_grok_agent_id: Some("anthropic-bridge".to_owned()),
            x_grok_deployment_id: None,
            x_grok_user_id: None,
            reasoning_effort,
        },
    )
}

/// A conversation that goes on keeps its beginning: the items of earlier
/// messages do not depend on what follows them.
pub proof fn earlier_messages_keep_their_items(earlier: Seq<JsonView>, later: Seq<JsonView>)
    requires
        messages_items(earlier) is Ok,
        messages_items(later) is Ok,
    ensures
        messages_items(earlier + later) == Ok::<Seq<ConversationItemView>, Seq<char>>(
            messages_items(earlier)->Ok_0 + messages_items(later)->Ok_0,
        ),
    decreases later.len(),
{
    let all = earlier + later;
    if later.len() == 0 {
        assert(all =~= earlier);
        assert(messages_items(earlier)->Ok_0 + messages_items(later)->Ok_0 =~= messages_items(
            earlier,
        )->Ok_0);
    } else {
        earlier_messages_keep_their_items(earlier, later.drop_last());
        assert(all.drop_last() =~= earlier + later.drop_last());
        assert(all.last() == later.last());
        assert(messages_items(all)->Ok_0 =~= messages_items(earlier)->Ok_0 + messages_items(
            later,
        )->Ok_0);
    }
}

/// A refusal names the first message that cannot be translated: what follows it
/// does not matter.
pub proof fn the_first_faulty_message_is_refused(earlier: Seq<JsonView>, later: Seq<JsonView>)
    requires
        messages_items(earlier) is Err,
    ensures
        messages_items(earlier + later) == messages_items(earlier),
{
    assert((earlier + later).take(earlier.len() as int) =~= earlier);
    first_error_stays(earlier + later, earlier.len() as int);
}

/// Tools depend on the tools of the request alone, not on what is said in it.
pub proof fn tools_depend_on_tools_alone(
    a: JsonView,
    b: JsonView,
    epochs: (EpochView, EpochView),
    default_models: (Seq<char>, Seq<char>),
    req_ids: (Seq<char>, Seq<char>),
)
    requires
        a.get("tools"@) == b.get("tools"@),
        translated(a, epochs.0, default_models.0, req_ids.0) is Ok,
        translated(b, epochs.1, default_models.1, req_ids.1) is Ok,
    ensures
        ({
            let from_a = translated(a, epochs.0, default_models.0, req_ids.0)->Ok_0;
            let from_b = translated(b, epochs.1, default_models.1, req_ids.1)->Ok_0;
            from_a.tools == from_b.tools && from_a.hosted_tools == from_b.hosted_tools
        }),
{
}

/// Every tool but one without a name comes out once, as a function or hosted.
pub proof fn every_tool_is_kept_once(tools: Seq<JsonView>)
    requires
        forall|i: int| 0 <= i < tools.len() ==> !(tool_plan(#[trigger] tools[i]) is Dropped),
    ensures
        function_tools(tools).len() + hosted_tools(tools).len() == tools.len(),
    decreases tools.len(),
{
    if tools.len() > 0 {
        let earlier = tools.drop_last();
        assert forall|i: int| 0 <= i < earlier.len() implies !(tool_plan(
            #[trigger] earlier[i],
        ) is Dropped) by {
            assert(earlier[i] == tools[i]);
        }
        every_tool_is_kept_once(earlier);
        assert(!(tool_plan(tools[tools.len() - 1]) is Dropped));
    }
}

/// Thinking that comes back with a signature of this bridge becomes the
/// reasoning item that the signature carries, and nothing else.
pub proof fn signed_thinking_is_handed_back(block: JsonView, sig: Seq<char>, item: ReplayView)
    requires
        block.text_at("type"@) == Some("thinking"@) || block.text_at("type"@) == Some(
            "redacted_thinking"@,
        ),
        block.text_at("signature"@) == Some(sig),
        reasoning_signature::replay_of(sig) == Some(item),
    ensures
        assistant_items(Some(JsonView::List(seq![block]))) == Ok::<
            Seq<ConversationItemView>,
            Seq<char>,
        >(seq![ConversationItemView::Reasoning(item)]),
{
    block_types_differ();
    let blocks = seq![block];
    reveal_with_fuel(assistant_reasoning, 2);
    reveal_with_fuel(assistant_text, 2);
    reveal_with_fuel(assistant_calls, 2);
    assert(blocks.last() == block);
    assert(assistant_reasoning(blocks) =~= seq![ConversationItemView::Reasoning(item)]);
    assert(assistant_text(blocks) =~= Seq::empty());
    assert(assistant_calls(blocks) =~= Seq::empty());
    assert(assistant_items(Some(JsonView::List(blocks)))->Ok_0 =~= seq![
        ConversationItemView::Reasoning(item),
    ]);
}

} // verus!
