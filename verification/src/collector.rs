//! One message made of a whole response stream, for clients that do not stream.

use vstd::prelude::*;

use crate::json;
use crate::json::{Json, JsonView};
use crate::sse;
use crate::text;
use crate::translate::lifecycle;
use crate::translate::lifecycle::BlockKind;
use crate::translate::stream::{AnthropicOut, OutView};
use crate::wire;

verus! {

/// A tool call as far as it was collected.
pub struct ToolBlock {
    id: String,
    name: String,
    /// JSON text of the input, once some of it came.
    input: Option<String>,
}

/// The mathematical value of a [`ToolBlock`].
pub ghost struct ToolBlockView {
    pub id: Seq<char>,
    pub name: Seq<char>,
    pub input: Option<Seq<char>>,
}

impl View for ToolBlock {
    type V = ToolBlockView;

    closed spec fn view(&self) -> ToolBlockView {
        ToolBlockView { id: self.id@, name: self.name@, input: text::opt_string(self.input) }
    }
}

/// A message as far as it was collected.
pub ghost struct CollectorView {
    pub text: Seq<char>,
    pub thinking: Seq<char>,
    pub signature: Option<Seq<char>>,
    pub tools: Seq<ToolBlockView>,
    pub stop_reason: Seq<char>,
    pub input_tokens: u64,
    pub output_tokens: u64,
}

impl CollectorView {
    /// Before the first event.
    pub open spec fn initial() -> CollectorView {
        CollectorView {
            text: Seq::empty(),
            thinking: Seq::empty(),
            signature: None,
            tools: Seq::empty(),
            stop_reason: "end_turn"@,
            input_tokens: 0,
            output_tokens: 0,
        }
    }

    /// The message with an event collected; the error where it is one. Tool
    /// input goes to the call that began last.
    pub open spec fn collect(self, out: OutView) -> Result<CollectorView, Seq<char>> {
        match out {
            OutView::TextDelta { text, .. } => Ok(
                CollectorView { text: self.text + text, ..self },
            ),
            OutView::ThinkingDelta { text, .. } => Ok(
                CollectorView { thinking: self.thinking + text, ..self },
            ),
            OutView::ThinkingSignature { signature, .. } => Ok(
                CollectorView { signature: Some(signature), ..self },
            ),
            OutView::ToolUseStart { id, name, .. } => Ok(
                CollectorView {
                    tools: self.tools.push(ToolBlockView { id, name, input: None }),
                    stop_reason: "tool_use"@,
                    ..self
                },
            ),
            OutView::ToolUseDelta { partial_json, .. } => Ok(
                CollectorView {
                    tools: if self.tools.len() > 0 {
                        let last = self.tools.last();
                        self.tools.drop_last().push(
                            ToolBlockView {
                                input: Some(
                                    match last.input {
                                        Some(s) => s + partial_json,
                                        None => partial_json,
                                    },
                                ),
                                ..last
                            },
                        )
                    } else {
                        self.tools
                    },
                    ..self
                },
            ),
            OutView::MessageDelta { stop_reason, input_tokens, output_tokens } => Ok(
                CollectorView {
                    stop_reason: match stop_reason {
                        Some(s) => s,
                        None => self.stop_reason,
                    },
                    input_tokens: match input_tokens {
                        Some(n) => n,
                        None => self.input_tokens,
                    },
                    output_tokens: match output_tokens {
                        Some(n) => n,
                        None => self.output_tokens,
                    },
                    ..self
                },
            ),
            OutView::Error { message } => Err(message),
            _ => Ok(self),
        }
    }

    /// The message with these events collected; the first error where there is
    /// one.
    pub open spec fn collect_all(self, outs: Seq<OutView>) -> Result<CollectorView, Seq<char>>
        decreases outs.len(),
    {
        if outs.len() == 0 {
            Ok(self)
        } else {
            match self.collect_all(outs.drop_last()) {
                Ok(c) => c.collect(outs.last()),
                Err(e) => Err(e),
            }
        }
    }
}

/// What a tool input was read as, where it could be read.
pub open spec fn input_of(b: ToolBlockView) -> Option<JsonView> {
    match b.input {
        Some(s) => json::json_parse(s),
        None => None,
    }
}

/// The content block of a tool call with this input; an input that could not be
/// read counts as empty.
pub open spec fn tool_value(id: Seq<char>, name: Seq<char>, input: Option<JsonView>) -> JsonView {
    json::typed_object("tool_use"@).with("id"@, json::text_value(id)).with(
        "name"@,
        json::text_value(name),
    ).with(
        "input"@,
        match input {
            Some(v) => v,
            None => json::empty_object(),
        },
    )
}

/// The content blocks of tool calls.
pub open spec fn tool_values(tools: Seq<ToolBlockView>) -> Seq<JsonView> {
    tools.map_values(|b: ToolBlockView| tool_value(b.id, b.name, input_of(b)))
}

/// The content of the collected message: the thinking and the text, where there
/// is any, and the tool calls.
pub open spec fn content_of(c: CollectorView) -> Seq<JsonView> {
    let thinking = if c.thinking.len() > 0 || c.signature is Some {
        seq![
            json::typed_object("thinking"@).with("thinking"@, json::text_value(c.thinking)).with(
                "signature"@,
                json::text_value(
                    match c.signature {
                        Some(s) => s,
                        None => Seq::empty(),
                    },
                ),
            ),
        ]
    } else {
        Seq::empty()
    };
    let said = if c.text.len() > 0 {
        seq![json::typed_object("text"@).with("text"@, json::text_value(c.text))]
    } else {
        Seq::empty()
    };
    thinking + said + tool_values(c.tools)
}

/// The collected message.
pub open spec fn message_value(c: CollectorView, req_id: Seq<char>, model: Seq<char>) -> JsonView {
    json::empty_object().with("id"@, json::text_value("msg_"@ + req_id)).with(
        "type"@,
        json::text_value("message"@),
    ).with("role"@, json::text_value("assistant"@)).with(
        "content"@,
        JsonView::List(content_of(c)),
    ).with("model"@, json::text_value(model)).with(
        "stop_reason"@,
        json::text_value(c.stop_reason),
    ).with("stop_sequence"@, JsonView::Null).with(
        "usage"@,
        sse::usage_value(Some(c.input_tokens), Some(c.output_tokens)),
    )
}

/// Collects a response stream into one message.
pub struct MessageCollector {
    said: String,
    thinking: String,
    signature: Option<String>,
    tools: Vec<ToolBlock>,
    stop_reason: String,
    input_tokens: u64,
    output_tokens: u64,
}

spec fn blocks_view(tools: Seq<ToolBlock>) -> Seq<ToolBlockView> {
    tools.map_values(|b: ToolBlock| b@)
}

impl View for MessageCollector {
    type V = CollectorView;

    closed spec fn view(&self) -> CollectorView {
        CollectorView {
            text: self.said@,
            thinking: self.thinking@,
            signature: text::opt_string(self.signature),
            tools: blocks_view(self.tools@),
            stop_reason: self.stop_reason@,
            input_tokens: self.input_tokens,
            output_tokens: self.output_tokens,
        }
    }
}

/// The content block of a tool call with this input.
pub fn tool_block_value(id: &str, name: &str, input: Option<Json>) -> (r: Json)
    requires
        input is Some ==> input->0@.wf(),
    ensures
        r@ == tool_value(
            id@,
            name@,
            match input {
                Some(v) => Some(v@),
                None => None,
            },
        ),
        r@.wf(),
{
    let input = match input {
        Some(v) => v,
        None => Json::object(),
    };
    Json::typed("tool_use").with("id", Json::text(id)).with("name", Json::text(name)).with(
        "input",
        input,
    )
}

impl MessageCollector {
    /// Before the first event.
    pub fn new() -> (r: MessageCollector)
        ensures
            r@ == CollectorView::initial(),
    {
        let r = MessageCollector {
            said: String::new(),
            thinking: String::new(),
            signature: None,
            tools: Vec::new(),
            stop_reason: "end_turn".to_owned(),
            input_tokens: 0,
            output_tokens: 0,
        };
        assert(r@.text =~= Seq::empty());
        assert(r@.thinking =~= Seq::empty());
        assert(r@.tools =~= Seq::empty());
        r
    }

    /// Adds to the input of the call that began last.
    fn feed_tool(&mut self, partial_json: &str)
        ensures
            forall|index: int|
                #![auto]
                old(self)@.collect(OutView::ToolUseDelta { index, partial_json: partial_json@ })
                    == Ok::<CollectorView, Seq<char>>(final(self)@),
    {
        let ghost before = blocks_view(self.tools@);
        if let Some(last) = self.tools.pop() {
            assert(before.last() == last@);
            assert(blocks_view(self.tools@) =~= before.drop_last());
            let input = match last.input {
                Some(s) => text::join(s.as_str(), partial_json),
                None => partial_json.to_owned(),
            };
            let fed = ToolBlock { id: last.id, name: last.name, input: Some(input) };
            self.tools.push(fed);
            assert(blocks_view(self.tools@) =~= before.drop_last().push(fed@));
        }
    }

    /// Collects an event; hands an error back.
    pub fn collect(&mut self, out: AnthropicOut) -> (r: Result<(), String>)
        ensures
            match r {
                Ok(_) => old(self)@.collect(out@) == Ok::<CollectorView, Seq<char>>(final(self)@),
                Err(e) => {
                    &&& old(self)@.collect(out@) == Err::<CollectorView, Seq<char>>(e@)
                    &&& final(self)@ == old(self)@
                },
            },
    {
        match out {
            AnthropicOut::TextDelta { text, .. } => {
                self.said.append(text.as_str());
            },
            AnthropicOut::ThinkingDelta { text, .. } => {
                self.thinking.append(text.as_str());
            },
            AnthropicOut::ThinkingSignature { signature, .. } => {
                self.signature = Some(signature);
            },
            AnthropicOut::ToolUseStart { id, name, .. } => {
                let ghost before = blocks_view(self.tools@);
                let block = ToolBlock { id, name, input: None };
                self.tools.push(block);
                assert(blocks_view(self.tools@) =~= before.push(block@));
                self.stop_reason = "tool_use".to_owned();
            },
            AnthropicOut::ToolUseDelta { partial_json, .. } => {
                self.feed_tool(partial_json.as_str());
            },
            AnthropicOut::MessageDelta { stop_reason, input_tokens, output_tokens } => {
                if let Some(s) = stop_reason {
                    self.stop_reason = s;
                }
                if let Some(n) = input_tokens {
                    self.input_tokens = n;
                }
                if let Some(n) = output_tokens {
                    self.output_tokens = n;
                }
            },
            AnthropicOut::Error { message } => {
                return Err(message);
            },
            _ => {},
        }
        Ok(())
    }

    /// The content blocks of the tool calls.
    fn tool_content(&self) -> (r: Vec<Json>)
        ensures
            json::values(r@) == tool_values(self@.tools),
            forall|i: int| 0 <= i < r@.len() ==> (#[trigger] r@[i])@.wf(),
    {
        let mut out: Vec<Json> = Vec::new();
        let ghost all = tool_values(self@.tools);
        let mut i: usize = 0;
        assert(json::values(out@) =~= all.take(0));
        while i < self.tools.len()
            invariant
                i <= self.tools@.len(),
                all == tool_values(self@.tools),
                json::values(out@) == all.take(i as int),
                forall|j: int| 0 <= j < out@.len() ==> (#[trigger] out@[j])@.wf(),
            decreases self.tools@.len() - i,
        {
            let block = &self.tools[i];
            assert(self@.tools[i as int] == block@);
            let input = match &block.input {
                Some(s) => Json::parse(s.as_str()),
                None => None,
            };
            let ghost before = json::values(out@);
            let value = tool_block_value(block.id.as_str(), block.name.as_str(), input);
            out.push(value);
            assert(json::values(out@) =~= before.push(value@));
            i += 1;
            assert(json::values(out@) =~= all.take(i as int));
        }
        assert(all.take(i as int) =~= all);
        out
    }

    /// The content of the message.
    fn content(&self) -> (r: Vec<Json>)
        ensures
            json::values(r@) == content_of(self@),
            forall|i: int| 0 <= i < r@.len() ==> (#[trigger] r@[i])@.wf(),
    {
        let mut out: Vec<Json> = Vec::new();
        if !self.thinking.as_str().is_empty() || self.signature.is_some() {
            let signature = match &self.signature {
                Some(s) => Json::text(s.as_str()),
                None => {
                    proof {
                        reveal_strlit("");
                        assert(""@ =~= Seq::empty());
                    }
                    Json::text("")
                },
            };
            out.push(
                Json::typed("thinking").with(
                    "thinking",
                    Json::text(self.thinking.as_str()),
                ).with("signature", signature),
            );
        }
        if !self.said.as_str().is_empty() {
            out.push(Json::typed("text").with("text", Json::text(self.said.as_str())));
        }
        let ghost before = json::values(out@);
        let mut tools = self.tool_content();
        let ghost added = json::values(tools@);
        out.append(&mut tools);
        assert(json::values(out@) =~= before + added);
        assert(json::values(out@) =~= content_of(self@));
        out
    }

    /// The collected message.
    pub fn finish(&self, req_id: &str, model: &str) -> (r: Json)
        ensures
            r@ == message_value(self@, req_id@, model@),
            r@.wf(),
    {
        Json::object().with("id", Json::text(text::join("msg_", req_id).as_str())).with(
            "type",
            Json::text("message"),
        ).with("role", Json::text("assistant")).with("content", Json::list(self.content())).with(
            "model",
            Json::text(model),
        ).with("stop_reason", Json::text(self.stop_reason.as_str())).with(
            "stop_sequence",
            Json::Null,
        ).with("usage", sse::usage(Some(self.input_tokens), Some(self.output_tokens)))
    }
}

/// What is collected of these events; the first error where there is one.
pub open spec fn collected(outs: Seq<OutView>) -> Result<CollectorView, Seq<char>> {
    CollectorView::initial().collect_all(outs)
}

/// A message that was collected says what its events said.
pub proof fn what_is_said_is_collected(outs: Seq<OutView>)
    requires
        collected(outs) is Ok,
    ensures
        collected(outs)->Ok_0.text == lifecycle::said_in(outs, BlockKind::Text),
        collected(outs)->Ok_0.thinking == lifecycle::said_in(outs, BlockKind::Thinking),
    decreases outs.len(),
{
    if outs.len() > 0 {
        what_is_said_is_collected(outs.drop_last());
        let c = collected(outs)->Ok_0;
        assert(c.text =~= lifecycle::said_in(outs, BlockKind::Text));
        assert(c.thinking =~= lifecycle::said_in(outs, BlockKind::Thinking));
    }
}

/// The id and name of each call that begins among events.
pub open spec fn calls_begun(outs: Seq<OutView>) -> Seq<(Seq<char>, Seq<char>)>
    decreases outs.len(),
{
    if outs.len() == 0 {
        Seq::empty()
    } else {
        let before = calls_begun(outs.drop_last());
        match outs.last() {
            OutView::ToolUseStart { id, name, .. } => before.push((id, name)),
            _ => before,
        }
    }
}

/// A message that was collected holds every call that began, in order.
pub proof fn every_call_is_collected(outs: Seq<OutView>)
    requires
        collected(outs) is Ok,
    ensures
        collected(outs)->Ok_0.tools.map_values(|b: ToolBlockView| (b.id, b.name)) == calls_begun(
            outs,
        ),
    decreases outs.len(),
{
    if outs.len() > 0 {
        every_call_is_collected(outs.drop_last());
    }
    assert(collected(outs)->Ok_0.tools.map_values(|b: ToolBlockView| (b.id, b.name)) =~= calls_begun(
        outs,
    ));
}

/// An error among the first events is the error of all that are collected.
pub proof fn the_first_error_counts(c: CollectorView, outs: Seq<OutView>, more: Seq<OutView>)
    requires
        c.collect_all(outs) is Err,
    ensures
        c.collect_all(outs + more) == c.collect_all(outs),
    decreases more.len(),
{
    if more.len() > 0 {
        the_first_error_counts(c, outs, more.drop_last());
        assert((outs + more).drop_last() =~= outs + more.drop_last());
    } else {
        assert(outs + more =~= outs);
    }
}

/// An error is reported as soon as it is met, whatever comes after it.
pub proof fn the_first_error_is_reported(outs: Seq<OutView>, more: Seq<OutView>)
    requires
        collected(outs) is Err,
    ensures
        collected(outs + more) == collected(outs),
{
    the_first_error_counts(CollectorView::initial(), outs, more);
}

/// The block that a collected call is sent as: its id, its name, and the input
/// that its text reads as, an empty object where it reads as none.
pub open spec fn sent_call(call: ToolBlockView) -> JsonView {
    JsonView::Object(
        seq![
            ("type"@, JsonView::Text("tool_use"@)),
            ("id"@, JsonView::Text(call.id)),
            ("name"@, JsonView::Text(call.name)),
            (
                "input"@,
                if call.input is Some && json::json_parse(call.input->0) is Some {
                    json::json_parse(call.input->0)->0
                } else {
                    JsonView::Object(Seq::empty())
                },
            ),
        ],
    )
}

/// The content of a message holds all that was collected: the thinking with its
/// signature, where there is either; the whole text, where there is any and
/// whatever else the message holds; and behind them one block for each call, in
/// order. It holds nothing else.
pub proof fn a_message_holds_all_that_was_collected(c: CollectorView)
    ensures
        ({
            let content = content_of(c);
            let thoughts: int = if c.thinking.len() > 0 || c.signature is Some {
                1
            } else {
                0
            };
            let texts: int = if c.text.len() > 0 {
                1
            } else {
                0
            };
            &&& content.len() == thoughts + texts + c.tools.len()
            &&& thoughts == 1 ==> content[0] == JsonView::Object(
                seq![
                    ("type"@, JsonView::Text("thinking"@)),
                    ("thinking"@, JsonView::Text(c.thinking)),
                    (
                        "signature"@,
                        JsonView::Text(
                            if c.signature is Some {
                                c.signature->0
                            } else {
                                Seq::empty()
                            },
                        ),
                    ),
                ],
            )
            &&& texts == 1 ==> content[thoughts] == JsonView::Object(
                seq![("type"@, JsonView::Text("text"@)), ("text"@, JsonView::Text(c.text))],
            )
            &&& forall|i: int|
                0 <= i < c.tools.len() ==> content[thoughts + texts + i] == sent_call(
                    #[trigger] c.tools[i],
                )
        }),
{
    reveal_strlit("type");
    reveal_strlit("text");
    reveal_strlit("thinking");
    reveal_strlit("signature");
    assert("type"@[1] == 'y' && "text"@[1] == 'e');
    assert("type"@.len() == 4 && "thinking"@.len() == 8 && "signature"@.len() == 9);
    wire::typed_pair("text"@, "text"@, JsonView::Text(c.text));
    let signature = JsonView::Text(
        if c.signature is Some {
            c.signature->0
        } else {
            Seq::empty()
        },
    );
    wire::typed_triple(
        "thinking"@,
        "thinking"@,
        JsonView::Text(c.thinking),
        "signature"@,
        signature,
    );
    let calls = tool_values(c.tools);
    let content = content_of(c);
    let before: int = content.len() - c.tools.len();
    assert forall|i: int| 0 <= i < c.tools.len() implies content[before + i] == sent_call(
        #[trigger] c.tools[i],
    ) by {
        let call = c.tools[i];
        wire::a_tool_block(
            call.id,
            call.name,
            if call.input is Some && json::json_parse(call.input->0) is Some {
                json::json_parse(call.input->0)->0
            } else {
                JsonView::Object(Seq::empty())
            },
        );
        assert(content[before + i] == calls[i]);
    }
}

/// A message that is sent, member by member.
pub proof fn a_message_is_sent_whole(c: CollectorView, req_id: Seq<char>, model: Seq<char>)
    ensures
        message_value(c, req_id, model) == JsonView::Object(
            seq![
                ("id"@, wire::txt("msg_"@ + req_id)),
                ("type"@, wire::txt("message"@)),
                ("role"@, wire::txt("assistant"@)),
                ("content"@, JsonView::List(content_of(c))),
                ("model"@, wire::txt(model)),
                ("stop_reason"@, wire::txt(c.stop_reason)),
                ("stop_sequence"@, JsonView::Null),
                (
                    "usage"@,
                    JsonView::Object(
                        seq![
                            ("input_tokens"@, wire::num(c.input_tokens as int)),
                            ("output_tokens"@, wire::num(c.output_tokens as int)),
                        ],
                    ),
                ),
            ],
        ),
{
    wire::a_usage_holds_its_tokens(Some(c.input_tokens), Some(c.output_tokens));
    let usage = seq![
        ("input_tokens"@, wire::num(c.input_tokens as int)),
        ("output_tokens"@, wire::num(c.output_tokens as int)),
    ];
    assert(wire::usage_members(Some(c.input_tokens), Some(c.output_tokens)) =~= usage);
    wire::a_message_object(
        "msg_"@ + req_id,
        model,
        JsonView::List(content_of(c)),
        wire::txt(c.stop_reason),
        JsonView::Object(usage),
    );
}

/// What the events say of a call's input, put together.
pub open spec fn input_said(outs: Seq<OutView>) -> Seq<char>
    decreases outs.len(),
{
    if outs.len() == 0 {
        Seq::empty()
    } else {
        match outs.last() {
            OutView::ToolUseDelta { partial_json, .. } => input_said(outs.drop_last())
                + partial_json,
            _ => input_said(outs.drop_last()),
        }
    }
}

/// A call collects the whole input that comes before the next call begins, and
/// the calls before it keep theirs.
pub proof fn a_call_collects_its_input(
    outs: Seq<OutView>,
    index: int,
    id: Seq<char>,
    name: Seq<char>,
    more: Seq<OutView>,
)
    requires
        collected(outs) is Ok,
        forall|i: int|
            0 <= i < more.len() ==> !(#[trigger] more[i] is ToolUseStart) && !(more[i] is Error),
    ensures
        ({
            let before = collected(outs)->Ok_0.tools;
            let after = collected(outs.push(OutView::ToolUseStart { index, id, name }) + more);
            let any = exists|i: int| 0 <= i < more.len() && #[trigger] more[i] is ToolUseDelta;
            &&& after is Ok
            &&& after->Ok_0.tools.len() == before.len() + 1
            &&& forall|i: int|
                0 <= i < before.len() ==> #[trigger] after->Ok_0.tools[i] == before[i]
            &&& after->Ok_0.tools.last().id == id
            &&& after->Ok_0.tools.last().name == name
            &&& any ==> after->Ok_0.tools.last().input == Some(input_said(more))
            &&& !any ==> after->Ok_0.tools.last().input is None
        }),
    decreases more.len(),
{
    let begun = outs.push(OutView::ToolUseStart { index, id, name });
    let whole = begun + more;
    if more.len() == 0 {
        assert(whole =~= begun);
        assert(begun.drop_last() =~= outs);
    } else {
        let earlier = more.drop_last();
        assert forall|i: int| 0 <= i < earlier.len() implies !(#[trigger] earlier[i] is ToolUseStart)
            && !(earlier[i] is Error) by {
            assert(earlier[i] == more[i]);
        }
        a_call_collects_its_input(outs, index, id, name, earlier);
        assert(whole.drop_last() =~= begun + earlier);
        let n = more.len() - 1;
        assert(!(more[n] is ToolUseStart) && !(more[n] is Error));
        let any = exists|i: int| 0 <= i < more.len() && #[trigger] more[i] is ToolUseDelta;
        let some = exists|i: int| 0 <= i < earlier.len() && #[trigger] earlier[i] is ToolUseDelta;
        if some {
            let i = choose|i: int| 0 <= i < earlier.len() && #[trigger] earlier[i] is ToolUseDelta;
            assert(more[i] is ToolUseDelta);
        }
        if any && !(more[n] is ToolUseDelta) {
            let i = choose|i: int| 0 <= i < more.len() && #[trigger] more[i] is ToolUseDelta;
            assert(earlier[i] is ToolUseDelta);
        }
        if !some {
            nothing_said_of_input(earlier);
            if more[n] is ToolUseDelta {
                assert(input_said(more) =~= more[n]->partial_json);
            }
        }
    }
}

proof fn nothing_said_of_input(outs: Seq<OutView>)
    requires
        forall|i: int| 0 <= i < outs.len() ==> !(#[trigger] outs[i] is ToolUseDelta),
    ensures
        input_said(outs) == Seq::<char>::empty(),
    decreases outs.len(),
{
    if outs.len() > 0 {
        let earlier = outs.drop_last();
        assert forall|i: int| 0 <= i < earlier.len() implies !(
        #[trigger] earlier[i] is ToolUseDelta) by {
            assert(earlier[i] == outs[i]);
        }
        assert(!(outs[outs.len() - 1] is ToolUseDelta));
        nothing_said_of_input(earlier);
    }
}

/// Until the end is reported, a message stops to call tools exactly where a call
/// began, and no tokens are counted.
pub proof fn a_call_is_why_a_message_stops(outs: Seq<OutView>)
    requires
        collected(outs) is Ok,
        forall|i: int| 0 <= i < outs.len() ==> !(#[trigger] outs[i] is MessageDelta),
    ensures
        collected(outs)->Ok_0.stop_reason == if exists|i: int|
            0 <= i < outs.len() && #[trigger] outs[i] is ToolUseStart {
            "tool_use"@
        } else {
            "end_turn"@
        },
        collected(outs)->Ok_0.input_tokens == 0,
        collected(outs)->Ok_0.output_tokens == 0,
    decreases outs.len(),
{
    if outs.len() > 0 {
        let earlier = outs.drop_last();
        let n = outs.len() - 1;
        assert forall|i: int| 0 <= i < earlier.len() implies !(
        #[trigger] earlier[i] is MessageDelta) by {
            assert(earlier[i] == outs[i]);
        }
        assert(!(outs[n] is MessageDelta));
        a_call_is_why_a_message_stops(earlier);
        if exists|i: int| 0 <= i < earlier.len() && #[trigger] earlier[i] is ToolUseStart {
            let i = choose|i: int| 0 <= i < earlier.len() && #[trigger] earlier[i] is ToolUseStart;
            assert(outs[i] is ToolUseStart);
        } else if exists|i: int| 0 <= i < outs.len() && #[trigger] outs[i] is ToolUseStart {
            let i = choose|i: int| 0 <= i < outs.len() && #[trigger] outs[i] is ToolUseStart;
            assert(i < n ==> earlier[i] is ToolUseStart);
        }
    }
}

/// The end that is reported counts: its reason and its tokens take the place of
/// those before, where it has them, and nothing else changes.
pub proof fn the_reported_end_counts(
    outs: Seq<OutView>,
    stop_reason: Option<Seq<char>>,
    input_tokens: Option<u64>,
    output_tokens: Option<u64>,
)
    requires
        collected(outs) is Ok,
    ensures
        ({
            let c = collected(outs)->Ok_0;
            let end = OutView::MessageDelta { stop_reason, input_tokens, output_tokens };
            let after = collected(outs.push(end));
            &&& after is Ok
            &&& collected(outs.push(end).push(OutView::MessageStop)) == after
            &&& stop_reason is Some ==> after->Ok_0.stop_reason == stop_reason->0
            &&& stop_reason is None ==> after->Ok_0.stop_reason == c.stop_reason
            &&& input_tokens is Some ==> after->Ok_0.input_tokens == input_tokens->0
            &&& input_tokens is None ==> after->Ok_0.input_tokens == c.input_tokens
            &&& output_tokens is Some ==> after->Ok_0.output_tokens == output_tokens->0
            &&& output_tokens is None ==> after->Ok_0.output_tokens == c.output_tokens
            &&& content_of(after->Ok_0) == content_of(c)
        }),
{
    let end = OutView::MessageDelta { stop_reason, input_tokens, output_tokens };
    assert(outs.push(end).drop_last() =~= outs);
    assert(outs.push(end).push(OutView::MessageStop).drop_last() =~= outs.push(end));
}

/// The signature that was sent last is the one that is kept.
pub proof fn the_last_signature_is_kept(outs: Seq<OutView>)
    requires
        collected(outs) is Ok,
    ensures
        collected(outs)->Ok_0.signature is None <==> forall|i: int|
            0 <= i < outs.len() ==> !(#[trigger] outs[i] is ThinkingSignature),
        forall|i: int|
            0 <= i < outs.len() && #[trigger] outs[i] is ThinkingSignature && (forall|j: int|
                i < j < outs.len() ==> !(#[trigger] outs[j] is ThinkingSignature))
                ==> collected(outs)->Ok_0.signature == Some(outs[i]->signature),
    decreases outs.len(),
{
    if outs.len() > 0 {
        let earlier = outs.drop_last();
        let n = outs.len() - 1;
        the_last_signature_is_kept(earlier);
        assert(forall|j: int| 0 <= j < n ==> #[trigger] outs[j] == earlier[j]);
        assert(forall|j: int| 0 <= j < n ==> outs[j] == #[trigger] earlier[j]);
        assert(collected(outs) == collected(earlier)->Ok_0.collect(outs[n]));
    }
}

} // verus!
