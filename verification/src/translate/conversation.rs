//! What a conversation keeps of the request that it was made of: all that the
//! user, the system and the assistant said, every tool call and result, and
//! every option, in order.

use vstd::prelude::*;

use crate::epoch::EpochView;
use crate::json;
use crate::json::{JsonNumber, JsonView};
use crate::reasoning_signature;
use crate::text;
use crate::translate::request;
use crate::translate::request::{
    ConversationItemView, HostedToolView, ReasoningEffort, RequestView, ToolChoiceView, ToolPlan,
    ToolSpecView,
};

verus! {

/// The `text` of a block, or nothing where it has none.
pub open spec fn text_in(block: JsonView) -> Seq<char> {
    match block.text_at("text"@) {
        Some(t) => t,
        None => Seq::empty(),
    }
}

/// Whether a block is of this type.
pub open spec fn is_type(block: JsonView, ty: Seq<char>) -> bool {
    block.text_at("type"@) == Some(ty)
}

/// A part of what a user sends: a character, as a text of its own, or the result
/// of a call.
pub ghost enum Bit {
    Said(Seq<char>),
    Result { call_id: Seq<char>, output: Seq<char> },
}

/// The characters of a text.
pub open spec fn said(s: Seq<char>) -> Seq<Bit>
    decreases s.len(),
{
    if s.len() == 0 {
        Seq::empty()
    } else {
        said(s.drop_last()).push(Bit::Said(seq![s.last()]))
    }
}

proof fn said_concat(s: Seq<char>, t: Seq<char>)
    ensures
        said(s + t) == said(s) + said(t),
    decreases t.len(),
{
    if t.len() == 0 {
        assert(s + t =~= s);
        assert(said(s) + said(t) =~= said(s));
    } else {
        said_concat(s, t.drop_last());
        assert((s + t).drop_last() =~= s + t.drop_last());
        assert((s + t).last() == t.last());
        assert(said(s + t) =~= said(s) + said(t));
    }
}

/// What a block of user content holds: the text of a text block, a placeholder
/// for an image, the result of a call; nothing of any other.
pub open spec fn block_bits(block: JsonView) -> Seq<Bit> {
    if is_type(block, "text"@) {
        said(text_in(block))
    } else if is_type(block, "image"@) {
        said("[image omitted]"@)
    } else if is_type(block, "tool_result"@) {
        seq![
            Bit::Result {
                call_id: match block.text_at("tool_use_id"@) {
                    Some(id) => id,
                    None => "tool_call"@,
                },
                output: request::tool_result_text(block.get("content"@)),
            },
        ]
    } else {
        Seq::empty()
    }
}

/// What blocks of user content hold together.
pub open spec fn blocks_bits(blocks: Seq<JsonView>) -> Seq<Bit>
    decreases blocks.len(),
{
    if blocks.len() == 0 {
        Seq::empty()
    } else {
        blocks_bits(blocks.drop_last()) + block_bits(blocks.last())
    }
}

/// What an item of the conversation holds of a user.
pub open spec fn item_bits(item: ConversationItemView) -> Seq<Bit> {
    match item {
        ConversationItemView::User(s) => said(s),
        ConversationItemView::ToolResult { call_id, output } => seq![
            Bit::Result { call_id, output },
        ],
        _ => Seq::empty(),
    }
}

/// What items hold of a user together.
pub open spec fn items_bits(items: Seq<ConversationItemView>) -> Seq<Bit>
    decreases items.len(),
{
    if items.len() == 0 {
        Seq::empty()
    } else {
        items_bits(items.drop_last()) + item_bits(items.last())
    }
}

proof fn items_bits_concat(s: Seq<ConversationItemView>, t: Seq<ConversationItemView>)
    ensures
        items_bits(s + t) == items_bits(s) + items_bits(t),
    decreases t.len(),
{
    if t.len() == 0 {
        assert(s + t =~= s);
        assert(items_bits(s) + items_bits(t) =~= items_bits(s));
    } else {
        items_bits_concat(s, t.drop_last());
        assert((s + t).drop_last() =~= s + t.drop_last());
        assert((s + t).last() == t.last());
        assert(items_bits(s + t) =~= items_bits(s) + items_bits(t));
    }
}

proof fn items_bits_one(item: ConversationItemView)
    ensures
        items_bits(seq![item]) == item_bits(item),
{
    let one = seq![item];
    assert(one.drop_last() =~= Seq::empty());
    assert(items_bits(one.drop_last()) == Seq::<Bit>::empty());
    assert(items_bits(one) =~= item_bits(item));
}

/// The type names of user blocks differ.
proof fn user_types_differ()
    ensures
        "text"@ != "image"@,
        "text"@ != "tool_result"@,
        "image"@ != "tool_result"@,
{
    reveal_strlit("text");
    reveal_strlit("image");
    reveal_strlit("tool_result");
    assert("text"@.len() == 4 && "image"@.len() == 5 && "tool_result"@.len() == 11);
}

/// Whether items are what a user's blocks may become: texts that are not empty,
/// no two next to each other, and results.
spec fn user_shaped(items: Seq<ConversationItemView>) -> bool {
    &&& forall|i: int|
        0 <= i < items.len() ==> match #[trigger] items[i] {
            ConversationItemView::User(s) => s.len() > 0,
            ConversationItemView::ToolResult { .. } => true,
            _ => false,
        }
    &&& forall|i: int, j: int|
        0 <= i < items.len() && j == i + 1 && j < items.len() ==> !(#[trigger] items[i] is User
            && #[trigger] items[j] is User)
}

proof fn gathered_bits(blocks: Seq<JsonView>)
    ensures
        ({
            let (gathered, items) = request::user_blocks(blocks);
            &&& items_bits(items) + said(gathered) == blocks_bits(blocks)
            &&& user_shaped(items)
            &&& items.len() > 0 ==> items.last() is ToolResult
        }),
    decreases blocks.len(),
{
    let (gathered, items) = request::user_blocks(blocks);
    if blocks.len() == 0 {
        assert(items_bits(items) + said(gathered) =~= blocks_bits(blocks));
    } else {
        user_types_differ();
        gathered_bits(blocks.drop_last());
        let before = request::user_blocks(blocks.drop_last());
        let block = blocks.last();
        if is_type(block, "text"@) {
            said_concat(before.0, text_in(block));
        } else if is_type(block, "image"@) {
            said_concat(before.0, "[image omitted]"@);
        } else if is_type(block, "tool_result"@) {
            let flushed = request::flushed(before.0);
            let result = items.last();
            assert(items =~= before.1 + flushed + seq![result]);
            items_bits_concat(before.1, flushed);
            items_bits_concat(before.1 + flushed, seq![result]);
            items_bits_one(result);
            if before.0.len() > 0 {
                items_bits_one(ConversationItemView::User(before.0));
            } else {
                assert(said(before.0) =~= Seq::empty());
                assert(items_bits(flushed) =~= said(before.0));
            }
            assert(said(gathered) =~= Seq::empty());
        } else {
            assert(block_bits(block) =~= Seq::empty());
        }
        assert(items_bits(items) + said(gathered) =~= blocks_bits(blocks));
    }
}

/// What a user says in blocks comes out whole and in order, each character of
/// each text block, the placeholder of each image and the result of each call:
/// nothing is lost, added or reordered. Texts that follow each other become one
/// item, and no item is empty.
pub proof fn nothing_of_a_user_is_lost(blocks: Seq<JsonView>)
    ensures
        ({
            let items = request::user_items(Some(JsonView::List(blocks)));
            &&& items is Ok
            &&& items_bits(items->Ok_0) == blocks_bits(blocks)
            &&& forall|i: int|
                0 <= i < items->Ok_0.len() ==> match #[trigger] items->Ok_0[i] {
                    ConversationItemView::User(s) => s.len() > 0,
                    ConversationItemView::ToolResult { .. } => true,
                    _ => false,
                }
            &&& forall|i: int, j: int|
                0 <= i < items->Ok_0.len() && j == i + 1 && j < items->Ok_0.len() ==> !(
                #[trigger] items->Ok_0[i] is User && #[trigger] items->Ok_0[j] is User)
        }),
{
    gathered_bits(blocks);
    let (gathered, before) = request::user_blocks(blocks);
    let flushed = request::flushed(gathered);
    items_bits_concat(before, flushed);
    if gathered.len() > 0 {
        items_bits_one(ConversationItemView::User(gathered));
    } else {
        assert(said(gathered) =~= Seq::empty());
        assert(items_bits(flushed) =~= said(gathered));
    }
}

/// The characters among parts.
pub open spec fn chars_of(bits: Seq<Bit>) -> Seq<char>
    decreases bits.len(),
{
    if bits.len() == 0 {
        Seq::empty()
    } else {
        let before = chars_of(bits.drop_last());
        match bits.last() {
            Bit::Said(c) => before + c,
            _ => before,
        }
    }
}

/// What the user items of a conversation say together.
pub open spec fn user_text(items: Seq<ConversationItemView>) -> Seq<char>
    decreases items.len(),
{
    if items.len() == 0 {
        Seq::empty()
    } else {
        user_text(items.drop_last()) + match items.last() {
            ConversationItemView::User(s) => s,
            _ => Seq::empty(),
        }
    }
}

/// What the text blocks of user content say together, an image as its
/// placeholder.
pub open spec fn blocks_text(blocks: Seq<JsonView>) -> Seq<char>
    decreases blocks.len(),
{
    if blocks.len() == 0 {
        Seq::empty()
    } else {
        blocks_text(blocks.drop_last()) + if is_type(blocks.last(), "text"@) {
            text_in(blocks.last())
        } else if is_type(blocks.last(), "image"@) {
            "[image omitted]"@
        } else {
            Seq::empty()
        }
    }
}

proof fn chars_concat(s: Seq<Bit>, t: Seq<Bit>)
    ensures
        chars_of(s + t) == chars_of(s) + chars_of(t),
    decreases t.len(),
{
    if t.len() == 0 {
        assert(s + t =~= s);
        assert(chars_of(s) + chars_of(t) =~= chars_of(s));
    } else {
        chars_concat(s, t.drop_last());
        assert((s + t).drop_last() =~= s + t.drop_last());
        assert((s + t).last() == t.last());
        assert(chars_of(s + t) =~= chars_of(s) + chars_of(t));
    }
}

proof fn chars_of_said(s: Seq<char>)
    ensures
        chars_of(said(s)) == s,
    decreases s.len(),
{
    if s.len() > 0 {
        chars_of_said(s.drop_last());
        assert(said(s).drop_last() =~= said(s.drop_last()));
        assert(s.drop_last() + seq![s.last()] =~= s);
    } else {
        assert(chars_of(said(s)) =~= s);
    }
}

proof fn item_chars(items: Seq<ConversationItemView>)
    ensures
        chars_of(items_bits(items)) == user_text(items),
    decreases items.len(),
{
    if items.len() > 0 {
        item_chars(items.drop_last());
        let bits = item_bits(items.last());
        chars_concat(items_bits(items.drop_last()), bits);
        match items.last() {
            ConversationItemView::User(s) => chars_of_said(s),
            ConversationItemView::ToolResult { .. } => {
                assert(bits.drop_last() =~= Seq::empty());
                assert(chars_of(bits.drop_last()) == Seq::<char>::empty());
                assert(chars_of(bits) =~= Seq::empty());
            },
            _ => {},
        }
    }
}

proof fn block_chars(blocks: Seq<JsonView>)
    ensures
        chars_of(blocks_bits(blocks)) == blocks_text(blocks),
    decreases blocks.len(),
{
    if blocks.len() > 0 {
        user_types_differ();
        block_chars(blocks.drop_last());
        let bits = block_bits(blocks.last());
        chars_concat(blocks_bits(blocks.drop_last()), bits);
        if is_type(blocks.last(), "text"@) {
            chars_of_said(text_in(blocks.last()));
        } else if is_type(blocks.last(), "image"@) {
            chars_of_said("[image omitted]"@);
        } else if is_type(blocks.last(), "tool_result"@) {
            assert(bits.drop_last() =~= Seq::empty());
            assert(chars_of(bits.drop_last()) == Seq::<char>::empty());
            assert(chars_of(bits) =~= Seq::empty());
        }
    }
}

/// The texts of the user items are the texts of all text blocks, and the
/// placeholders of all images, in order.
pub proof fn all_that_a_user_says_is_kept(blocks: Seq<JsonView>)
    ensures
        request::user_items(Some(JsonView::List(blocks))) is Ok,
        user_text(request::user_items(Some(JsonView::List(blocks)))->Ok_0) == blocks_text(blocks),
{
    nothing_of_a_user_is_lost(blocks);
    item_chars(request::user_items(Some(JsonView::List(blocks)))->Ok_0);
    block_chars(blocks);
}

/// A text as content is one item that says just that.
pub proof fn plain_content_is_one_item(s: Seq<char>)
    ensures
        request::user_items(Some(JsonView::Text(s))) == Ok::<Seq<ConversationItemView>, Seq<char>>(
            seq![ConversationItemView::User(s)],
        ),
        request::assistant_items(Some(JsonView::Text(s))) == Ok::<
            Seq<ConversationItemView>,
            Seq<char>,
        >(seq![ConversationItemView::Assistant(s)]),
        request::plain_text(Some(JsonView::Text(s))) == Ok::<Option<Seq<char>>, Seq<char>>(Some(s)),
        request::system_text(JsonView::Text(s)) == Ok::<Option<Seq<char>>, Seq<char>>(Some(s)),
        request::tool_result_text(Some(JsonView::Text(s))) == s,
{
}

/// The texts of blocks, one behind the other.
pub open spec fn texts_of(blocks: Seq<JsonView>) -> Seq<char>
    decreases blocks.len(),
{
    if blocks.len() == 0 {
        Seq::empty()
    } else {
        texts_of(blocks.drop_last()) + text_in(blocks.last())
    }
}

proof fn pieces_are_texts(blocks: Seq<JsonView>)
    ensures
        request::joined_pieces(blocks, request::Piece::Text) == texts_of(blocks),
    decreases blocks.len(),
{
    if blocks.len() > 0 {
        pieces_are_texts(blocks.drop_last());
    }
}

/// A system prompt in blocks says the texts of all its blocks, in order; it is
/// refused where a block has none.
pub proof fn a_system_prompt_is_kept(blocks: Seq<JsonView>)
    ensures
        (forall|i: int| 0 <= i < blocks.len() ==> (#[trigger] blocks[i]).text_at("text"@) is Some)
            ==> request::system_text(JsonView::List(blocks)) == Ok::<
            Option<Seq<char>>,
            Seq<char>,
        >(Some(texts_of(blocks))),
        (exists|i: int| 0 <= i < blocks.len() && (#[trigger] blocks[i]).text_at("text"@) is None)
            ==> request::system_text(JsonView::List(blocks)) == Err::<
            Option<Seq<char>>,
            Seq<char>,
        >("system block missing text"@),
        request::system_text(JsonView::Null) == Ok::<Option<Seq<char>>, Seq<char>>(None),
{
    pieces_are_texts(blocks);
}

/// What a block of a system message says: its text, or itself.
pub open spec fn text_or_itself(block: JsonView) -> Seq<char> {
    match block.text_at("text"@) {
        Some(t) => t,
        None => match block {
            JsonView::Text(t) => t,
            _ => Seq::empty(),
        },
    }
}

/// What a block of a tool result says: its text, or a placeholder for an image.
pub open spec fn text_or_placeholder(block: JsonView) -> Seq<char> {
    match block.text_at("text"@) {
        Some(t) => t,
        None => if is_type(block, "image"@) {
            "[image omitted]"@
        } else {
            Seq::empty()
        },
    }
}

/// A system message and a tool result in blocks say what their blocks say, one
/// behind the other.
pub proof fn blocks_say_what_each_says(earlier: Seq<JsonView>, block: JsonView)
    ensures
        request::plain_text(Some(JsonView::List(Seq::empty()))) == Ok::<
            Option<Seq<char>>,
            Seq<char>,
        >(Some(Seq::empty())),
        request::plain_text(Some(JsonView::List(earlier.push(block)))) == Ok::<
            Option<Seq<char>>,
            Seq<char>,
        >(
            Some(
                request::plain_text(Some(JsonView::List(earlier)))->Ok_0->0 + text_or_itself(block),
            ),
        ),
        request::tool_result_text(Some(JsonView::List(Seq::empty()))) == Seq::<char>::empty(),
        request::tool_result_text(Some(JsonView::List(earlier.push(block))))
            == request::tool_result_text(Some(JsonView::List(earlier))) + text_or_placeholder(
            block,
        ),
        request::tool_result_text(None) == Seq::<char>::empty(),
{
    assert(earlier.push(block).drop_last() =~= earlier);
}

/// A result that is neither a text nor a list is handed on as its JSON text.
pub proof fn other_results_are_printed(v: JsonView)
    requires
        !(v is Text),
        !(v is List),
    ensures
        request::tool_result_text(Some(v)) == json::json_text(v.sorted()),
{
}

/// The blocks of this type, in order.
pub open spec fn of_type(blocks: Seq<JsonView>, ty: Seq<char>) -> Seq<JsonView>
    decreases blocks.len(),
{
    if blocks.len() == 0 {
        Seq::empty()
    } else {
        let before = of_type(blocks.drop_last(), ty);
        if is_type(blocks.last(), ty) {
            before.push(blocks.last())
        } else {
            before
        }
    }
}

/// Whether this is the call that a `tool_use` block asks for: its id, its name
/// and its input as JSON text, an empty object where it has none.
pub open spec fn calls_for(call: request::ToolCallView, block: JsonView) -> bool {
    &&& block.text_at("id"@) matches Some(id) ==> call.id == id
    &&& block.text_at("id"@) is None ==> call.id == "tool_call"@
    &&& block.text_at("name"@) matches Some(name) ==> call.name == name
    &&& block.text_at("name"@) is None ==> call.name == "tool"@
    &&& block.get("input"@) matches Some(input) ==> call.arguments == json::json_text(
        input.sorted(),
    )
    &&& block.get("input"@) is None ==> call.arguments == json::json_text(
        JsonView::Object(Seq::empty()),
    )
}

proof fn empty_objects_are_sorted()
    ensures
        json::empty_object().sorted() == JsonView::Object(Seq::empty()),
{
    let none = Seq::<(Seq<char>, JsonView)>::empty();
    assert(json::sorted_values(none) =~= none);
    assert(json::sort_members(none) =~= none);
}

proof fn calls_match(blocks: Seq<JsonView>)
    ensures
        ({
            let calls = request::assistant_calls(blocks);
            let uses = of_type(blocks, "tool_use"@);
            &&& calls.len() == uses.len()
            &&& forall|i: int| 0 <= i < calls.len() ==> calls_for(#[trigger] calls[i], uses[i])
        }),
    decreases blocks.len(),
{
    if blocks.len() > 0 {
        calls_match(blocks.drop_last());
        empty_objects_are_sorted();
    }
}

proof fn words_match(blocks: Seq<JsonView>)
    ensures
        request::assistant_text(blocks) == texts_of(of_type(blocks, "text"@)),
    decreases blocks.len(),
{
    if blocks.len() > 0 {
        words_match(blocks.drop_last());
        let before = of_type(blocks.drop_last(), "text"@);
        if is_type(blocks.last(), "text"@) {
            assert(before.push(blocks.last()).drop_last() =~= before);
        } else {
            assert(request::assistant_text(blocks.drop_last()) + Seq::<char>::empty()
                =~= request::assistant_text(blocks.drop_last()));
        }
    }
}

/// The items that the signatures of thinking blocks carry, in order.
pub open spec fn carried(blocks: Seq<JsonView>) -> Seq<reasoning_signature::ReplayView>
    decreases blocks.len(),
{
    if blocks.len() == 0 {
        Seq::empty()
    } else {
        let before = carried(blocks.drop_last());
        let block = blocks.last();
        if is_type(block, "thinking"@) || is_type(block, "redacted_thinking"@) {
            match block.text_at("signature"@) {
                Some(sig) => match reasoning_signature::replay_of(sig) {
                    Some(item) => before.push(item),
                    None => before,
                },
                None => before,
            }
        } else {
            before
        }
    }
}

proof fn reasoning_matches(blocks: Seq<JsonView>)
    ensures
        ({
            let items = request::assistant_reasoning(blocks);
            &&& items.len() == carried(blocks).len()
            &&& forall|i: int|
                0 <= i < items.len() ==> #[trigger] items[i] == ConversationItemView::Reasoning(
                    carried(blocks)[i],
                )
        }),
    decreases blocks.len(),
{
    if blocks.len() > 0 {
        reasoning_matches(blocks.drop_last());
    }
}

/// What an assistant said in blocks comes back: first the reasoning that its
/// thinking carries, in order; then, where it called tools, one item with every
/// call, in order, each with its id, name and input; else the texts of all its
/// text blocks, in order, where they say anything.
pub proof fn an_assistant_message_is_kept(blocks: Seq<JsonView>)
    ensures
        ({
            let items = request::assistant_items(Some(JsonView::List(blocks)));
            let uses = of_type(blocks, "tool_use"@);
            let words = texts_of(of_type(blocks, "text"@));
            let n = carried(blocks).len();
            &&& items is Ok
            &&& items->Ok_0.len() == n + if uses.len() > 0 || words.len() > 0 {
                1int
            } else {
                0
            }
            &&& forall|i: int|
                0 <= i < n ==> #[trigger] items->Ok_0[i] == ConversationItemView::Reasoning(
                    carried(blocks)[i],
                )
            &&& uses.len() > 0 ==> {
                &&& items->Ok_0[n as int] matches ConversationItemView::AssistantToolCalls(calls)
                &&& calls.len() == uses.len()
                &&& forall|i: int| 0 <= i < calls.len() ==> calls_for(#[trigger] calls[i], uses[i])
            }
            &&& uses.len() == 0 && words.len() > 0 ==> items->Ok_0[n as int]
                == ConversationItemView::Assistant(words)
        }),
{
    calls_match(blocks);
    words_match(blocks);
    reasoning_matches(blocks);
}

proof fn roles_differ()
    ensures
        "system"@ != "user"@,
        "system"@ != "assistant"@,
        "user"@ != "assistant"@,
{
    reveal_strlit("system");
    reveal_strlit("user");
    reveal_strlit("assistant");
    assert("system"@.len() == 6 && "user"@.len() == 4 && "assistant"@.len() == 9);
}

/// A message is taken for what its role says; another role, or none, is refused
/// by name.
pub proof fn a_message_goes_by_its_role(msg: JsonView)
    ensures
        msg.text_at("role"@) == Some("user"@) ==> request::message_items(msg)
            == request::user_items(msg.get("content"@)),
        msg.text_at("role"@) == Some("assistant"@) ==> request::message_items(msg)
            == request::assistant_items(msg.get("content"@)),
        msg.text_at("role"@) == Some("system"@) ==> match request::plain_text(
            msg.get("content"@),
        ) {
            Ok(Some(s)) if s.len() > 0 => request::message_items(msg) == Ok::<
                Seq<ConversationItemView>,
                Seq<char>,
            >(seq![ConversationItemView::System(s)]),
            Ok(_) => request::message_items(msg) == Ok::<Seq<ConversationItemView>, Seq<char>>(
                Seq::empty(),
            ),
            Err(e) => request::message_items(msg) == Err::<Seq<ConversationItemView>, Seq<char>>(e),
        },
        msg.text_at("role"@) is None ==> request::message_items(msg) == Err::<
            Seq<ConversationItemView>,
            Seq<char>,
        >("message missing role"@),
        msg.text_at("role"@) matches Some(role) && role != "user"@ && role != "assistant"@ && role
            != "system"@ ==> request::message_items(msg) == Err::<
            Seq<ConversationItemView>,
            Seq<char>,
        >("unsupported message role: "@ + msg.text_at("role"@)->0),
{
    roles_differ();
}

/// A conversation is its messages, one behind the other; the first that is
/// refused counts for all.
pub proof fn a_conversation_is_its_messages(messages: Seq<JsonView>, msg: JsonView)
    ensures
        request::messages_items(Seq::empty()) == Ok::<Seq<ConversationItemView>, Seq<char>>(
            Seq::empty(),
        ),
        request::messages_items(messages) is Ok && request::message_items(msg) is Ok
            ==> request::messages_items(messages.push(msg)) == Ok::<
            Seq<ConversationItemView>,
            Seq<char>,
        >(request::messages_items(messages)->Ok_0 + request::message_items(msg)->Ok_0),
        request::messages_items(messages) is Err ==> request::messages_items(messages.push(msg))
            == request::messages_items(messages),
        request::messages_items(messages) is Ok && request::message_items(msg) is Err
            ==> request::messages_items(messages.push(msg)) == request::message_items(msg),
{
    assert(messages.push(msg).drop_last() =~= messages);
}

/// A content of another shape is refused by name; none at all adds nothing.
pub proof fn other_content_is_refused(v: JsonView)
    requires
        !(v is Text),
        !(v is List),
    ensures
        request::user_items(Some(v)) == Err::<Seq<ConversationItemView>, Seq<char>>(
            "unsupported user content shape"@,
        ),
        request::assistant_items(Some(v)) == Err::<Seq<ConversationItemView>, Seq<char>>(
            "unsupported assistant content shape"@,
        ),
        request::plain_text(Some(v)) == Err::<Option<Seq<char>>, Seq<char>>(
            "unsupported content shape for system/text"@,
        ),
        !(v is Null) ==> request::system_text(v) == Err::<Option<Seq<char>>, Seq<char>>(
            "unsupported system shape"@,
        ),
        request::user_items(None) == Ok::<Seq<ConversationItemView>, Seq<char>>(Seq::empty()),
        request::assistant_items(None) == Ok::<Seq<ConversationItemView>, Seq<char>>(Seq::empty()),
        request::plain_text(None) == Ok::<Option<Seq<char>>, Seq<char>>(None),
{
}

/// Whether a tool searches the web, by its name or its type.
pub open spec fn searches_web(tool: JsonView) -> bool {
    ||| tool.text_at("name"@) == Some("WebSearch"@)
    ||| tool.text_at("name"@) matches Some(name) && "web_search"@.is_prefix_of(name)
    ||| tool.text_at("type"@) matches Some(ty) && text::occurs("web_search"@, ty)
}

/// Whether a tool searches X, by its name or its type.
pub open spec fn searches_x(tool: JsonView) -> bool {
    ||| tool.text_at("name"@) == Some("XSearch"@)
    ||| tool.text_at("name"@) matches Some(name) && "x_search"@.is_prefix_of(name)
    ||| tool.text_at("type"@) matches Some(ty) && text::occurs("x_search"@, ty)
}

/// The texts among the values of a list, in order.
pub open spec fn strings_in(items: Seq<JsonView>) -> Seq<Seq<char>>
    decreases items.len(),
{
    if items.len() == 0 {
        Seq::empty()
    } else {
        match items.last() {
            JsonView::Text(s) => strings_in(items.drop_last()).push(s),
            _ => strings_in(items.drop_last()),
        }
    }
}

proof fn strings_are_texts(items: Seq<JsonView>)
    ensures
        request::texts_among(items) == strings_in(items),
    decreases items.len(),
{
    if items.len() > 0 {
        strings_are_texts(items.drop_last());
    }
}

proof fn custom_is_no_search()
    ensures
        !text::occurs("web_search"@, "custom"@),
        !text::occurs("x_search"@, "custom"@),
        ""@.len() == 0,
        "WebSearch"@.len() > 0,
        "XSearch"@.len() > 0,
        "web_search"@.len() > 0,
        "x_search"@.len() > 0,
{
    reveal_strlit("web_search");
    reveal_strlit("x_search");
    reveal_strlit("custom");
    reveal_strlit("");
    reveal_strlit("WebSearch");
    reveal_strlit("XSearch");
    assert("custom"@.len() == 6 && "web_search"@.len() == 10 && "x_search"@.len() == 8);
}

/// A tool is what it is declared to be: a search of the web, within the domains
/// that it names, a search of X, or a function under its own name, with its
/// description and its schema, an empty one where it has none; a tool that has
/// no name and is no search is left out.
pub proof fn a_tool_is_kept_as_declared(tool: JsonView)
    ensures
        searches_web(tool) ==> request::tool_plan(tool) == ToolPlan::Hosted(
            HostedToolView::WebSearch(
                match tool.get("allowed_domains"@) {
                    Some(JsonView::List(items)) => Some(strings_in(items)),
                    _ => None,
                },
            ),
        ),
        !searches_web(tool) && searches_x(tool) ==> request::tool_plan(tool) == ToolPlan::Hosted(
            HostedToolView::XSearch,
        ),
        !searches_web(tool) && !searches_x(tool) ==> match tool.text_at("name"@) {
            Some(name) if name.len() > 0 => {
                &&& request::tool_plan(tool) matches ToolPlan::Function(f)
                &&& f.name == name
                &&& f.description == tool.text_at("description"@)
                &&& tool.get("input_schema"@) matches Some(v) ==> f.parameters == v
                &&& tool.get("input_schema"@) is None && tool.get("parameters"@) is Some
                    ==> f.parameters == tool.get("parameters"@)->0
                &&& tool.get("input_schema"@) is None && tool.get("parameters"@) is None
                    ==> f.parameters == JsonView::Object(
                    seq![
                        ("type"@, JsonView::Text("object"@)),
                        ("properties"@, JsonView::Object(Seq::empty())),
                    ],
                )
            },
            _ => request::tool_plan(tool) is Dropped,
        },
{
    custom_is_no_search();
    if let Some(JsonView::List(items)) = tool.get("allowed_domains"@) {
        strings_are_texts(items);
    }
    json::a_typed_object_has_its_type("object"@);
    let one = seq![("type"@, JsonView::Text("object"@))];
    let none = JsonView::Object(Seq::empty());
    reveal_strlit("type");
    reveal_strlit("properties");
    assert("type"@.len() == 4 && "properties"@.len() == 10);
    json::with_new_name(one, "properties"@, none);
    assert(one.push(("properties"@, none)) =~= seq![
        ("type"@, JsonView::Text("object"@)),
        ("properties"@, none),
    ]);
}

/// Tools come out in the order in which they are declared, each by itself.
pub proof fn tools_keep_their_order(tools: Seq<JsonView>, tool: JsonView)
    ensures
        request::function_tools(Seq::empty()) == Seq::<ToolSpecView>::empty(),
        request::hosted_tools(Seq::empty()) == Seq::<HostedToolView>::empty(),
        match request::tool_plan(tool) {
            ToolPlan::Function(f) => {
                &&& request::function_tools(tools.push(tool)) == request::function_tools(
                    tools,
                ).push(f)
                &&& request::hosted_tools(tools.push(tool)) == request::hosted_tools(tools)
            },
            ToolPlan::Hosted(h) => {
                &&& request::function_tools(tools.push(tool)) == request::function_tools(tools)
                &&& request::hosted_tools(tools.push(tool)) == request::hosted_tools(tools).push(h)
            },
            ToolPlan::Dropped => {
                &&& request::function_tools(tools.push(tool)) == request::function_tools(tools)
                &&& request::hosted_tools(tools.push(tool)) == request::hosted_tools(tools)
            },
        },
{
    assert(tools.push(tool).drop_last() =~= tools);
}

proof fn words_differ()
    ensures
        "auto"@.len() == 4,
        "none"@.len() == 4,
        "any"@.len() == 3,
        "required"@.len() == 8,
        "tool"@.len() == 4,
        "auto"@ != "none"@,
        "auto"@ != "tool"@,
        "none"@ != "tool"@,
        "minimal"@.len() == 7,
        "low"@.len() == 3,
        "medium"@.len() == 6,
        "high"@.len() == 4,
        "xhigh"@.len() == 5,
        "max"@.len() == 3,
        "none"@ != "high"@,
        "low"@ != "max"@,
{
    reveal_strlit("auto");
    reveal_strlit("none");
    reveal_strlit("any");
    reveal_strlit("required");
    reveal_strlit("tool");
    reveal_strlit("minimal");
    reveal_strlit("low");
    reveal_strlit("medium");
    reveal_strlit("high");
    reveal_strlit("xhigh");
    reveal_strlit("max");
    assert("auto"@[0] == 'a' && "none"@[0] == 'n' && "tool"@[0] == 't' && "high"@[0] == 'h');
    assert("low"@[0] == 'l' && "max"@[0] == 'm');
}

/// A tool choice is what it is called, as a text or as a type; a tool is chosen
/// by its name; anything else chooses nothing.
pub proof fn a_tool_choice_is_kept(v: JsonView)
    ensures
        request::tool_choice(None) is None,
        request::tool_choice(Some(JsonView::Text("auto"@))) == Some(ToolChoiceView::Auto),
        request::tool_choice(Some(JsonView::Text("none"@))) == Some(ToolChoiceView::Never),
        request::tool_choice(Some(JsonView::Text("any"@))) == Some(ToolChoiceView::Required),
        request::tool_choice(Some(JsonView::Text("required"@))) == Some(ToolChoiceView::Required),
        v is Object && v.text_at("type"@) == Some("auto"@) ==> request::tool_choice(Some(v))
            == Some(ToolChoiceView::Auto),
        v is Object && v.text_at("type"@) == Some("none"@) ==> request::tool_choice(Some(v))
            == Some(ToolChoiceView::Never),
        v is Object && v.text_at("type"@) == Some("any"@) ==> request::tool_choice(Some(v))
            == Some(ToolChoiceView::Required),
        v is Object && v.text_at("type"@) == Some("tool"@) ==> request::tool_choice(Some(v))
            == match v.text_at("name"@) {
            Some(name) => Some(ToolChoiceView::Function(name)),
            None => None,
        },
        v is Object && v.text_at("type"@) is None ==> request::tool_choice(Some(v)) is None,
        v matches JsonView::Text(s) && s != "auto"@ && s != "none"@ && s != "any"@ && s
            != "required"@ ==> request::tool_choice(Some(v)) is None,
        v is Object && v.text_at("type"@) != Some("auto"@) && v.text_at("type"@) != Some("none"@)
            && v.text_at("type"@) != Some("any"@) && v.text_at("type"@) != Some("tool"@)
            ==> request::tool_choice(Some(v)) is None,
{
    words_differ();
}

/// An effort is what it is called; a name that is not known asks for none.
pub proof fn an_effort_is_kept(s: Seq<char>)
    ensures
        request::named_effort("none"@) == Some(ReasoningEffort::Off),
        request::named_effort("minimal"@) == Some(ReasoningEffort::Low),
        request::named_effort("low"@) == Some(ReasoningEffort::Low),
        request::named_effort("medium"@) == Some(ReasoningEffort::Medium),
        request::named_effort("high"@) == Some(ReasoningEffort::High),
        request::named_effort("xhigh"@) == Some(ReasoningEffort::Xhigh),
        request::named_effort("max"@) == Some(ReasoningEffort::Xhigh),
        request::named_effort(s) is Some ==> s == "none"@ || s == "minimal"@ || s == "low"@ || s
            == "medium"@ || s == "high"@ || s == "xhigh"@ || s == "max"@,
{
    words_differ();
}

/// The model is the one that is asked for, up to a bracket, which is no part of
/// its name; the default stands in for one that is missing or blank.
pub proof fn the_model_is_kept(body: JsonView, default_model: Seq<char>)
    ensures
        match body.text_at("model"@) {
            Some(m) => {
                &&& (forall|i: int| 0 <= i < m.len() ==> #[trigger] m[i] != '[') && m.len() > 0
                    ==> request::model_of(body, default_model) == m
                &&& forall|i: int|
                    0 < i < m.len() && #[trigger] m[i] == '[' && (forall|j: int|
                        0 <= j < i ==> #[trigger] m[j] != '[') ==> request::model_of(
                        body,
                        default_model,
                    ) == m.take(i)
                &&& m.len() == 0 || m[0] == '[' ==> request::model_of(body, default_model)
                    == default_model
            },
            None => request::model_of(body, default_model) == default_model,
        },
{
    if let Some(m) = body.text_at("model"@) {
        if (forall|i: int| 0 <= i < m.len() ==> #[trigger] m[i] != '[') {
            text::position_is(m, '[', m.len() as int);
        }
        assert forall|i: int|
            0 < i < m.len() && #[trigger] m[i] == '[' && (forall|j: int|
                0 <= j < i ==> #[trigger] m[j] != '[') implies request::model_of(
            body,
            default_model,
        ) == m.take(i) by {
            text::position_is(m, '[', i);
        }
        if m.len() > 0 && m[0] == '[' {
            text::position_is(m, '[', 0);
            assert(m.take(0) =~= Seq::empty());
        }
    }
}

/// A request that is accepted carries every option of the body: the tools and
/// the choice among them, the limit on tokens, temperature and `top_p` as they
/// were given, the effort, and the ids of its session, conversation, turn and
/// request.
pub proof fn every_option_is_kept(
    body: JsonView,
    epoch: EpochView,
    default_model: Seq<char>,
    req_id: Seq<char>,
)
    requires
        request::translated(body, epoch, default_model, req_id) is Ok,
    ensures
        ({
            let r = request::translated(body, epoch, default_model, req_id)->Ok_0;
            &&& r.model == Some(request::model_of(body, default_model))
            &&& r.tool_choice == request::tool_choice(body.get("tool_choice"@))
            &&& body.get("tools"@) matches Some(JsonView::List(tools)) ==> r.tools
                == request::function_tools(tools) && r.hosted_tools == request::hosted_tools(tools)
            &&& !(body.get("tools"@) matches Some(JsonView::List(_))) ==> r.tools.len() == 0
                && r.hosted_tools.len() == 0
            &&& match body.get("max_tokens"@) {
                Some(JsonView::Number(JsonNumber::Unsigned(n))) => {
                    &&& r.max_output_tokens is Some
                    &&& n <= u32::MAX ==> r.max_output_tokens->0 == n
                    &&& (n - r.max_output_tokens->0) % 0x1_0000_0000 == 0
                    &&& 0 <= r.max_output_tokens->0 <= u32::MAX
                },
                _ => r.max_output_tokens is None,
            }
            &&& match body.get("temperature"@) {
                Some(JsonView::Number(n)) => r.temperature == Some(n),
                _ => r.temperature is None,
            }
            &&& match body.get("top_p"@) {
                Some(JsonView::Number(n)) => r.top_p == Some(n),
                _ => r.top_p is None,
            }
            &&& match body.get("output_config"@) {
                Some(config) => match config.text_at("effort"@) {
                    Some(name) => r.reasoning_effort == request::named_effort(name),
                    None => r.reasoning_effort is None,
                },
                None => r.reasoning_effort is None,
            }
            &&& r.x_grok_conv_id == Some(epoch.conv_id)
            &&& r.x_grok_session_id == Some(epoch.grok_session_id)
            &&& r.x_grok_turn_idx == Some(text::decimal(epoch.turn as nat))
            &&& r.x_grok_req_id == Some(req_id)
            &&& r.x_grok_agent_id == Some("anthropic-bridge"@)
            &&& r.x_grok_deployment_id is None
            &&& r.x_grok_user_id is None
        }),
{
}

/// The system prompt comes first, where it says anything, and the messages
/// follow it; a request whose prompt or messages cannot be translated is refused
/// for the first of these.
pub proof fn the_system_prompt_comes_first(
    body: JsonView,
    epoch: EpochView,
    default_model: Seq<char>,
    req_id: Seq<char>,
)
    ensures
        ({
            let prompt = match body.get("system"@) {
                Some(v) => request::system_text(v),
                None => Ok(None),
            };
            let r = request::translated(body, epoch, default_model, req_id);
            match (prompt, body.get("messages"@)) {
                (Err(e), _) => r == Err::<RequestView, Seq<char>>(e),
                (Ok(s), Some(JsonView::List(messages))) => match request::messages_items(messages) {
                    Ok(items) => r is Ok && match s {
                        Some(p) if p.len() > 0 => r->Ok_0.items == seq![
                            ConversationItemView::System(p),
                        ] + items,
                        _ => r->Ok_0.items == items,
                    },
                    Err(e) => r == Err::<RequestView, Seq<char>>(e),
                },
                (Ok(_), _) => r == Err::<RequestView, Seq<char>>("messages must be an array"@),
            }
        }),
{
    if let Some(JsonView::List(messages)) = body.get("messages"@) {
        if let Ok(items) = request::messages_items(messages) {
            assert(Seq::<ConversationItemView>::empty() + items =~= items);
        }
    }
}

/// A context hint in brackets is taken off a model, and nothing else is.
pub proof fn a_hint_is_no_part_of_a_model(name: Seq<char>, hint: Seq<char>)
    requires
        forall|i: int| 0 <= i < name.len() ==> #[trigger] name[i] != '[',
    ensures
        request::without_context_suffix(name + seq!['['] + hint) == name,
        request::without_context_suffix(name) == name,
{
    text::a_text_is_split_at_the_first(name, '[', hint);
}

} // verus!
