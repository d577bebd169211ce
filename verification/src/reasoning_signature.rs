//! Opaque thinking signatures that carry Grok's encrypted reasoning through
//! the Anthropic client and back.

use base64::Engine;
use vstd::prelude::*;
use vstd::utf8::*;

use crate::json::Json;
use crate::text;

verus! {

/// What every signature of this bridge begins with.
pub const PREFIX: &'static str = "grok-bridge:v1:";

/// Longest reasoning id, in bytes.
pub const MAX_ID_BYTES: usize = 4096;

/// Longest encrypted content, in bytes.
pub const MAX_ENCRYPTED_CONTENT_BYTES: usize = 8388608;

/// A reasoning item to hand back to Grok.
#[derive(Debug, Clone, PartialEq, Eq)]
pub struct ReasoningReplay {
    pub id: String,
    pub encrypted_content: String,
}

/// The mathematical value of a [`ReasoningReplay`].
pub ghost struct ReplayView {
    pub id: Seq<char>,
    pub encrypted_content: Seq<char>,
}

impl View for ReasoningReplay {
    type V = ReplayView;

    open spec fn view(&self) -> ReplayView {
        ReplayView { id: self.id@, encrypted_content: self.encrypted_content@ }
    }
}

/// The reasoning fields seen so far in a stream.
#[derive(Debug, Clone)]
pub struct PendingReasoning {
    id: Option<String>,
    encrypted_content: Option<String>,
}

/// The mathematical value of a [`PendingReasoning`].
pub ghost struct PendingView {
    pub id: Option<Seq<char>>,
    pub encrypted_content: Option<Seq<char>>,
}

impl PendingView {
    /// Nothing seen yet.
    pub open spec fn empty() -> PendingView {
        PendingView { id: None, encrypted_content: None }
    }

    /// The fields after a reasoning item with these two: a field that is
    /// present and not empty takes the place of the earlier one.
    pub open spec fn capture(
        self,
        id: Option<Seq<char>>,
        encrypted_content: Option<Seq<char>>,
    ) -> PendingView {
        PendingView {
            id: match id {
                Some(s) => if s.len() > 0 {
                    Some(s)
                } else {
                    self.id
                },
                None => self.id,
            },
            encrypted_content: match encrypted_content {
                Some(s) => if s.len() > 0 {
                    Some(s)
                } else {
                    self.encrypted_content
                },
                None => self.encrypted_content,
            },
        }
    }

    /// The item to hand back, once both fields were seen.
    pub open spec fn replay(self) -> Option<ReplayView> {
        match (self.id, self.encrypted_content) {
            (Some(id), Some(encrypted_content)) => Some(ReplayView { id, encrypted_content }),
            _ => None,
        }
    }
}

impl View for PendingReasoning {
    type V = PendingView;

    closed spec fn view(&self) -> PendingView {
        PendingView {
            id: text::opt_string(self.id),
            encrypted_content: text::opt_string(self.encrypted_content),
        }
    }
}

impl Default for PendingReasoning {
    fn default() -> (r: Self)
        ensures
            r@ == PendingView::empty(),
    {
        PendingReasoning { id: None, encrypted_content: None }
    }
}

impl PendingReasoning {
    /// Takes over the fields `id` and `encrypted_content` of a reasoning item.
    pub fn capture(&mut self, item: &Json)
        ensures
            final(self)@ == old(self)@.capture(
                item@.text_at("id"@),
                item@.text_at("encrypted_content"@),
            ),
    {
        self.capture_fields(item.str_at("id"), item.str_at("encrypted_content"));
    }

    /// Takes over the fields that are present and not empty.
    pub fn capture_fields(&mut self, id: Option<&str>, encrypted_content: Option<&str>)
        ensures
            final(self)@ == old(self)@.capture(text::opt_str(id), text::opt_str(encrypted_content)),
    {
        if let Some(s) = id {
            if !s.is_empty() {
                self.id = Some(s.to_owned());
            }
        }
        if let Some(s) = encrypted_content {
            if !s.is_empty() {
                self.encrypted_content = Some(s.to_owned());
            }
        }
    }

    /// The item to hand back, once both fields were seen.
    pub fn replay(&self) -> (r: Option<ReasoningReplay>)
        ensures
            match r {
                Some(x) => self@.replay() == Some(x@),
                None => self@.replay() is None,
            },
    {
        match (&self.id, &self.encrypted_content) {
            (Some(id), Some(encrypted_content)) => Some(
                ReasoningReplay { id: id.clone(), encrypted_content: encrypted_content.clone() },
            ),
            _ => None,
        }
    }
}

/// Longest base64 form of an id.
pub open spec fn id_limit() -> int {
    (MAX_ID_BYTES + 2) / 3 * 4
}

/// Whether a reasoning item is of a size that a signature can carry.
pub open spec fn carriable(r: ReplayView) -> bool {
    &&& 0 < r.id.len()
    &&& text::utf8_len(r.id) <= MAX_ID_BYTES
    &&& 0 < r.encrypted_content.len()
    &&& text::utf8_len(r.encrypted_content) <= MAX_ENCRYPTED_CONTENT_BYTES
}

/// The signature with this base64 id and this encrypted content.
pub open spec fn joined_signature(
    encoded_id: Seq<char>,
    encrypted_content: Seq<char>,
) -> Seq<char> {
    PREFIX@ + encoded_id + ":"@ + encrypted_content
}

/// The signature that carries a reasoning item.
pub open spec fn signature_of(r: ReplayView) -> Option<Seq<char>> {
    if carriable(r) {
        Some(joined_signature(base64_url(encode_utf8(r.id)), r.encrypted_content))
    } else {
        None
    }
}

/// The base64 id and the encrypted content of a signature that has the
/// bridge's prefix and parts within the limits.
pub open spec fn signature_parts(sig: Seq<char>) -> Option<(Seq<char>, Seq<char>)> {
    if !PREFIX@.is_prefix_of(sig) {
        None
    } else {
        let payload = sig.skip(PREFIX@.len() as int);
        if payload.len() == 0 || text::utf8_len(payload) > id_limit() + 1
            + MAX_ENCRYPTED_CONTENT_BYTES {
            None
        } else {
            match text::split_pair(payload, ':') {
                Some((id, content)) => if id.len() == 0 || text::utf8_len(id) > id_limit()
                    || content.len() == 0 || text::utf8_len(content)
                    > MAX_ENCRYPTED_CONTENT_BYTES {
                    None
                } else {
                    Some((id, content))
                },
                None => None,
            }
        }
    }
}

/// The item with these id bytes, where they are a text of permitted length.
pub open spec fn replay_with(id: Option<Seq<u8>>, content: Seq<char>) -> Option<ReplayView> {
    match id {
        Some(bytes) => if bytes.len() == 0 || bytes.len() > MAX_ID_BYTES || !valid_utf8(bytes) {
            None
        } else {
            Some(ReplayView { id: decode_utf8(bytes), encrypted_content: content })
        },
        None => None,
    }
}

/// The reasoning item that a signature carries.
pub open spec fn replay_of(sig: Seq<char>) -> Option<ReplayView> {
    match signature_parts(sig) {
        Some((id, content)) => replay_with(base64_url_bytes(id), content),
        None => None,
    }
}

/// Longest base64 form of an id.
pub fn encoded_id_len_limit() -> (n: usize)
    ensures
        n == id_limit(),
{
    (MAX_ID_BYTES + 2) / 3 * 4
}

/// Longest payload after the prefix.
pub fn max_payload_len() -> (n: usize)
    ensures
        n == id_limit() + 1 + MAX_ENCRYPTED_CONTENT_BYTES,
{
    encoded_id_len_limit() + 1 + MAX_ENCRYPTED_CONTENT_BYTES
}

/// The signature with this base64 id and this encrypted content.
pub fn join_signature(encoded_id: &str, encrypted_content: &str) -> (r: String)
    ensures
        r@ == joined_signature(encoded_id@, encrypted_content@),
{
    let mut out = PREFIX.to_owned();
    out.append(encoded_id);
    out.append(":");
    out.append(encrypted_content);
    out
}

/// A joined signature comes apart again into its two parts.
pub proof fn joined_signature_comes_apart(encoded_id: Seq<char>, content: Seq<char>)
    requires
        0 < encoded_id.len(),
        text::utf8_len(encoded_id) <= id_limit(),
        forall|i: int| 0 <= i < encoded_id.len() ==> #[trigger] encoded_id[i] != ':',
        0 < content.len(),
        text::utf8_len(content) <= MAX_ENCRYPTED_CONTENT_BYTES,
    ensures
        signature_parts(joined_signature(encoded_id, content)) == Some((encoded_id, content)),
{
    reveal_strlit(":");
    let sig = joined_signature(encoded_id, content);
    let payload = sig.skip(PREFIX@.len() as int);
    assert(payload =~= encoded_id + ":"@ + content);
    assert(sig.subrange(0, PREFIX@.len() as int) =~= PREFIX@);
    text::utf8_of_concat(encoded_id + ":"@, content);
    text::utf8_of_concat(encoded_id, ":"@);
    is_ascii_chars_encode_utf8(":"@);
    text::position_is(payload, ':', encoded_id.len() as int);
    assert(payload.take(encoded_id.len() as int) =~= encoded_id);
    assert(payload.skip(encoded_id.len() as int + 1) =~= content);
}

/// The signature that carries a reasoning item, where its parts are neither
/// empty nor too long. Decoding the signature gives the item back.
pub fn encode_reasoning_signature(replay: &ReasoningReplay) -> (r: Option<String>)
    ensures
        text::opt_string(r) == signature_of(replay@),
        r is Some ==> replay_of(r->0@) == Some(replay@),
{
    if replay.id.as_str().is_empty() || text::byte_len(replay.id.as_str()) > MAX_ID_BYTES
        || replay.encrypted_content.as_str().is_empty() || text::byte_len(
        replay.encrypted_content.as_str(),
    ) > MAX_ENCRYPTED_CONTENT_BYTES {
        return None;
    }
    let encoded_id = encode_base64(replay.id.as_str().as_bytes());
    let out = join_signature(encoded_id.as_str(), replay.encrypted_content.as_str());
    proof {
        let bytes = encode_utf8(replay.id@);
        assert(bytes.len() > 0);
        is_ascii_chars_encode_utf8(encoded_id@);
        joined_signature_comes_apart(encoded_id@, replay.encrypted_content@);
        encode_utf8_valid_utf8(replay.id@);
        encode_utf8_decode_utf8(replay.id@);
    }
    Some(out)
}

/// The base64 id and the encrypted content of a signature of this bridge.
pub fn split_signature(signature: &str) -> (r: Option<(String, String)>)
    ensures
        match r {
            Some((id, content)) => signature_parts(signature@) == Some((id@, content@)),
            None => signature_parts(signature@) is None,
        },
{
    if !text::starts_with(signature, PREFIX) {
        return None;
    }
    let from = PREFIX.unicode_len();
    let to = signature.unicode_len();
    let payload = text::slice(signature, from, to);
    assert(payload@ =~= signature@.skip(PREFIX@.len() as int));
    if payload.as_str().is_empty() || text::byte_len(payload.as_str()) > max_payload_len() {
        return None;
    }
    match text::split_once(payload.as_str(), ':') {
        Some((id, content)) => if id.as_str().is_empty() || text::byte_len(id.as_str())
            > encoded_id_len_limit() || content.as_str().is_empty() || text::byte_len(
            content.as_str(),
        ) > MAX_ENCRYPTED_CONTENT_BYTES {
            None
        } else {
            Some((id, content))
        },
        None => None,
    }
}

/// The item with these id bytes, where they are a text of permitted length.
pub fn replay_from_parts(id: Option<Vec<u8>>, encrypted_content: String) -> (r: Option<
    ReasoningReplay,
>)
    ensures
        match r {
            Some(x) => replay_with(
                match id {
                    Some(b) => Some(b@),
                    None => None,
                },
                encrypted_content@,
            ) == Some(x@),
            None => replay_with(
                match id {
                    Some(b) => Some(b@),
                    None => None,
                },
                encrypted_content@,
            ) is None,
        },
{
    match id {
        Some(bytes) => {
            if bytes.len() == 0 || bytes.len() > MAX_ID_BYTES {
                return None;
            }
            match string_from_utf8(bytes) {
                Some(id) => {
                    proof {
                        encode_utf8_valid_utf8(id@);
                        encode_utf8_decode_utf8(id@);
                    }
                    Some(ReasoningReplay { id, encrypted_content })
                },
                None => None,
            }
        },
        None => None,
    }
}

/// The parts of a signature make it up.
proof fn parts_make_the_signature(sig: Seq<char>, id: Seq<char>, content: Seq<char>)
    requires
        signature_parts(sig) == Some((id, content)),
    ensures
        sig == joined_signature(id, content),
{
    reveal_strlit(":");
    let payload = sig.skip(PREFIX@.len() as int);
    let at = text::position(payload, ':');
    text::position_bounds(payload, ':');
    assert(payload =~= id + ":"@ + content);
    assert(sig =~= PREFIX@ + payload);
    assert(sig =~= joined_signature(id, content));
}

/// An item with these id bytes is one that a signature can carry, and its id
/// has these bytes.
proof fn decoded_items_are_carriable(bytes: Seq<u8>, content: Seq<char>, r: ReplayView)
    requires
        replay_with(Some(bytes), content) == Some(r),
        0 < content.len(),
        text::utf8_len(content) <= MAX_ENCRYPTED_CONTENT_BYTES,
    ensures
        carriable(r),
        encode_utf8(r.id) == bytes,
{
    decode_utf8_encode_utf8(bytes);
    assert(encode_utf8(r.id) == bytes);
    if r.id.len() == 0 {
        assert(encode_utf8(r.id).len() == 0);
    }
}

/// The reasoning item that a signature carries; `None` for a signature that
/// this bridge did not make. Encoding the item gives the signature back.
pub fn decode_reasoning_signature(signature: &str) -> (r: Option<ReasoningReplay>)
    ensures
        match r {
            Some(x) => replay_of(signature@) == Some(x@),
            None => replay_of(signature@) is None,
        },
        r is Some ==> signature_of(r->0@) == Some(signature@),
{
    match split_signature(signature) {
        Some((id, content)) => {
            let bytes = decode_base64(id.as_str());
            let ghost id_bytes = bytes->0@;
            let ghost carried = content@;
            let r = replay_from_parts(bytes, content);
            proof {
                if r is Some {
                    parts_make_the_signature(signature@, id@, carried);
                    decoded_items_are_carriable(id_bytes, carried, r->0@);
                }
            }
            r
        },
        None => None,
    }
}

/// A signature without the bridge's prefix carries nothing.
pub proof fn foreign_signatures_carry_nothing(sig: Seq<char>)
    requires
        !PREFIX@.is_prefix_of(sig),
    ensures
        replay_of(sig) is None,
{
}

/// The URL-safe base64 form of bytes, without padding.
pub uninterp spec fn base64_url(bytes: Seq<u8>) -> Seq<char>;

/// The bytes that a URL-safe base64 text without padding stands for; `None`
/// where it is not such a text.
pub uninterp spec fn base64_url_bytes(s: Seq<char>) -> Option<Seq<u8>>;

/// `base64`'s `URL_SAFE_NO_PAD.encode`: four characters of the URL-safe
/// alphabet for each three bytes, two or three for one or two left over, no
/// padding. Decoding gives the bytes back.
#[verifier::external_body]
fn encode_base64(bytes: &[u8]) -> (r: String)
    requires
        bytes@.len() <= 0x3fff_ffff,
    ensures
        r@ == base64_url(bytes@),
        base64_url_bytes(r@) == Some(bytes@),
        r@.len() == (bytes@.len() * 4 + 2) / 3,
        is_ascii_chars(r@),
        forall|i: int| 0 <= i < r@.len() ==> #[trigger] r@[i] != ':',
{
    base64::engine::general_purpose::URL_SAFE_NO_PAD.encode(bytes)
}

/// `base64`'s `URL_SAFE_NO_PAD.decode`: what it reads is a function of the
/// text. It refuses padding, characters outside the alphabet and bits that are
/// left over, so that encoding what it reads gives the text back.
#[verifier::external_body]
fn decode_base64(s: &str) -> (r: Option<Vec<u8>>)
    ensures
        match r {
            Some(bytes) => base64_url_bytes(s@) == Some(bytes@) && base64_url(bytes@) == s@,
            None => base64_url_bytes(s@) is None,
        },
{
    base64::engine::general_purpose::URL_SAFE_NO_PAD.decode(s).ok()
}

/// `String::from_utf8`: the text that the bytes encode, where they are UTF-8.
#[verifier::external_body]
fn string_from_utf8(bytes: Vec<u8>) -> (r: Option<String>)
    ensures
        match r {
            Some(s) => encode_utf8(s@) == bytes@,
            None => !valid_utf8(bytes@),
        },
{
    String::from_utf8(bytes).ok()
}

/// The fields after these items.
pub open spec fn captured(items: Seq<(Option<Seq<char>>, Option<Seq<char>>)>) -> PendingView
    decreases items.len(),
{
    if items.len() == 0 {
        PendingView::empty()
    } else {
        captured(items.drop_last()).capture(items.last().0, items.last().1)
    }
}

/// Of each field the last value that was there and not empty is the one that
/// counts, whatever the other field was; before one there is none.
pub proof fn the_last_fields_count(items: Seq<(Option<Seq<char>>, Option<Seq<char>>)>, at: int)
    requires
        -1 <= at < items.len(),
    ensures
        (at >= 0 ==> items[at].0 is Some && items[at].0->0.len() > 0) && (forall|i: int|
            at < i < items.len() ==> ((#[trigger] items[i]).0 is None || items[i].0->0.len() == 0))
            ==> captured(items).id == (if at >= 0 {
            items[at].0
        } else {
            None
        }),
        (at >= 0 ==> items[at].1 is Some && items[at].1->0.len() > 0) && (forall|i: int|
            at < i < items.len() ==> ((#[trigger] items[i]).1 is None || items[i].1->0.len() == 0))
            ==> captured(items).encrypted_content == (if at >= 0 {
            items[at].1
        } else {
            None
        }),
    decreases items.len(),
{
    if items.len() > 0 {
        let earlier = items.drop_last();
        let n = items.len() - 1;
        if at < n {
            the_last_fields_count(earlier, at);
            assert(forall|i: int| 0 <= i < n ==> #[trigger] earlier[i] == items[i]);
            assert(at >= 0 ==> earlier[at] == items[at]);
            assert(forall|i: int| 0 <= i < n ==> earlier[i] == #[trigger] items[i]);
            assert(items[n] == items.last());
        }
    }
}

/// An item is handed back with the two fields that were seen, once both were.
pub proof fn both_fields_make_an_item(p: PendingView)
    ensures
        p.replay() is Some <==> p.id is Some && p.encrypted_content is Some,
        p.replay() matches Some(r) ==> Some(r.id) == p.id && Some(r.encrypted_content)
            == p.encrypted_content,
{
}

/// A signature carries an item exactly where its id has between 1 and 4096
/// bytes and its content between 1 and 8 MiB; it says that it is the bridge's,
/// in which version, and holds the content as it is.
pub proof fn a_signature_holds_its_item(r: ReplayView)
    ensures
        signature_of(r) is Some <==> r.id.len() > 0 && encode_utf8(r.id).len() <= 4096
            && r.encrypted_content.len() > 0 && encode_utf8(r.encrypted_content).len() <= 8388608,
        signature_of(r) matches Some(sig) ==> sig == "grok-bridge:v1:"@ + base64_url(
            encode_utf8(r.id),
        ) + ":"@ + r.encrypted_content,
{
}

/// The id that a signature carries is the text of its bytes, where it is within
/// the limit; no other bytes are an id.
pub proof fn an_id_is_the_text_of_its_bytes(id: Seq<char>, bytes: Seq<u8>, content: Seq<char>)
    ensures
        0 < id.len() && encode_utf8(id).len() <= 4096 ==> replay_with(
            Some(encode_utf8(id)),
            content,
        ) == Some(ReplayView { id, encrypted_content: content }),
        bytes.len() == 0 || bytes.len() > 4096 || !valid_utf8(bytes) ==> replay_with(
            Some(bytes),
            content,
        ) is None,
        replay_with(None, content) is None,
{
    if 0 < id.len() && encode_utf8(id).len() <= 4096 {
        encode_utf8_valid_utf8(id);
        encode_utf8_decode_utf8(id);
        if encode_utf8(id).len() == 0 {
            assert(false) by {
                let first = seq![id[0]];
                text::utf8_of_concat(first, id.drop_first());
                assert(first + id.drop_first() =~= id);
            }
        }
    }
}

/// A signature that carries an item is made of the bridge's prefix, an id of at
/// most 5464 characters in base64, a colon, and the content of the item.
pub proof fn what_carries_an_item_is_a_signature(sig: Seq<char>)
    requires
        replay_of(sig) is Some,
    ensures
        exists|id: Seq<char>| #[trigger]
            base64_url_bytes(id) is Some && 0 < encode_utf8(id).len() <= 5464 && sig
                == "grok-bridge:v1:"@ + id + ":"@ + replay_of(sig)->0.encrypted_content,
{
    let (id, content) = signature_parts(sig)->0;
    parts_make_the_signature(sig, id, content);
    assert(base64_url_bytes(id) is Some);
    if encode_utf8(id).len() == 0 {
        let first = seq![id[0]];
        text::utf8_of_concat(first, id.drop_first());
        assert(first + id.drop_first() =~= id);
    }
}

} // verus!
