//! Sticky Grok ids for each client session, pinned to its tools.

use std::collections::hash_map::DefaultHasher;
use std::hash::{Hash, Hasher};

use vstd::hash_map::StringHashMap;
use vstd::prelude::*;
use vstd::std_specs::hash::DefaultHasherAdditionalSpecFns;
use vstd::utf8::*;

use crate::ids;
use crate::json;
use crate::json::{Json, JsonView};
use crate::json_order;
use crate::json_order::normalize_json;
use crate::text;

verus! {

/// What one client session sticks to.
#[derive(Debug, Clone, PartialEq, Eq)]
pub struct SessionEpoch {
    pub claude_session_id: String,
    pub grok_session_id: String,
    pub conv_id: String,
    /// Turns since the tools last changed.
    pub turn: u64,
    /// Hash of the tools of the session, once it had any.
    pub tools_hash: Option<String>,
    /// How often the tools changed.
    pub epoch: u64,
}

/// The mathematical value of a [`SessionEpoch`].
pub ghost struct EpochView {
    pub claude_session_id: Seq<char>,
    pub grok_session_id: Seq<char>,
    pub conv_id: Seq<char>,
    pub turn: int,
    pub tools_hash: Option<Seq<char>>,
    pub epoch: int,
}

impl View for SessionEpoch {
    type V = EpochView;

    open spec fn view(&self) -> EpochView {
        EpochView {
            claude_session_id: self.claude_session_id@,
            grok_session_id: self.grok_session_id@,
            conv_id: self.conv_id@,
            turn: self.turn as int,
            tools_hash: text::opt_string(self.tools_hash),
            epoch: self.epoch as int,
        }
    }
}

impl EpochView {
    /// A session before its first turn.
    pub open spec fn new(claude_session_id: Seq<char>, conv_id: Seq<char>) -> EpochView {
        EpochView {
            claude_session_id,
            grok_session_id: claude_session_id,
            conv_id,
            turn: 0,
            tools_hash: None,
            epoch: 0,
        }
    }

    /// The session with a turn begun that has these tools. The first tools pin
    /// the session; other tools open a new epoch with conversation `fresh`.
    pub open spec fn next_turn(self, tools_hash: Option<Seq<char>>, fresh: Seq<char>) -> EpochView {
        match (self.tools_hash, tools_hash) {
            (None, Some(h)) => EpochView { tools_hash: Some(h), turn: self.turn + 1, ..self },
            (Some(pinned), Some(h)) if pinned != h => EpochView {
                epoch: self.epoch + 1,
                conv_id: fresh,
                turn: 1,
                tools_hash: Some(h),
                ..self
            },
            _ => EpochView { turn: self.turn + 1, ..self },
        }
    }
}

/// The session that begins a turn: the one known under `key`, or a new one.
pub open spec fn session_at(
    sessions: Map<Seq<char>, EpochView>,
    key: Seq<char>,
    fresh: Seq<char>,
) -> EpochView {
    if sessions.contains_key(key) {
        sessions[key]
    } else {
        EpochView::new(key, fresh)
    }
}

impl SessionEpoch {
    /// A session before its first turn.
    fn new(claude_session_id: String, conv_id: String) -> (r: SessionEpoch)
        ensures
            r@ == EpochView::new(claude_session_id@, conv_id@),
    {
        SessionEpoch {
            grok_session_id: claude_session_id.clone(),
            conv_id,
            claude_session_id,
            turn: 0,
            tools_hash: None,
            epoch: 0,
        }
    }

    /// A copy of this session.
    pub fn duplicate(&self) -> (r: SessionEpoch)
        ensures
            r == *self,
    {
        SessionEpoch {
            claude_session_id: self.claude_session_id.clone(),
            grok_session_id: self.grok_session_id.clone(),
            conv_id: self.conv_id.clone(),
            turn: self.turn,
            tools_hash: match &self.tools_hash {
                Some(h) => Some(h.clone()),
                None => None,
            },
            epoch: self.epoch,
        }
    }

    /// Begins a turn with these tools.
    fn advance(&mut self, tools_hash: Option<String>, fresh_conv_id: String)
        requires
            old(self).turn < u64::MAX,
            old(self).epoch < u64::MAX,
        ensures
            final(self)@ == old(self)@.next_turn(text::opt_string(tools_hash), fresh_conv_id@),
    {
        match (&self.tools_hash, tools_hash) {
            (None, Some(h)) => {
                self.tools_hash = Some(h);
            },
            (Some(pinned), Some(h)) => {
                if !text::same(pinned.as_str(), h.as_str()) {
                    self.epoch += 1;
                    self.conv_id = fresh_conv_id;
                    self.turn = 0;
                    self.tools_hash = Some(h);
                }
            },
            _ => {},
        }
        self.turn += 1;
    }
}

/// The sessions of one serve process.
pub struct SessionRegistry {
    sessions: StringHashMap<SessionEpoch>,
    turns: u64,
}

impl View for SessionRegistry {
    type V = Map<Seq<char>, EpochView>;

    closed spec fn view(&self) -> Map<Seq<char>, EpochView> {
        Map::new(|k: Seq<char>| self.sessions@.contains_key(k), |k: Seq<char>| self.sessions@[k]@)
    }
}

impl Default for SessionRegistry {
    /// A registry without sessions.
    fn default() -> (r: SessionRegistry)
        ensures
            r.wf(),
            r@ == Map::<Seq<char>, EpochView>::empty(),
            r.turn_count() == 0,
    {
        SessionRegistry::new()
    }
}

impl SessionRegistry {
    /// No session counts more turns or epochs than all turns that began, and
    /// each is kept under its own id.
    pub closed spec fn wf(&self) -> bool {
        &&& kept_by_id(self@)
        &&& forall|k: Seq<char>| #[trigger]
            self@.contains_key(k) ==> 0 <= self@[k].turn <= self.turns && 0 <= self@[k].epoch
                <= self.turns
    }

    /// Every session is kept under its own id.
    pub proof fn sessions_are_kept_by_id(&self)
        requires
            self.wf(),
        ensures
            kept_by_id(self@),
    {
    }

    /// How many turns began.
    pub closed spec fn turn_count(&self) -> int {
        self.turns as int
    }

    /// A registry without sessions.
    pub fn new() -> (r: SessionRegistry)
        ensures
            r.wf(),
            r@ == Map::<Seq<char>, EpochView>::empty(),
            r.turn_count() == 0,
    {
        let r = SessionRegistry { sessions: StringHashMap::new(), turns: 0 };
        assert(r@ =~= Map::empty());
        r
    }

    /// How many turns began.
    pub fn turns(&self) -> (r: u64)
        ensures
            r == self.turn_count(),
    {
        self.turns
    }

    /// Begins a turn of the session `key` with tools of this hash. A session
    /// that is new or whose tools changed gets `fresh_conv_id`.
    pub fn begin_turn_with(
        &mut self,
        key: &str,
        tools_hash: Option<String>,
        fresh_conv_id: String,
    ) -> (r: SessionEpoch)
        requires
            old(self).wf(),
            old(self).turn_count() < u64::MAX,
        ensures
            final(self).wf(),
            final(self).turn_count() == old(self).turn_count() + 1,
            r@ == session_at(old(self)@, key@, fresh_conv_id@).next_turn(
                text::opt_string(tools_hash),
                fresh_conv_id@,
            ),
            final(self)@ == old(self)@.insert(key@, r@),
    {
        let ghost before = self@;
        let mut entry = match self.sessions.get(key) {
            Some(e) => {
                assert(self@.contains_key(key@));
                e.duplicate()
            },
            None => SessionEpoch::new(key.to_owned(), fresh_conv_id.clone()),
        };
        assert(entry@ == session_at(before, key@, fresh_conv_id@));
        entry.advance(tools_hash, fresh_conv_id);
        let snapshot = entry.duplicate();
        self.turns += 1;
        self.sessions.insert(key.to_owned(), entry);
        assert(self@ =~= before.insert(key@, entry@));
        snapshot
    }

    /// Begins a turn of a client session with these tools. A turn without a
    /// session id is the first of a session of its own.
    pub fn begin_turn(&mut self, claude_session_id: Option<&str>, tools: Option<&Json>) -> (r:
        SessionEpoch)
        requires
            old(self).wf(),
            old(self).turn_count() < u64::MAX,
            tools is Some ==> tools->0@.wf(),
        ensures
            final(self).wf(),
            final(self).turn_count() == old(self).turn_count() + 1,
            turn_begun(
                old(self)@,
                text::opt_str(claude_session_id),
                json::opt_json(tools),
                r@,
                final(self)@,
            ),
    {
        let key = match claude_session_id {
            Some(id) => if id.is_empty() {
                ids::new_uuid()
            } else {
                id.to_owned()
            },
            None => ids::new_uuid(),
        };
        let tools_hash = match tools {
            Some(t) => Some(canonical_tools_hash(t)),
            None => None,
        };
        let fresh = ids::new_uuid();
        assert(turn_key(text::opt_str(claude_session_id), key@));
        assert(ids::is_uuid_text(fresh@));
        self.begin_turn_with(key.as_str(), tools_hash, fresh)
    }
}

/// Whether beginning a turn with this session id and these tools can lead from
/// the sessions `before` to the session `r` and the sessions `after`: which
/// random ids were drawn is left open.
pub open spec fn turn_begun(
    before: Map<Seq<char>, EpochView>,
    id: Option<Seq<char>>,
    tools: Option<JsonView>,
    r: EpochView,
    after: Map<Seq<char>, EpochView>,
) -> bool {
    exists|key: Seq<char>, fresh: Seq<char>|
        {
            &&& #[trigger] turn_key(id, key)
            &&& #[trigger] ids::is_uuid_text(fresh)
            &&& r == session_at(before, key, fresh).next_turn(hash_of_tools(tools), fresh)
            &&& after == before.insert(key, r)
        }
}

/// Whether a turn with this session id is kept under `key`: under its id where
/// it has one that is not empty, else under a random one.
pub open spec fn turn_key(id: Option<Seq<char>>, key: Seq<char>) -> bool {
    match id {
        Some(id) if id.len() > 0 => key == id,
        _ => ids::is_uuid_text(key),
    }
}

/// Whether every session is kept under its own id, which is also its Grok id.
pub open spec fn kept_by_id(sessions: Map<Seq<char>, EpochView>) -> bool {
    forall|k: Seq<char>| #[trigger]
        sessions.contains_key(k) ==> sessions[k].claude_session_id == k
            && sessions[k].grok_session_id == k
}

/// A turn keeps every session under its own id, and is one of the session whose
/// id it was given, where it was given one that is not empty.
pub proof fn sessions_stay_under_their_id(
    before: Map<Seq<char>, EpochView>,
    id: Option<Seq<char>>,
    tools: Option<JsonView>,
    r: EpochView,
    after: Map<Seq<char>, EpochView>,
)
    requires
        kept_by_id(before),
        turn_begun(before, id, tools, r, after),
    ensures
        kept_by_id(after),
        turn_key(id, r.claude_session_id),
        r.grok_session_id == r.claude_session_id,
        after == before.insert(r.claude_session_id, r),
{
}

/// A session goes on from its last turn: with its own tools, or without any, it
/// keeps its conversation and counts the turn; the first tools pin it; other
/// tools open an epoch with a fresh conversation.
pub proof fn a_session_goes_on(
    before: Map<Seq<char>, EpochView>,
    s: Seq<char>,
    tools: Option<JsonView>,
    r: EpochView,
    after: Map<Seq<char>, EpochView>,
)
    requires
        s.len() > 0,
        before.contains_key(s),
        turn_begun(before, Some(s), tools, r, after),
    ensures
        after == before.insert(s, r),
        ({
            let e = before[s];
            match hash_of_tools(tools) {
                Some(h) if e.tools_hash is Some && e.tools_hash != Some(h) => {
                    &&& ids::is_uuid_text(r.conv_id)
                    &&& r == (EpochView {
                        conv_id: r.conv_id,
                        turn: 1,
                        tools_hash: Some(h),
                        epoch: e.epoch + 1,
                        ..e
                    })
                },
                Some(h) => r == (EpochView { turn: e.turn + 1, tools_hash: Some(h), ..e }),
                None => r == (EpochView { turn: e.turn + 1, ..e }),
            }
        }),
{
}

/// A session that was not known begins with its first turn in its first epoch.
pub proof fn a_new_session_begins(
    before: Map<Seq<char>, EpochView>,
    id: Option<Seq<char>>,
    tools: Option<JsonView>,
    r: EpochView,
    after: Map<Seq<char>, EpochView>,
)
    requires
        kept_by_id(before),
        turn_begun(before, id, tools, r, after),
        !before.contains_key(r.claude_session_id),
    ensures
        r.turn == 1,
        r.epoch == 0,
        r.tools_hash == hash_of_tools(tools),
        ids::is_uuid_text(r.conv_id),
{
}

/// Turns of other sessions leave a session as it is.
pub proof fn other_sessions_do_not_matter(
    before: Map<Seq<char>, EpochView>,
    s: Seq<char>,
    id: Option<Seq<char>>,
    tools: Option<JsonView>,
    r: EpochView,
    after: Map<Seq<char>, EpochView>,
)
    requires
        kept_by_id(before),
        turn_begun(before, id, tools, r, after),
        r.claude_session_id != s,
    ensures
        after.contains_key(s) == before.contains_key(s),
        before.contains_key(s) ==> after[s] == before[s],
{
}

/// The hash of optional tools.
pub open spec fn hash_of_tools(tools: Option<JsonView>) -> Option<Seq<char>> {
    match tools {
        Some(t) => Some(tools_hash_text(t)),
        None => None,
    }
}

/// A lower-case hexadecimal digit.
pub open spec fn hex_char(d: int) -> char {
    if d < 10 {
        ('0' as int + d) as char
    } else {
        ('a' as int + d - 10) as char
    }
}

/// The last `n` hexadecimal digits of a number.
pub open spec fn hex_digits(v: int, n: nat) -> Seq<char>
    decreases n,
{
    if n == 0 {
        Seq::empty()
    } else {
        hex_digits(v / 16, (n - 1) as nat).push(hex_char(v % 16))
    }
}

/// The hash of tools: 16 hexadecimal digits of the digest of their JSON text
/// with sorted members.
pub open spec fn tools_hash_text(tools: JsonView) -> Seq<char> {
    hex_digits(
        std_digest(encode_utf8(json::json_text(tools.sorted())), usize::BITS as nat) as int,
        16,
    )
}

/// What a new `DefaultHasher` makes of a byte slice, on a machine whose words
/// have `word_bits` bits.
pub open spec fn std_digest(bytes: Seq<u8>, word_bits: nat) -> u64 {
    DefaultHasher::spec_finish(slice_writes(bytes, word_bits))
}

/// What a new `DefaultHasher` makes of a byte slice.
fn digest(bytes: &[u8]) -> (r: u64)
    ensures
        r == std_digest(bytes@, usize::BITS as nat),
{
    let mut hasher = DefaultHasher::new();
    feed(bytes, &mut hasher);
    assert(hasher@ =~= slice_writes(bytes@, usize::BITS as nat));
    hasher.finish()
}

fn hex_digit_text(d: u64) -> (r: &'static str)
    requires
        d < 16,
    ensures
        r@ == seq![hex_char(d as int)],
{
    proof {
        reveal_strlit("0");
        reveal_strlit("1");
        reveal_strlit("2");
        reveal_strlit("3");
        reveal_strlit("4");
        reveal_strlit("5");
        reveal_strlit("6");
        reveal_strlit("7");
        reveal_strlit("8");
        reveal_strlit("9");
        reveal_strlit("a");
        reveal_strlit("b");
        reveal_strlit("c");
        reveal_strlit("d");
        reveal_strlit("e");
        reveal_strlit("f");
    }
    match d {
        0 => "0",
        1 => "1",
        2 => "2",
        3 => "3",
        4 => "4",
        5 => "5",
        6 => "6",
        7 => "7",
        8 => "8",
        9 => "9",
        10 => "a",
        11 => "b",
        12 => "c",
        13 => "d",
        14 => "e",
        _ => "f",
    }
}

/// The last `n` hexadecimal digits of a number.
fn to_hex(v: u64, n: usize) -> (r: String)
    ensures
        r@ == hex_digits(v as int, n as nat),
    decreases n,
{
    if n == 0 {
        let r = String::new();
        assert(r@ =~= Seq::empty());
        r
    } else {
        let mut head = to_hex(v / 16, n - 1);
        head.append(hex_digit_text(v % 16));
        assert(head@ =~= hex_digits(v as int, n as nat));
        head
    }
}

/// The hash of tools, equal for tools that differ only in the order of members.
pub fn canonical_tools_hash(tools: &Json) -> (r: String)
    requires
        tools@.wf(),
    ensures
        r@ == tools_hash_text(tools@),
{
    let normalized = normalize_json(tools);
    proof {
        json_order::sorting_twice_is_sorting_once(tools@);
    }
    to_hex(digest(normalized.to_text().as_str().as_bytes()), 16)
}

/// Tools that differ only in the order of members have the same hash.
pub proof fn tools_hash_ignores_member_order(a: JsonView, b: JsonView)
    requires
        a.wf(),
        b.wf(),
        a.reordered(b),
    ensures
        tools_hash_text(a) == tools_hash_text(b),
{
    json_order::reordered_values_sort_alike(a, b);
}

/// The session after a turn for each of these tools.
pub open spec fn after_turns(
    session: EpochView,
    tools: Seq<Option<Seq<char>>>,
    fresh: Seq<Seq<char>>,
) -> EpochView
    decreases tools.len(),
{
    if tools.len() == 0 {
        session
    } else {
        let n = tools.len() - 1;
        after_turns(session, tools.drop_last(), fresh).next_turn(tools[n], fresh[n])
    }
}

/// While the tools stay the same or are left out, turns count up and everything
/// else of a pinned session sticks.
pub proof fn a_session_sticks_to_its_tools(
    session: EpochView,
    pinned: Seq<char>,
    tools: Seq<Option<Seq<char>>>,
    fresh: Seq<Seq<char>>,
)
    requires
        session.tools_hash == Some(pinned),
        forall|i: int|
            0 <= i < tools.len() ==> (#[trigger] tools[i] is None || tools[i] == Some(pinned)),
    ensures
        after_turns(session, tools, fresh) == (EpochView {
            turn: session.turn + tools.len(),
            ..session
        }),
    decreases tools.len(),
{
    if tools.len() > 0 {
        let n = tools.len() - 1;
        let earlier = tools.drop_last();
        assert forall|i: int| 0 <= i < earlier.len() implies (#[trigger] earlier[i] is None
            || earlier[i] == Some(pinned)) by {
            assert(earlier[i] == tools[i]);
        }
        a_session_sticks_to_its_tools(session, pinned, earlier, fresh);
        assert(tools[n] is None || tools[n] == Some(pinned));
    }
}

/// Other tools open a new epoch: a fresh conversation at its first turn, under
/// the same session ids.
pub proof fn other_tools_open_a_new_epoch(
    session: EpochView,
    pinned: Seq<char>,
    other: Seq<char>,
    fresh: Seq<char>,
)
    requires
        session.tools_hash == Some(pinned),
        other != pinned,
    ensures
        session.next_turn(Some(other), fresh) == (EpochView {
            conv_id: fresh,
            turn: 1,
            tools_hash: Some(other),
            epoch: session.epoch + 1,
            ..session
        }),
{
}

/// What std writes to a hasher for a byte slice, on the target that the library
/// is built for: one whose words have `word_bits` bits, lowest byte first. The
/// name holds per target; targets of another byte order write other bytes, and
/// digests are compared within one process only.
pub uninterp spec fn slice_writes(bytes: Seq<u8>, word_bits: nat) -> Seq<Seq<u8>>;

/// `Hash::hash` of a byte slice: writes the slice to the hasher, after what it
/// was given before. The slice feeds its length, as a machine word, and its
/// bytes, so what is written is a function of the bytes and of the word's width
/// (in little-endian order, that of every platform this library is built for).
#[verifier::external_body]
fn feed(bytes: &[u8], hasher: &mut DefaultHasher)
    ensures
        final(hasher)@ == old(hasher)@ + slice_writes(bytes@, usize::BITS as nat),
{
    bytes.hash(hasher);
}

/// What a lower-case hexadecimal digit counts.
pub open spec fn digit_value(c: char) -> int {
    if '0' <= c <= '9' {
        c as int - '0' as int
    } else {
        c as int - 'a' as int + 10
    }
}

/// The number that hexadecimal digits stand for.
pub open spec fn hex_value(s: Seq<char>) -> int
    decreases s.len(),
{
    if s.len() == 0 {
        0
    } else {
        hex_value(s.drop_last()) * 16 + digit_value(s.last())
    }
}

/// How many numbers `n` hexadecimal digits can tell apart.
pub open spec fn hex_range(n: nat) -> int
    decreases n,
{
    if n == 0 {
        1
    } else {
        hex_range((n - 1) as nat) * 16
    }
}

proof fn digits_stand_for_their_number(v: int, n: nat)
    requires
        0 <= v < hex_range(n),
    ensures
        hex_digits(v, n).len() == n,
        hex_value(hex_digits(v, n)) == v,
        forall|i: int|
            0 <= i < n ==> ('0' <= #[trigger] hex_digits(v, n)[i] <= '9' || 'a' <= hex_digits(
                v,
                n,
            )[i] <= 'f'),
    decreases n,
{
    if n > 0 {
        let m = (n - 1) as nat;
        digits_stand_for_their_number(v / 16, m);
        let head = hex_digits(v / 16, m);
        let all = hex_digits(v, n);
        assert(all.drop_last() =~= head);
        let d = v % 16;
        assert(0 <= d < 16);
        assert(hex_char(d) as int == if d < 10 {
            48 + d
        } else {
            87 + d
        });
        assert(digit_value(all.last()) == d);
        assert forall|i: int| 0 <= i < n implies ('0' <= #[trigger] all[i] <= '9' || 'a' <= all[i]
            <= 'f') by {
            if i < m {
                assert(all[i] == head[i]);
            }
        }
    }
}

proof fn sixteen_digits_hold_a_word()
    ensures
        hex_range(16) == 0x1_0000_0000_0000_0000,
{
    reveal_with_fuel(hex_range, 17);
}

/// The hash of tools is the digest, in 16 lower-case hexadecimal digits, of what
/// the hasher is given for all the bytes of their sorted JSON text.
pub proof fn the_hash_is_the_digest_of_all_bytes(tools: JsonView)
    ensures
        tools_hash_text(tools).len() == 16,
        forall|i: int|
            0 <= i < 16 ==> ('0' <= #[trigger] tools_hash_text(tools)[i] <= '9' || 'a'
                <= tools_hash_text(tools)[i] <= 'f'),
        hex_value(tools_hash_text(tools)) == DefaultHasher::spec_finish(
            slice_writes(encode_utf8(json::json_text(tools.sorted())), usize::BITS as nat),
        ),
{
    sixteen_digits_hold_a_word();
    digits_stand_for_their_number(
        DefaultHasher::spec_finish(
            slice_writes(encode_utf8(json::json_text(tools.sorted())), usize::BITS as nat),
        ) as int,
        16,
    );
}

/// Two tools have the same hash exactly where the digests of their whole sorted
/// JSON texts are the same: tools whose texts differ share a hash only where
/// these digests collide.
pub proof fn only_a_collision_hides_other_tools(a: JsonView, b: JsonView)
    ensures
        tools_hash_text(a) == tools_hash_text(b) <==> DefaultHasher::spec_finish(
            slice_writes(encode_utf8(json::json_text(a.sorted())), usize::BITS as nat),
        ) == DefaultHasher::spec_finish(
            slice_writes(encode_utf8(json::json_text(b.sorted())), usize::BITS as nat),
        ),
        json::json_text(a.sorted()) == json::json_text(b.sorted()) ==> tools_hash_text(a)
            == tools_hash_text(b),
{
    the_hash_is_the_digest_of_all_bytes(a);
    the_hash_is_the_digest_of_all_bytes(b);
}

/// A session that turned to tools `a` and then to tools `b` stays in its epoch
/// and conversation where the whole texts of both have the same digest, and
/// leaves them where they do not.
pub proof fn a_session_follows_its_tools(
    start: Map<Seq<char>, EpochView>,
    s: Seq<char>,
    a: JsonView,
    first: EpochView,
    between: Map<Seq<char>, EpochView>,
    b: JsonView,
    second: EpochView,
    end: Map<Seq<char>, EpochView>,
)
    requires
        kept_by_id(start),
        s.len() > 0,
        turn_begun(start, Some(s), Some(a), first, between),
        turn_begun(between, Some(s), Some(b), second, end),
    ensures
        ({
            let same = DefaultHasher::spec_finish(
                slice_writes(encode_utf8(json::json_text(a.sorted())), usize::BITS as nat),
            ) == DefaultHasher::spec_finish(
                slice_writes(encode_utf8(json::json_text(b.sorted())), usize::BITS as nat),
            );
            &&& second.claude_session_id == s
            &&& second.grok_session_id == s
            &&& same ==> second.epoch == first.epoch && second.turn == first.turn + 1
                && second.conv_id == first.conv_id
            &&& !same ==> second.epoch == first.epoch + 1 && second.turn == 1 && ids::is_uuid_text(
                second.conv_id,
            )
        }),
{
    sessions_stay_under_their_id(start, Some(s), Some(a), first, between);
    sessions_stay_under_their_id(between, Some(s), Some(b), second, end);
    a_session_goes_on(between, s, Some(b), second, end);
    only_a_collision_hides_other_tools(a, b);
}

/// A turn without tools only counts the turn; a session that begins has a hash
/// of its tools exactly where it has tools.
pub proof fn a_turn_without_tools_only_counts(
    before: Map<Seq<char>, EpochView>,
    s: Seq<char>,
    tools: Option<JsonView>,
    r: EpochView,
    after: Map<Seq<char>, EpochView>,
)
    requires
        kept_by_id(before),
        s.len() > 0,
        turn_begun(before, Some(s), tools, r, after),
    ensures
        before.contains_key(s) && tools is None ==> r == (EpochView {
            turn: before[s].turn + 1,
            ..before[s]
        }),
        !before.contains_key(s) ==> (r.tools_hash is Some <==> tools is Some) && r.turn == 1
            && r.epoch == 0 && r.claude_session_id == s && r.grok_session_id == s,
        before.contains_key(s) && before[s].tools_hash is None && tools is Some ==> r.tools_hash is Some
            && r.conv_id == before[s].conv_id && r.turn == before[s].turn + 1 && r.epoch
            == before[s].epoch,
{
}

} // verus!
