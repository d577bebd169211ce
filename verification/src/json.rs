//! JSON values: the tree that requests, tools and payloads are made of.
//!
//! Reading and printing JSON text is the work of `serde_json`; the items that
//! call it are listed at the end of this file.

use vstd::prelude::*;

use crate::text;

verus! {

/// A JSON number.
#[derive(Debug, PartialEq)]
pub enum JsonNumber {
    /// A whole number from zero to `u64::MAX`.
    Unsigned(u64),
    /// A whole number below zero.
    Negative(i64),
    /// A number with a fraction or an exponent.
    Fraction(serde_json::Number),
}

/// A JSON value.
#[derive(Debug, PartialEq)]
pub enum Json {
    Null,
    Bool(bool),
    Number(JsonNumber),
    Text(String),
    List(Vec<Json>),
    /// Members in order; no two have the same name.
    Object(Vec<(String, Json)>),
}

/// The mathematical value of a [`Json`].
pub ghost enum JsonView {
    Null,
    Bool(bool),
    Number(JsonNumber),
    Text(Seq<char>),
    List(Seq<JsonView>),
    Object(Seq<(Seq<char>, JsonView)>),
}

/// Position of the member named `key`, or the number of members.
pub open spec fn member_position(members: Seq<(Seq<char>, JsonView)>, key: Seq<char>) -> int
    decreases members.len(),
{
    if members.len() == 0 || members[0].0 == key {
        0
    } else {
        1 + member_position(members.drop_first(), key)
    }
}

/// Whether no two members have the same name.
pub open spec fn distinct_names(members: Seq<(Seq<char>, JsonView)>) -> bool {
    forall|i: int, j: int|
        0 <= i < j < members.len() ==> (#[trigger] members[i]).0 != (#[trigger] members[j]).0
}

/// Whether text `a` comes before text `b`, character by character.
pub open spec fn text_before(a: Seq<char>, b: Seq<char>) -> bool
    decreases a.len(),
{
    if b.len() == 0 {
        false
    } else if a.len() == 0 {
        true
    } else if a[0] != b[0] {
        a[0] < b[0]
    } else {
        text_before(a.drop_first(), b.drop_first())
    }
}

/// Members in ascending order of name with `m` added in its place.
pub open spec fn insert_member(
    members: Seq<(Seq<char>, JsonView)>,
    m: (Seq<char>, JsonView),
) -> Seq<(Seq<char>, JsonView)>
    decreases members.len(),
{
    if members.len() > 0 && text_before(m.0, members.last().0) {
        insert_member(members.drop_last(), m).push(members.last())
    } else {
        members.push(m)
    }
}

/// The members in ascending order of name.
pub open spec fn sort_members(members: Seq<(Seq<char>, JsonView)>) -> Seq<(Seq<char>, JsonView)>
    decreases members.len(),
{
    if members.len() == 0 {
        members
    } else {
        insert_member(sort_members(members.drop_last()), members.last())
    }
}

/// A number that is held as what it is.
pub open spec fn number_wf(n: JsonNumber) -> bool {
    match n {
        JsonNumber::Unsigned(_) => true,
        JsonNumber::Negative(i) => i < 0,
        JsonNumber::Fraction(f) => is_fraction(f),
    }
}

impl JsonView {
    /// A value that JSON text can stand for: member names do not repeat and
    /// numbers are held as what they are.
    pub open spec fn wf(self) -> bool
        decreases self,
    {
        match self {
            JsonView::Number(n) => number_wf(n),
            JsonView::List(items) => forall|i: int|
                0 <= i < items.len() ==> (#[trigger] items[i]).wf(),
            JsonView::Object(members) => distinct_names(members) && forall|i: int|
                0 <= i < members.len() ==> (#[trigger] members[i]).1.wf(),
            _ => true,
        }
    }

    /// The member named `key`, where this is an object that has it.
    pub open spec fn get(self, key: Seq<char>) -> Option<JsonView> {
        match self {
            JsonView::Object(members) => {
                let at = member_position(members, key);
                if at < members.len() {
                    Some(members[at].1)
                } else {
                    None
                }
            },
            _ => None,
        }
    }

    /// The text, where this is one.
    pub open spec fn as_text(self) -> Option<Seq<char>> {
        match self {
            JsonView::Text(s) => Some(s),
            _ => None,
        }
    }

    /// The text of the member named `key`, where there is one and it is a text.
    pub open spec fn text_at(self, key: Seq<char>) -> Option<Seq<char>> {
        match self.get(key) {
            Some(v) => v.as_text(),
            None => None,
        }
    }

    /// The items, where this is a list.
    pub open spec fn as_list(self) -> Option<Seq<JsonView>> {
        match self {
            JsonView::List(items) => Some(items),
            _ => None,
        }
    }

    /// The whole number from zero on, where this is one.
    pub open spec fn as_unsigned(self) -> Option<u64> {
        match self {
            JsonView::Number(JsonNumber::Unsigned(n)) => Some(n),
            _ => None,
        }
    }

    /// The object with the member `key` set to `value`.
    pub open spec fn with(self, key: Seq<char>, value: JsonView) -> JsonView {
        match self {
            JsonView::Object(members) => {
                let at = member_position(members, key);
                if at < members.len() {
                    JsonView::Object(members.update(at, (key, value)))
                } else {
                    JsonView::Object(members.push((key, value)))
                }
            },
            _ => self,
        }
    }

    /// The same value with the members of every object in ascending order of
    /// name.
    pub open spec fn sorted(self) -> JsonView
        decreases self,
    {
        match self {
            JsonView::List(items) => JsonView::List(
                Seq::new(
                    items.len(),
                    |i: int|
                        if 0 <= i < items.len() {
                            items[i].sorted()
                        } else {
                            JsonView::Null
                        },
                ),
            ),
            JsonView::Object(members) => JsonView::Object(
                sort_members(sorted_values(members)),
            ),
            _ => self,
        }
    }

    /// Whether the two values differ at most in the order of members.
    pub open spec fn reordered(self, other: JsonView) -> bool
        decreases self,
    {
        match (self, other) {
            (JsonView::List(a), JsonView::List(b)) => a.len() == b.len() && forall|i: int|
                0 <= i < a.len() ==> (#[trigger] a[i]).reordered(b[i]),
            (JsonView::Object(a), JsonView::Object(b)) => {
                &&& forall|i: int|
                    0 <= i < a.len() ==> {
                        let at = member_position(b, (#[trigger] a[i]).0);
                        at < b.len() && a[i].1.reordered(b[at].1)
                    }
                &&& forall|j: int|
                    0 <= j < b.len() ==> member_position(a, (#[trigger] b[j]).0) < a.len()
            },
            _ => self == other,
        }
    }
}

/// The members, each with its value [`JsonView::sorted`].
pub open spec fn sorted_values(members: Seq<(Seq<char>, JsonView)>) -> Seq<(Seq<char>, JsonView)>
    decreases members,
{
    Seq::new(
        members.len(),
        |i: int|
            if 0 <= i < members.len() {
                (members[i].0, members[i].1.sorted())
            } else {
                (Seq::empty(), JsonView::Null)
            },
    )
}

/// The empty object.
pub open spec fn empty_object() -> JsonView {
    JsonView::Object(Seq::empty())
}

/// A text.
pub open spec fn text_value(s: Seq<char>) -> JsonView {
    JsonView::Text(s)
}

/// The values of a list of JSON values.
pub open spec fn values(items: Seq<Json>) -> Seq<JsonView> {
    items.map_values(|v: Json| v@)
}

/// The value of an optional JSON value.
pub open spec fn opt_json(v: Option<&Json>) -> Option<JsonView> {
    match v {
        Some(v) => Some(v@),
        None => None,
    }
}

/// The object whose one member `type` is the text `ty`.
pub open spec fn typed_object(ty: Seq<char>) -> JsonView {
    empty_object().with("type"@, text_value(ty))
}

/// Whether a text holds no line break.
pub open spec fn single_line(s: Seq<char>) -> bool {
    forall|i: int| 0 <= i < s.len() ==> #[trigger] s[i] != '\n'
}

/// A whole number.
pub open spec fn number_value(n: u64) -> JsonView {
    JsonView::Number(JsonNumber::Unsigned(n))
}

pub proof fn member_position_bounds(members: Seq<(Seq<char>, JsonView)>, key: Seq<char>)
    ensures
        0 <= member_position(members, key) <= members.len(),
        member_position(members, key) < members.len() ==> members[member_position(
            members,
            key,
        )].0 == key,
        forall|i: int|
            0 <= i < member_position(members, key) ==> (#[trigger] members[i]).0 != key,
    decreases members.len(),
{
    if members.len() > 0 && members[0].0 != key {
        let rest = members.drop_first();
        member_position_bounds(rest, key);
        assert forall|i: int| 0 <= i < member_position(members, key) implies (
        #[trigger] members[i]).0 != key by {
            if i > 0 {
                assert(rest[i - 1] == members[i]);
            }
        }
    }
}

pub proof fn member_position_is(members: Seq<(Seq<char>, JsonView)>, key: Seq<char>, at: int)
    requires
        0 <= at <= members.len(),
        at < members.len() ==> members[at].0 == key,
        forall|i: int| 0 <= i < at ==> (#[trigger] members[i]).0 != key,
    ensures
        member_position(members, key) == at,
{
    member_position_bounds(members, key);
    let p = member_position(members, key);
    if p < at {
        assert(members[p].0 != key);
    } else if at < p {
        assert(members[at].0 != key);
    }
}

/// Setting a member keeps the names distinct.
pub proof fn with_keeps_wf(v: JsonView, key: Seq<char>, value: JsonView)
    requires
        v.wf(),
        value.wf(),
    ensures
        v.with(key, value).wf(),
{
    if let JsonView::Object(members) = v {
        member_position_bounds(members, key);
        let at = member_position(members, key);
        let after = v.with(key, value)->Object_0;
        assert forall|i: int, j: int| 0 <= i < j < after.len() implies (#[trigger] after[i]).0 != (
        #[trigger] after[j]).0 by {
            if at == members.len() {
                if j < members.len() {
                    assert(members[i].0 != members[j].0);
                } else {
                    assert(members[i].0 != key);
                }
            } else {
                assert(members[i].0 != members[j].0);
            }
        }
        assert forall|i: int| 0 <= i < after.len() implies (#[trigger] after[i]).1.wf() by {
            if i < members.len() {
                assert(members[i].1.wf());
            }
        }
    }
}

/// A member that was set is read back, and the others are left alone.
pub proof fn get_after_with(v: JsonView, key: Seq<char>, value: JsonView, other: Seq<char>)
    requires
        v is Object,
    ensures
        v.with(key, value) is Object,
        v.with(key, value).get(key) == Some(value),
        other != key ==> v.with(key, value).get(other) == v.get(other),
{
    let members = v->Object_0;
    let after = v.with(key, value)->Object_0;
    member_position_bounds(members, key);
    let at = member_position(members, key);
    member_position_is(after, key, at);
    if other != key {
        member_position_bounds(members, other);
        let p = member_position(members, other);
        if p < members.len() {
            member_position_is(after, other, p);
        } else {
            member_position_is(after, other, after.len() as int);
        }
    }
}

/// What is found under a name is a member of that name, and well formed where
/// the object is.
pub proof fn get_is_a_member(v: JsonView, key: Seq<char>)
    requires
        v.get(key) is Some,
    ensures
        v is Object,
        v->Object_0.contains((key, v.get(key)->0)),
        v.wf() ==> v.get(key)->0.wf(),
{
    let members = v->Object_0;
    member_position_bounds(members, key);
    let p = member_position(members, key);
    assert(members[p] == (key, v.get(key)->0));
}

/// A member of a new name goes last.
pub proof fn with_new_name(members: Seq<(Seq<char>, JsonView)>, key: Seq<char>, value: JsonView)
    requires
        forall|i: int| 0 <= i < members.len() ==> (#[trigger] members[i]).0 != key,
    ensures
        JsonView::Object(members).with(key, value) == JsonView::Object(members.push((key, value))),
{
    member_position_is(members, key, members.len() as int);
}

/// A typed object has its type and nothing else.
pub proof fn a_typed_object_has_its_type(ty: Seq<char>)
    ensures
        typed_object(ty) == JsonView::Object(seq![("type"@, JsonView::Text(ty))]),
{
    with_new_name(Seq::empty(), "type"@, text_value(ty));
    assert(Seq::<(Seq<char>, JsonView)>::empty().push(("type"@, text_value(ty))) =~= seq![
        ("type"@, JsonView::Text(ty)),
    ]);
}

impl Json {
    /// The mathematical value.
    pub open spec fn view(&self) -> JsonView
        decreases self,
    {
        match self {
            Json::Null => JsonView::Null,
            Json::Bool(b) => JsonView::Bool(*b),
            Json::Number(n) => JsonView::Number(*n),
            Json::Text(s) => JsonView::Text(s@),
            Json::List(items) => JsonView::List(
                Seq::new(
                    items@.len(),
                    |i: int|
                        if 0 <= i < items@.len() {
                            items@[i].view()
                        } else {
                            JsonView::Null
                        },
                ),
            ),
            Json::Object(members) => JsonView::Object(
                Seq::new(
                    members@.len(),
                    |i: int|
                        if 0 <= i < members@.len() {
                            (members@[i].0@, members@[i].1.view())
                        } else {
                            (Seq::empty(), JsonView::Null)
                        },
                ),
            ),
        }
    }

    /// The empty object.
    pub fn object() -> (r: Json)
        ensures
            r@ == empty_object(),
            r@.wf(),
    {
        let r = Json::Object(Vec::new());
        assert(r@->Object_0 =~= Seq::empty());
        r
    }

    /// A text.
    pub fn text(s: &str) -> (r: Json)
        ensures
            r@ == text_value(s@),
            r@.wf(),
    {
        Json::Text(s.to_owned())
    }

    /// The object whose one member `type` is the text `ty`.
    pub fn typed(ty: &str) -> (r: Json)
        ensures
            r@ == typed_object(ty@),
            r@.wf(),
    {
        Json::object().with("type", Json::text(ty))
    }

    /// A whole number.
    pub fn number(n: u64) -> (r: Json)
        ensures
            r@ == number_value(n),
            r@.wf(),
    {
        Json::Number(JsonNumber::Unsigned(n))
    }

    /// A list.
    pub fn list(items: Vec<Json>) -> (r: Json)
        ensures
            r@ == JsonView::List(values(items@)),
            (forall|i: int| 0 <= i < items@.len() ==> (#[trigger] items@[i])@.wf()) ==> r@.wf(),
    {
        let r = Json::List(items);
        assert(r@->List_0 =~= values(items@));
        r
    }

    /// The items, where this is a list.
    pub fn as_list(&self) -> (r: Option<&Vec<Json>>)
        ensures
            match r {
                Some(items) => self@.as_list() == Some(values(items@)) && (self@.wf()
                    ==> forall|i: int| 0 <= i < items@.len() ==> (#[trigger] items@[i])@.wf()),
                None => self@.as_list() is None,
            },
    {
        match self {
            Json::List(items) => {
                assert(self@->List_0 =~= values(items@));
                assert forall|i: int| self@.wf() && 0 <= i < items@.len() implies (
                #[trigger] items@[i])@.wf() by {
                    assert(self@->List_0[i].wf());
                }
                Some(items)
            },
            _ => None,
        }
    }

    /// Position of the member named `key`, or the number of members.
    fn find_member(members: &Vec<(String, Json)>, key: &str) -> (at: usize)
        ensures
            at == member_position(Json::Object(*members)@->Object_0, key@),
            at <= members@.len(),
    {
        let ghost m = Json::Object(*members)@->Object_0;
        let mut i: usize = 0;
        while i < members.len() && !text::same(members[i].0.as_str(), key)
            invariant
                i <= members@.len(),
                m == Json::Object(*members)@->Object_0,
                forall|j: int| 0 <= j < i ==> (#[trigger] m[j]).0 != key@,
            decreases members@.len() - i,
        {
            i += 1;
        }
        proof {
            member_position_is(m, key@, i as int);
        }
        i
    }

    /// The object with the member `key` set to `value`; another value as it is.
    pub fn with(self, key: &str, value: Json) -> (r: Json)
        ensures
            r@ == self@.with(key@, value@),
            self@.wf() && value@.wf() ==> r@.wf(),
    {
        proof {
            if self@.wf() && value@.wf() {
                with_keeps_wf(self@, key@, value@);
            }
        }
        match self {
            Json::Object(members) => {
                let ghost before = Json::Object(members)@->Object_0;
                let at = Json::find_member(&members, key);
                let mut members = members;
                if at < members.len() {
                    members.set(at, (key.to_owned(), value));
                    let r = Json::Object(members);
                    assert(r@->Object_0 =~= before.update(at as int, (key@, value@)));
                    r
                } else {
                    members.push((key.to_owned(), value));
                    let r = Json::Object(members);
                    assert(r@->Object_0 =~= before.push((key@, value@)));
                    r
                }
            },
            other => other,
        }
    }

    /// The member named `key`, where this is an object that has it.
    pub fn get(&self, key: &str) -> (r: Option<&Json>)
        ensures
            match r {
                Some(v) => self@.get(key@) == Some(v@),
                None => self@.get(key@) is None,
            },
            self@.wf() && r is Some ==> r->0@.wf(),
    {
        match self {
            Json::Object(members) => {
                let at = Json::find_member(members, key);
                if at < members.len() {
                    assert(self@->Object_0[at as int] == (
                        members@[at as int].0@,
                        members@[at as int].1@,
                    ));
                    Some(&members[at].1)
                } else {
                    None
                }
            },
            _ => None,
        }
    }

    /// The text, where this is one.
    pub fn as_str(&self) -> (r: Option<&str>)
        ensures
            match r {
                Some(s) => self@.as_text() == Some(s@),
                None => self@.as_text() is None,
            },
    {
        match self {
            Json::Text(s) => Some(s.as_str()),
            _ => None,
        }
    }

    /// The text of the member named `key`, where there is one and it is a text.
    pub fn str_at(&self, key: &str) -> (r: Option<&str>)
        ensures
            match r {
                Some(s) => self@.text_at(key@) == Some(s@),
                None => self@.text_at(key@) is None,
            },
    {
        match self.get(key) {
            Some(v) => v.as_str(),
            None => None,
        }
    }

    /// The whole number from zero on, where this is one.
    pub fn as_u64(&self) -> (r: Option<u64>)
        ensures
            r == self@.as_unsigned(),
    {
        match self {
            Json::Number(JsonNumber::Unsigned(n)) => Some(*n),
            _ => None,
        }
    }

    /// A copy of this value.
    pub fn duplicate(&self) -> (r: Json)
        ensures
            r@ == self@,
        decreases self,
    {
        match self {
            Json::Null => Json::Null,
            Json::Bool(b) => Json::Bool(*b),
            Json::Number(n) => Json::Number(n.duplicate()),
            Json::Text(s) => Json::Text(s.clone()),
            Json::List(items) => {
                let mut out: Vec<Json> = Vec::new();
                let mut i: usize = 0;
                while i < items.len()
                    invariant
                        i <= items@.len(),
                        self is List,
                        *items == self->List_0,
                        out@.len() == i,
                        forall|j: int| 0 <= j < i ==> (#[trigger] out@[j])@ == items@[j]@,
                    decreases items@.len() - i,
                {
                    out.push(items[i].duplicate());
                    i += 1;
                }
                let r = Json::List(out);
                assert(r@->List_0 =~= self@->List_0);
                r
            },
            Json::Object(members) => {
                let mut out: Vec<(String, Json)> = Vec::new();
                let mut i: usize = 0;
                while i < members.len()
                    invariant
                        i <= members@.len(),
                        self is Object,
                        *members == self->Object_0,
                        out@.len() == i,
                        forall|j: int|
                            0 <= j < i ==> (#[trigger] out@[j]).0@ == members@[j].0@ && out@[j].1@
                                == members@[j].1@,
                    decreases members@.len() - i,
                {
                    out.push((members[i].0.clone(), members[i].1.duplicate()));
                    i += 1;
                }
                let r = Json::Object(out);
                assert(r@->Object_0 =~= self@->Object_0);
                r
            },
        }
    }
}

impl JsonNumber {
    /// A copy of this number.
    pub fn duplicate(&self) -> (r: JsonNumber)
        ensures
            r == *self,
    {
        match self {
            JsonNumber::Unsigned(n) => JsonNumber::Unsigned(*n),
            JsonNumber::Negative(n) => JsonNumber::Negative(*n),
            JsonNumber::Fraction(n) => JsonNumber::Fraction(n.clone()),
        }
    }
}

/// The outermost part of a value of `serde_json`.
enum Layer {
    Null,
    Bool(bool),
    Number(JsonNumber),
    Text(String),
    List(Vec<serde_json::Value>),
    Object(Vec<(String, serde_json::Value)>),
}

spec fn layer_view(l: Layer) -> JsonView {
    match l {
        Layer::Null => JsonView::Null,
        Layer::Bool(b) => JsonView::Bool(b),
        Layer::Number(n) => JsonView::Number(n),
        Layer::Text(s) => JsonView::Text(s@),
        Layer::List(items) => JsonView::List(items@.map_values(|v: serde_json::Value| json_of(v))),
        Layer::Object(members) => JsonView::Object(
            members@.map_values(|m: (String, serde_json::Value)| (m.0@, json_of(m.1))),
        ),
    }
}

/// The value with its own members, not those of the values inside it, in
/// ascending order of name.
spec fn members_sorted(v: JsonView) -> JsonView {
    match v {
        JsonView::Object(members) => JsonView::Object(sort_members(members)),
        _ => v,
    }
}

/// The library's form of a value of `serde_json`.
pub fn from_value(v: serde_json::Value) -> (r: Json)
    ensures
        r@ == json_of(v),
        r@.wf(),
    decreases json_of(v),
{
    let ghost whole = json_of(v);
    match peel(v) {
        Layer::Null => Json::Null,
        Layer::Bool(b) => Json::Bool(b),
        Layer::Number(n) => Json::Number(n),
        Layer::Text(s) => Json::Text(s),
        Layer::List(items) => {
            let ghost all = items@;
            let mut out: Vec<Json> = Vec::new();
            for x in it: items
                invariant
                    it.seq() == all,
                    whole == json_of(v),
                    whole == JsonView::List(all.map_values(|v: serde_json::Value| json_of(v))),
                    out@.len() == it.index(),
                    forall|i: int|
                        0 <= i < out@.len() ==> (#[trigger] out@[i])@ == json_of(all[i])
                            && out@[i]@.wf(),
            {
                proof {
                    let k = it.index() as int;
                    assert(x == all[k]);
                    assert(decreases_to!(whole => whole->List_0));
                    assert(decreases_to!(whole->List_0 => whole->List_0[k]));
                    assert(json_of(x) == whole->List_0[k]);
                }
                out.push(from_value(x));
            }
            let r = Json::List(out);
            assert(r@->List_0 =~= whole->List_0);
            assert forall|i: int| 0 <= i < r@->List_0.len() implies (
            #[trigger] r@->List_0[i]).wf() by {
                assert(out@[i]@.wf());
            }
            r
        },
        Layer::Object(members) => {
            let ghost all = members@;
            let mut out: Vec<(String, Json)> = Vec::new();
            for m in it: members
                invariant
                    it.seq() == all,
                    whole == json_of(v),
                    whole == JsonView::Object(
                        all.map_values(|m: (String, serde_json::Value)| (m.0@, json_of(m.1))),
                    ),
                    out@.len() == it.index(),
                    forall|i: int|
                        0 <= i < out@.len() ==> (#[trigger] out@[i]).0@ == all[i].0@ && out@[i].1@
                            == json_of(all[i].1) && out@[i].1@.wf(),
            {
                proof {
                    let k = it.index() as int;
                    assert(m == all[k]);
                    assert(decreases_to!(whole => whole->Object_0));
                    assert(decreases_to!(whole->Object_0 => whole->Object_0[k]));
                    assert(decreases_to!(whole->Object_0[k] => whole->Object_0[k].1));
                    assert(json_of(m.1) == whole->Object_0[k].1);
                }
                out.push((m.0, from_value(m.1)));
            }
            let r = Json::Object(out);
            assert(r@->Object_0 =~= whole->Object_0);
            assert forall|i: int| 0 <= i < r@->Object_0.len() implies (
            #[trigger] r@->Object_0[i]).1.wf() by {
                assert(out@[i].1@.wf());
            }
            r
        },
    }
}

/// The form that `serde_json` has of a value.
pub fn to_value(v: &Json) -> (r: serde_json::Value)
    requires
        v@.wf(),
    ensures
        json_of(r) == v@.sorted(),
    decreases v,
{
    match v {
        Json::Null => wrap(Layer::Null),
        Json::Bool(b) => wrap(Layer::Bool(*b)),
        Json::Number(n) => wrap(Layer::Number(n.duplicate())),
        Json::Text(s) => wrap(Layer::Text(s.clone())),
        Json::List(items) => {
            let mut out: Vec<serde_json::Value> = Vec::new();
            let mut i: usize = 0;
            while i < items.len()
                invariant
                    i <= items@.len(),
                    v is List,
                    *items == v->List_0,
                    v@.wf(),
                    out@.len() == i,
                    forall|j: int|
                        0 <= j < i ==> json_of(#[trigger] out@[j]) == items@[j]@.sorted(),
                decreases items@.len() - i,
            {
                assert(v@->List_0[i as int] == items@[i as int]@);
                out.push(to_value(&items[i]));
                i += 1;
            }
            let l = Layer::List(out);
            assert(layer_view(l)->List_0 =~= v@.sorted()->List_0);
            wrap(l)
        },
        Json::Object(members) => {
            let mut out: Vec<(String, serde_json::Value)> = Vec::new();
            let mut i: usize = 0;
            while i < members.len()
                invariant
                    i <= members@.len(),
                    v is Object,
                    *members == v->Object_0,
                    v@.wf(),
                    out@.len() == i,
                    forall|j: int|
                        0 <= j < i ==> (#[trigger] out@[j]).0@ == members@[j].0@ && json_of(
                            out@[j].1,
                        ) == members@[j].1@.sorted(),
                decreases members@.len() - i,
            {
                assert(v@->Object_0[i as int] == (members@[i as int].0@, members@[i as int].1@));
                out.push((members[i].0.clone(), to_value(&members[i].1)));
                i += 1;
            }
            let l = Layer::Object(out);
            let ghost inner = sorted_values(v@->Object_0);
            assert(layer_view(l)->Object_0 =~= inner);
            assert(v@.sorted() == JsonView::Object(sort_members(inner)));
            assert(distinct_names(inner)) by {
                assert forall|i: int, j: int| 0 <= i < j < inner.len() implies (
                #[trigger] inner[i]).0 != (#[trigger] inner[j]).0 by {
                    assert(v@->Object_0[i].0 != v@->Object_0[j].0);
                }
            }
            wrap(l)
        },
    }
}

impl Json {
    /// Reads JSON text.
    pub fn parse(s: &str) -> (r: Option<Json>)
        ensures
            match r {
                Some(v) => json_parse(s@) == Some(v@) && v@.wf(),
                None => json_parse(s@) is None,
            },
    {
        match parse_value(s) {
            Some(v) => Some(from_value(v)),
            None => None,
        }
    }

    /// The JSON text of this value on one line, the members of each object in
    /// ascending order of name.
    pub fn to_text(&self) -> (r: String)
        requires
            self@.wf(),
        ensures
            r@ == json_text(self@.sorted()),
            single_line(r@),
    {
        let v = to_value(self);
        print_value(&v)
    }

    /// The JSON text of this value over several indented lines.
    pub fn to_pretty_text(&self) -> (r: String)
        requires
            self@.wf(),
        ensures
            r@ == json_pretty(self@.sorted()),
    {
        let v = to_value(self);
        print_value_pretty(&v).unwrap()
    }
}

/// A value of `serde_json`.
#[verifier::external_type_specification]
#[verifier::external_body]
pub struct ExValue(serde_json::Value);

/// A number of `serde_json`.
#[verifier::external_type_specification]
#[verifier::external_body]
pub struct ExNumber(serde_json::Number);

/// The tree that a `serde_json::Value` holds, object members in the order in
/// which its map is walked.
pub uninterp spec fn json_of(v: serde_json::Value) -> JsonView;

/// Whether a `serde_json::Number` has neither an `as_u64` nor an `as_i64`
/// value.
pub uninterp spec fn is_fraction(n: serde_json::Number) -> bool;

/// What `serde_json` reads in a text; `None` where it refuses the text.
pub uninterp spec fn json_parse(s: Seq<char>) -> Option<JsonView>;

/// What `serde_json` prints for a value on one line.
pub uninterp spec fn json_text(v: JsonView) -> Seq<char>;

/// What `serde_json` prints for a value over several lines.
pub uninterp spec fn json_pretty(v: JsonView) -> Seq<char>;

/// `serde_json::Number::clone` copies the number.
pub assume_specification[ <serde_json::Number as Clone>::clone ](n: &serde_json::Number) -> (r:
    serde_json::Number)
    ensures
        r == *n,
;

/// Takes a `serde_json::Value` apart: the result holds its variant and fields,
/// a number by which of `as_u64` and `as_i64` gives its value, where `as_i64`
/// alone gives one below zero. A map has no two members of one name.
#[verifier::external_body]
fn peel(v: serde_json::Value) -> (r: Layer)
    ensures
        layer_view(r) == json_of(v),
        r matches Layer::Number(JsonNumber::Negative(i)) ==> i < 0,
        r matches Layer::Number(JsonNumber::Fraction(f)) ==> is_fraction(f),
        r is Object ==> distinct_names(layer_view(r)->Object_0),
{
    match v {
        serde_json::Value::Null => Layer::Null,
        serde_json::Value::Bool(b) => Layer::Bool(b),
        serde_json::Value::Number(n) => Layer::Number(match (n.as_u64(), n.as_i64()) {
            (Some(u), _) => JsonNumber::Unsigned(u),
            (None, Some(i)) => JsonNumber::Negative(i),
            (None, None) => JsonNumber::Fraction(n),
        }),
        serde_json::Value::String(s) => Layer::Text(s),
        serde_json::Value::Array(items) => Layer::List(items),
        serde_json::Value::Object(map) => Layer::Object(map.into_iter().collect()),
    }
}

/// Puts a `serde_json::Value` together. An object's members are collected into
/// a `serde_json::Map`, which walks them in ascending order of name.
#[verifier::external_body]
fn wrap(l: Layer) -> (r: serde_json::Value)
    requires
        l matches Layer::Number(n) ==> number_wf(n),
        l is Object ==> distinct_names(layer_view(l)->Object_0),
    ensures
        json_of(r) == members_sorted(layer_view(l)),
{
    match l {
        Layer::Null => serde_json::Value::Null,
        Layer::Bool(b) => serde_json::Value::Bool(b),
        Layer::Number(JsonNumber::Unsigned(n)) => serde_json::Value::from(n),
        Layer::Number(JsonNumber::Negative(n)) => serde_json::Value::from(n),
        Layer::Number(JsonNumber::Fraction(n)) => serde_json::Value::Number(n),
        Layer::Text(s) => serde_json::Value::String(s),
        Layer::List(items) => serde_json::Value::Array(items),
        Layer::Object(members) => serde_json::Value::Object(members.into_iter().collect()),
    }
}

/// `serde_json::from_str`: reads JSON text. What it reads is a function of the
/// text.
#[verifier::external_body]
fn parse_value(s: &str) -> (r: Option<serde_json::Value>)
    ensures
        match r {
            Some(v) => json_parse(s@) == Some(json_of(v)),
            None => json_parse(s@) is None,
        },
{
    serde_json::from_str(s).ok()
}

/// `serde_json::Value::to_string`: prints the compact form, a function of the
/// tree that holds no line break (control characters in texts are escaped).
#[verifier::external_body]
fn print_value(v: &serde_json::Value) -> (r: String)
    ensures
        r@ == json_text(json_of(*v)),
        single_line(r@),
{
    v.to_string()
}

/// `serde_json::to_string_pretty`: prints the indented form. Printing a value
/// to a string meets no error.
#[verifier::external_body]
fn print_value_pretty(v: &serde_json::Value) -> (r: Option<String>)
    ensures
        r is Some,
        r->0@ == json_pretty(json_of(*v)),
{
    serde_json::to_string_pretty(v).ok()
}

} // verus!
