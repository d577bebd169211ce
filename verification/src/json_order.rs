//! The order of object members: sorting them, and what does not depend on it.

use vstd::prelude::*;

use crate::json;
use crate::json::{Json, JsonView};
use crate::text;

verus! {

/// Whether the names ascend.
pub open spec fn ascending(members: Seq<(Seq<char>, JsonView)>) -> bool {
    forall|i: int, j: int|
        0 <= i < j < members.len() ==> json::text_before(
            (#[trigger] members[i]).0,
            (#[trigger] members[j]).0,
        )
}

/// Whether the two hold the same members.
spec fn same_members(a: Seq<(Seq<char>, JsonView)>, b: Seq<(Seq<char>, JsonView)>) -> bool {
    forall|m: (Seq<char>, JsonView)| #[trigger] a.contains(m) == b.contains(m)
}

proof fn before_is_strict(a: Seq<char>, b: Seq<char>)
    ensures
        json::text_before(a, b) ==> !json::text_before(b, a) && a != b,
    decreases a.len(),
{
    if a.len() > 0 && b.len() > 0 && a[0] == b[0] {
        before_is_strict(a.drop_first(), b.drop_first());
    }
}

proof fn before_is_total(a: Seq<char>, b: Seq<char>)
    ensures
        a == b || json::text_before(a, b) || json::text_before(b, a),
    decreases a.len(),
{
    if a.len() == 0 {
        if b.len() == 0 {
            assert(a =~= b);
        }
    } else if b.len() > 0 && a[0] == b[0] {
        before_is_total(a.drop_first(), b.drop_first());
        assert(a =~= seq![a[0]] + a.drop_first());
        assert(b =~= seq![b[0]] + b.drop_first());
    }
}

proof fn before_is_transitive(a: Seq<char>, b: Seq<char>, c: Seq<char>)
    requires
        json::text_before(a, b),
        json::text_before(b, c),
    ensures
        json::text_before(a, c),
    decreases a.len(),
{
    if a.len() > 0 && a[0] == b[0] && b[0] == c[0] {
        before_is_transitive(a.drop_first(), b.drop_first(), c.drop_first());
    }
}

/// Adding a member with a new name keeps the names ascending.
proof fn insert_member_ascends(members: Seq<(Seq<char>, JsonView)>, m: (Seq<char>, JsonView))
    requires
        ascending(members),
        forall|i: int| 0 <= i < members.len() ==> (#[trigger] members[i]).0 != m.0,
    ensures
        ascending(json::insert_member(members, m)),
        json::insert_member(members, m).len() == members.len() + 1,
        forall|x: (Seq<char>, JsonView)| #[trigger]
            json::insert_member(members, m).contains(x) == (members.contains(x) || x == m),
    decreases members.len(),
{
    let out = json::insert_member(members, m);
    if members.len() > 0 && json::text_before(m.0, members.last().0) {
        let front = members.drop_last();
        insert_member_ascends(front, m);
        let inner = json::insert_member(front, m);
        assert forall|i: int, j: int| 0 <= i < j < out.len() implies json::text_before(
            (#[trigger] out[i]).0,
            (#[trigger] out[j]).0,
        ) by {
            if j == out.len() - 1 {
                assert(inner.contains(inner[i]));
                if out[i] != m {
                    let k = front.index_of(out[i]);
                    assert(members[k] == out[i]);
                    assert(json::text_before(members[k].0, members[members.len() - 1].0));
                }
            } else {
                assert(inner[i] == out[i] && inner[j] == out[j]);
            }
        }
        assert forall|x: (Seq<char>, JsonView)| #[trigger] out.contains(x) == (members.contains(x)
            || x == m) by {
            if out.contains(x) {
                let k = out.index_of(x);
                if k < inner.len() {
                    assert(inner[k] == x);
                    assert(inner.contains(x));
                    if x != m {
                        let q = front.index_of(x);
                        assert(members[q] == x);
                    }
                } else {
                    assert(members[members.len() - 1] == x);
                }
            }
            if members.contains(x) {
                let k = members.index_of(x);
                if k < front.len() {
                    assert(front[k] == x);
                    assert(inner.contains(x));
                    let q = inner.index_of(x);
                    assert(out[q] == x);
                } else {
                    assert(out[out.len() - 1] == x);
                }
            }
            if x == m {
                assert(inner.contains(m));
                let q = inner.index_of(m);
                assert(out[q] == m);
            }
        }
    } else {
        if members.len() > 0 {
            before_is_total(m.0, members.last().0);
            assert(members[members.len() - 1].0 != m.0);
        }
        assert forall|i: int, j: int| 0 <= i < j < out.len() implies json::text_before(
            (#[trigger] out[i]).0,
            (#[trigger] out[j]).0,
        ) by {
            if j == members.len() && i < members.len() - 1 {
                assert(json::text_before(members[i].0, members[members.len() - 1].0));
                before_is_transitive(members[i].0, members.last().0, m.0);
            }
        }
        assert forall|x: (Seq<char>, JsonView)| #[trigger] out.contains(x) == (members.contains(x)
            || x == m) by {
            if out.contains(x) {
                let k = out.index_of(x);
                if k < members.len() {
                    assert(members[k] == x);
                }
            }
            if members.contains(x) {
                let k = members.index_of(x);
                assert(out[k] == x);
            }
            assert(out[members.len() as int] == m);
        }
    }
}

/// Sorting members of distinct names gives the same members, ascending.
proof fn sort_members_sorts(members: Seq<(Seq<char>, JsonView)>)
    requires
        json::distinct_names(members),
    ensures
        ascending(json::sort_members(members)),
        same_members(json::sort_members(members), members),
    decreases members.len(),
{
    if members.len() > 0 {
        let front = members.drop_last();
        let m = members.last();
        assert forall|i: int, j: int| 0 <= i < j < front.len() implies (#[trigger] front[i]).0 != (
        #[trigger] front[j]).0 by {
            assert(members[i].0 != members[j].0);
        }
        sort_members_sorts(front);
        let inner = json::sort_members(front);
        assert forall|i: int| 0 <= i < inner.len() implies (#[trigger] inner[i]).0 != m.0 by {
            assert(inner.contains(inner[i]));
            let k = front.index_of(inner[i]);
            assert(members[k].0 != members[members.len() - 1].0);
        }
        insert_member_ascends(inner, m);
        assert forall|x: (Seq<char>, JsonView)| #[trigger] json::sort_members(members).contains(x)
            == members.contains(x) by {
            assert(inner.contains(x) == front.contains(x));
            if members.contains(x) {
                let k = members.index_of(x);
                if k < front.len() {
                    assert(front[k] == x);
                }
            }
            if front.contains(x) {
                let k = front.index_of(x);
                assert(members[k] == x);
            }
            assert(members[members.len() - 1] == m);
        }
    }
}

/// Ascending members are determined by which they are.
proof fn ascending_is_unique(a: Seq<(Seq<char>, JsonView)>, b: Seq<(Seq<char>, JsonView)>)
    requires
        ascending(a),
        ascending(b),
        same_members(a, b),
    ensures
        a == b,
    decreases a.len(),
{
    if a.len() == 0 {
        if b.len() > 0 {
            assert(b.contains(b[0]));
            assert(a.contains(b[0]));
        }
        assert(a =~= b);
    } else {
        assert(a.contains(a[a.len() - 1]));
        assert(b.contains(a.last()));
        let k = b.index_of(a.last());
        assert(b.contains(b[b.len() - 1]));
        assert(a.contains(b.last()));
        let q = a.index_of(b.last());
        if k < b.len() - 1 {
            assert(json::text_before(b[k].0, b[b.len() - 1].0));
            if q < a.len() - 1 {
                assert(json::text_before(a[q].0, a[a.len() - 1].0));
            }
            before_is_strict(a.last().0, b.last().0);
            assert(false);
        }
        let x = a.drop_last();
        let y = b.drop_last();
        assert forall|m: (Seq<char>, JsonView)| #[trigger] x.contains(m) == y.contains(m) by {
            if x.contains(m) {
                let i = x.index_of(m);
                assert(a[i] == m);
                assert(a.contains(m));
                assert(json::text_before(a[i].0, a[a.len() - 1].0));
                before_is_strict(m.0, a.last().0);
                let j = b.index_of(m);
                assert(y[j] == m);
            }
            if y.contains(m) {
                let i = y.index_of(m);
                assert(b[i] == m);
                assert(b.contains(m));
                assert(a.contains(m));
                assert(json::text_before(b[i].0, b[b.len() - 1].0));
                before_is_strict(m.0, b.last().0);
                let j = a.index_of(m);
                assert(x[j] == m);
            }
        }
        ascending_is_unique(x, y);
        assert(a =~= x.push(a.last()));
        assert(b =~= y.push(b.last()));
    }
}

proof fn sorted_values_keep_names(members: Seq<(Seq<char>, JsonView)>)
    requires
        json::distinct_names(members),
    ensures
        json::distinct_names(json::sorted_values(members)),
{
    let s = json::sorted_values(members);
    assert forall|i: int, j: int| 0 <= i < j < s.len() implies (#[trigger] s[i]).0 != (
    #[trigger] s[j]).0 by {
        assert(members[i].0 != members[j].0);
    }
}

/// Values that differ only in the order of their members are equal once the
/// members are sorted.
pub proof fn reordered_values_sort_alike(a: JsonView, b: JsonView)
    requires
        a.wf(),
        b.wf(),
        a.reordered(b),
    ensures
        a.sorted() == b.sorted(),
    decreases a,
{
    match (a, b) {
        (JsonView::List(x), JsonView::List(y)) => {
            assert forall|i: int| 0 <= i < x.len() implies x[i].sorted() == y[i].sorted() by {
                assert(x[i].reordered(y[i]));
                assert(x[i].wf() && y[i].wf());
                reordered_values_sort_alike(x[i], y[i]);
            }
            assert(a.sorted()->List_0 =~= b.sorted()->List_0);
        },
        (JsonView::Object(x), JsonView::Object(y)) => {
            let sx = json::sorted_values(x);
            let sy = json::sorted_values(y);
            assert forall|i: int| 0 <= i < x.len() implies {
                let at = json::member_position(y, (#[trigger] x[i]).0);
                0 <= at < y.len() && sx[i] == sy[at]
            } by {
                let at = json::member_position(y, x[i].0);
                json::member_position_bounds(y, x[i].0);
                assert(x[i].1.wf() && y[at].1.wf());
                assert(decreases_to!(a => x));
                assert(decreases_to!(x => x[i]));
                reordered_values_sort_alike(x[i].1, y[at].1);
            }
            assert forall|m: (Seq<char>, JsonView)| #[trigger] sx.contains(m) == sy.contains(m) by {
                if sx.contains(m) {
                    let i = sx.index_of(m);
                    let at = json::member_position(y, x[i].0);
                    assert(sy[at] == m);
                }
                if sy.contains(m) {
                    let j = sy.index_of(m);
                    let i = json::member_position(x, y[j].0);
                    json::member_position_bounds(x, y[j].0);
                    let at = json::member_position(y, x[i].0);
                    json::member_position_bounds(y, x[i].0);
                    if at < j {
                        assert(y[at].0 != y[j].0);
                    } else if j < at {
                        assert(y[j].0 != y[at].0);
                    }
                    assert(sx[i] == m);
                }
            }
            sorted_values_keep_names(x);
            sorted_values_keep_names(y);
            sort_members_sorts(sx);
            sort_members_sorts(sy);
            let p = json::sort_members(sx);
            let q = json::sort_members(sy);
            assert forall|m: (Seq<char>, JsonView)| #[trigger] p.contains(m) == q.contains(m) by {
                assert(sx.contains(m) == sy.contains(m));
            }
            ascending_is_unique(p, q);
        },
        _ => {},
    }
}

/// Sorting keeps a value well formed.
pub proof fn sorting_keeps_wf(v: JsonView)
    requires
        v.wf(),
    ensures
        v.sorted().wf(),
    decreases v,
{
    match v {
        JsonView::List(x) => {
            assert forall|i: int| 0 <= i < x.len() implies (#[trigger] v.sorted()->List_0[i]).wf() by {
                assert(x[i].wf());
                sorting_keeps_wf(x[i]);
            }
        },
        JsonView::Object(x) => {
            let sx = json::sorted_values(x);
            sorted_values_keep_names(x);
            sort_members_sorts(sx);
            let p = json::sort_members(sx);
            assert forall|i: int, j: int| 0 <= i < j < p.len() implies (#[trigger] p[i]).0 != (
            #[trigger] p[j]).0 by {
                before_is_strict(p[i].0, p[j].0);
            }
            assert forall|i: int| 0 <= i < p.len() implies (#[trigger] p[i]).1.wf() by {
                assert(p.contains(p[i]));
                let k = sx.index_of(p[i]);
                assert(x[k].1.wf());
                assert(decreases_to!(v => x));
                assert(decreases_to!(x => x[k]));
                sorting_keeps_wf(x[k].1);
            }
        },
        _ => {},
    }
}

/// Sorting a second time changes nothing.
pub proof fn sorting_twice_is_sorting_once(v: JsonView)
    requires
        v.wf(),
    ensures
        v.sorted().sorted() == v.sorted(),
    decreases v,
{
    match v {
        JsonView::List(x) => {
            assert forall|i: int| 0 <= i < x.len() implies x[i].sorted().sorted()
                == x[i].sorted() by {
                assert(x[i].wf());
                sorting_twice_is_sorting_once(x[i]);
            }
            assert(v.sorted().sorted()->List_0 =~= v.sorted()->List_0);
        },
        JsonView::Object(x) => {
            let sx = json::sorted_values(x);
            sorted_values_keep_names(x);
            sort_members_sorts(sx);
            let p = json::sort_members(sx);
            assert forall|i: int| 0 <= i < p.len() implies (#[trigger] p[i]).1.sorted()
                == p[i].1 by {
                assert(p.contains(p[i]));
                let k = sx.index_of(p[i]);
                assert(x[k].1.wf());
                assert(decreases_to!(v => x));
                assert(decreases_to!(x => x[k]));
                sorting_twice_is_sorting_once(x[k].1);
            }
            assert(json::sorted_values(p) =~= p);
            assert forall|i: int, j: int| 0 <= i < j < p.len() implies (#[trigger] p[i]).0 != (
            #[trigger] p[j]).0 by {
                before_is_strict(p[i].0, p[j].0);
            }
            sort_members_sorts(p);
            ascending_is_unique(json::sort_members(p), p);
        },
        _ => {},
    }
}

/// Whether text `a` comes before text `b`, character by character.
fn comes_before(a: &str, b: &str) -> (r: bool)
    ensures
        r == json::text_before(a@, b@),
{
    let x = text::chars_of(a);
    let y = text::chars_of(b);
    let mut i: usize = 0;
    assert(x@.skip(0) =~= x@);
    assert(y@.skip(0) =~= y@);
    while i < x.len() && i < y.len() && x[i] == y[i]
        invariant
            i <= x@.len(),
            i <= y@.len(),
            x@ == a@,
            y@ == b@,
            json::text_before(a@, b@) == json::text_before(x@.skip(i as int), y@.skip(i as int)),
        decreases x@.len() - i,
    {
        assert(x@.skip(i as int).drop_first() =~= x@.skip(i as int + 1));
        assert(y@.skip(i as int).drop_first() =~= y@.skip(i as int + 1));
        i += 1;
    }
    if i >= y.len() {
        false
    } else if i >= x.len() {
        true
    } else {
        x[i] < y[i]
    }
}

proof fn insert_member_at(members: Seq<(Seq<char>, JsonView)>, m: (Seq<char>, JsonView), at: int)
    requires
        0 <= at <= members.len(),
        at > 0 ==> !json::text_before(m.0, members[at - 1].0),
        forall|i: int|
            at <= i < members.len() ==> json::text_before(m.0, (#[trigger] members[i]).0),
    ensures
        json::insert_member(members, m) == members.insert(at, m),
    decreases members.len(),
{
    if at < members.len() {
        assert(json::text_before(m.0, members[members.len() - 1].0));
        insert_member_at(members.drop_last(), m, at);
    }
    assert(json::insert_member(members, m) =~= members.insert(at, m));
}

/// Adds a member in its place.
fn insert_sorted(members: &mut Vec<(String, Json)>, m: (String, Json))
    ensures
        Json::Object(*final(members))@->Object_0 == json::insert_member(
            Json::Object(*old(members))@->Object_0,
            (m.0@, m.1@),
        ),
{
    let ghost before = Json::Object(*members)@->Object_0;
    let mut at: usize = members.len();
    while at > 0 && comes_before(m.0.as_str(), members[at - 1].0.as_str())
        invariant
            at <= members@.len(),
            before == Json::Object(*members)@->Object_0,
            forall|i: int|
                at <= i < before.len() ==> json::text_before(m.0@, (#[trigger] before[i]).0),
        decreases at,
    {
        at -= 1;
    }
    proof {
        insert_member_at(before, (m.0@, m.1@), at as int);
    }
    members.insert(at, m);
    assert(Json::Object(*members)@->Object_0 =~= before.insert(at as int, (m.0@, m.1@)));
}

/// The same value with the members of every object in ascending order of name.
pub fn normalize_json(v: &Json) -> (r: Json)
    requires
        v@.wf(),
    ensures
        r@ == v@.sorted(),
        r@.wf(),
    decreases v,
{
    proof {
        sorting_keeps_wf(v@);
    }
    match v {
        Json::List(items) => {
            let mut out: Vec<Json> = Vec::new();
            let mut i: usize = 0;
            while i < items.len()
                invariant
                    i <= items@.len(),
                    v is List,
                    *items == v->List_0,
                    v@.wf(),
                    out@.len() == i,
                    forall|j: int| 0 <= j < i ==> (#[trigger] out@[j])@ == items@[j]@.sorted(),
                decreases items@.len() - i,
            {
                assert(v@->List_0[i as int] == items@[i as int]@);
                out.push(normalize_json(&items[i]));
                i += 1;
            }
            let r = Json::List(out);
            assert(r@->List_0 =~= v@.sorted()->List_0);
            r
        },
        Json::Object(members) => {
            let ghost all = json::sorted_values(v@->Object_0);
            let mut out: Vec<(String, Json)> = Vec::new();
            let mut i: usize = 0;
            assert(Json::Object(out)@->Object_0 =~= json::sort_members(all.take(0)));
            while i < members.len()
                invariant
                    i <= members@.len(),
                    v is Object,
                    *members == v->Object_0,
                    v@.wf(),
                    all == json::sorted_values(v@->Object_0),
                    Json::Object(out)@->Object_0 == json::sort_members(all.take(i as int)),
                decreases members@.len() - i,
            {
                assert(v@->Object_0[i as int] == (members@[i as int].0@, members@[i as int].1@));
                let m = (members[i].0.clone(), normalize_json(&members[i].1));
                assert(all.take(i as int + 1).drop_last() =~= all.take(i as int));
                assert(all.take(i as int + 1).last() == (m.0@, m.1@));
                insert_sorted(&mut out, m);
                i += 1;
            }
            assert(all.take(i as int) =~= all);
            Json::Object(out)
        },
        other => other.duplicate(),
    }
}

/// Sorting changes no value: every member is found under its name, with its own
/// value sorted, and no other is; lists keep their items in order, and what is
/// neither stays as it is.
pub proof fn sorting_keeps_the_value(v: JsonView, key: Seq<char>)
    requires
        v.wf(),
    ensures
        match v.get(key) {
            Some(x) => v.sorted().get(key) == Some(x.sorted()),
            None => v.sorted().get(key) is None,
        },
        v is Object == v.sorted() is Object,
        v matches JsonView::List(items) ==> {
            &&& v.sorted() matches JsonView::List(after)
            &&& after.len() == items.len()
            &&& forall|i: int| 0 <= i < items.len() ==> #[trigger] after[i] == items[i].sorted()
        },
        !(v is Object) && !(v is List) ==> v.sorted() == v,
{
    if let JsonView::Object(members) = v {
        let inner = json::sorted_values(members);
        let out = json::sort_members(inner);
        sorted_values_keep_names(members);
        sort_members_sorts(inner);
        json::member_position_bounds(members, key);
        json::member_position_bounds(out, key);
        let p = json::member_position(members, key);
        let q = json::member_position(out, key);
        if p < members.len() {
            assert(inner.contains(inner[p]));
            assert(out.contains(inner[p]));
            let k = out.index_of(inner[p]);
            assert(out[k] == inner[p]);
            assert forall|i: int| 0 <= i < k implies (#[trigger] out[i]).0 != key by {
                assert(json::text_before(out[i].0, out[k].0));
                before_is_strict(out[i].0, out[k].0);
            }
            json::member_position_is(out, key, k);
        } else if q < out.len() {
            assert(out.contains(out[q]));
            let k = inner.index_of(out[q]);
            assert(members[k].0 == key);
        }
    }
}

/// A text that was a member of a value is still there once the value is sorted.
pub proof fn sorting_keeps_texts(v: JsonView, key: Seq<char>)
    requires
        v.wf(),
    ensures
        v.sorted().text_at(key) == v.text_at(key),
{
    sorting_keeps_the_value(v, key);
    if let Some(x) = v.get(key) {
        json::get_is_a_member(v, key);
        sorting_keeps_the_value(x, key);
    }
}

/// One text comes before another exactly where it is a proper beginning of it or
/// has, at the first place where they differ, the character of the lower code
/// point.
pub proof fn texts_are_ordered_by_their_first_difference(
    common: Seq<char>,
    a: Seq<char>,
    b: Seq<char>,
)
    requires
        a.len() > 0 && b.len() > 0 ==> a[0] != b[0],
    ensures
        json::text_before(common + a, common + b) <==> b.len() > 0 && (a.len() == 0 || (a[0] as int)
            < (b[0] as int)),
    decreases common.len(),
{
    if common.len() > 0 {
        texts_are_ordered_by_their_first_difference(common.drop_first(), a, b);
        assert((common + a).drop_first() =~= common.drop_first() + a);
        assert((common + b).drop_first() =~= common.drop_first() + b);
    } else {
        assert(common + a =~= a);
        assert(common + b =~= b);
    }
}

/// The names of a sorted object ascend, and it has as many members as before.
pub proof fn sorting_puts_names_in_order(v: JsonView, i: int, j: int)
    requires
        v.wf(),
        v is Object,
        0 <= i < j < v->Object_0.len(),
    ensures
        v.sorted()->Object_0.len() == v->Object_0.len(),
        json::text_before(v.sorted()->Object_0[i].0, v.sorted()->Object_0[j].0),
{
    let inner = json::sorted_values(v->Object_0);
    sorted_values_keep_names(v->Object_0);
    sort_members_sorts(inner);
    sorting_keeps_the_number(inner);
}

proof fn inserting_adds_one(members: Seq<(Seq<char>, JsonView)>, m: (Seq<char>, JsonView))
    ensures
        json::insert_member(members, m).len() == members.len() + 1,
    decreases members.len(),
{
    if members.len() > 0 {
        inserting_adds_one(members.drop_last(), m);
    }
}

proof fn sorting_keeps_the_number(members: Seq<(Seq<char>, JsonView)>)
    ensures
        json::sort_members(members).len() == members.len(),
    decreases members.len(),
{
    if members.len() > 0 {
        sorting_keeps_the_number(members.drop_last());
        inserting_adds_one(json::sort_members(members.drop_last()), members.last());
    }
}

} // verus!
