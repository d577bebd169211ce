//! A small table from keys to block indices.

use vstd::prelude::*;

use crate::text;

verus! {

/// A key that can be compared with another.
pub trait TableKey: View + Sized {
    fn same_key(&self, other: &Self) -> (r: bool)
        ensures
            r == (self@ == other@),
    ;
}

impl TableKey for String {
    fn same_key(&self, other: &String) -> (r: bool) {
        text::same(self.as_str(), other.as_str())
    }
}

impl TableKey for u32 {
    fn same_key(&self, other: &u32) -> (r: bool) {
        *self == *other
    }
}

/// Keys and the block index of each; a key occurs once.
pub struct IndexTable<K> {
    entries: Vec<(K, usize)>,
}

/// Whether entry `i` is for `key`.
spec fn entry_for<K: View>(entries: Seq<(K, usize)>, i: int, key: K::V) -> bool {
    0 <= i < entries.len() && entries[i].0@ == key
}

spec fn distinct_keys<K: View>(entries: Seq<(K, usize)>) -> bool {
    forall|i: int, j: int|
        0 <= i < j < entries.len() ==> (#[trigger] entries[i]).0@ != (#[trigger] entries[j]).0@
}

spec fn map_of<K: View>(entries: Seq<(K, usize)>) -> Map<K::V, int> {
    Map::new(
        |key: K::V| exists|i: int| entry_for(entries, i, key),
        |key: K::V| entries[choose|i: int| entry_for(entries, i, key)].1 as int,
    )
}

proof fn map_of_entry<K: View>(entries: Seq<(K, usize)>, i: int)
    requires
        distinct_keys(entries),
        0 <= i < entries.len(),
    ensures
        map_of(entries).contains_key(entries[i].0@),
        map_of(entries)[entries[i].0@] == entries[i].1,
{
    let key = entries[i].0@;
    assert(entry_for(entries, i, key));
    let c = choose|c: int| entry_for(entries, c, key);
    assert(entry_for(entries, c, key));
    if c < i {
        assert(entries[c].0@ != entries[i].0@);
    } else if i < c {
        assert(entries[i].0@ != entries[c].0@);
    }
}

/// The table without the keys of index `index`.
pub open spec fn without_index<K>(m: Map<K, int>, index: int) -> Map<K, int> {
    Map::new(|key: K| m.contains_key(key) && m[key] != index, |key: K| m[key])
}

/// Whether some key has index `index`.
pub open spec fn has_value<K>(m: Map<K, int>, index: int) -> bool {
    exists|key: K| #[trigger] m.contains_key(key) && m[key] == index
}

impl<K: TableKey> View for IndexTable<K> {
    type V = Map<K::V, int>;

    closed spec fn view(&self) -> Map<K::V, int> {
        map_of(self.entries@)
    }
}

impl<K: TableKey> IndexTable<K> {
    /// No key occurs twice.
    pub closed spec fn wf(&self) -> bool {
        distinct_keys(self.entries@)
    }

    /// The empty table.
    pub fn new() -> (r: Self)
        ensures
            r.wf(),
            r@ == Map::<K::V, int>::empty(),
    {
        let r = IndexTable { entries: Vec::new() };
        assert(r@ =~= Map::<K::V, int>::empty());
        r
    }

    /// Position of `key`, or the number of entries.
    fn find(&self, key: &K) -> (at: usize)
        ensures
            at <= self.entries@.len(),
            at < self.entries@.len() ==> self.entries@[at as int].0@ == key@,
            at == self.entries@.len() ==> forall|i: int|
                0 <= i < self.entries@.len() ==> (#[trigger] self.entries@[i]).0@ != key@,
    {
        let mut i: usize = 0;
        while i < self.entries.len()
            invariant
                i <= self.entries@.len(),
                forall|j: int| 0 <= j < i ==> (#[trigger] self.entries@[j]).0@ != key@,
            decreases self.entries@.len() - i,
        {
            if self.entries[i].0.same_key(key) {
                return i;
            }
            i += 1;
        }
        i
    }

    /// The index of `key`.
    pub fn get(&self, key: &K) -> (r: Option<usize>)
        requires
            self.wf(),
        ensures
            match r {
                Some(index) => self@.contains_key(key@) && self@[key@] == index,
                None => !self@.contains_key(key@),
            },
    {
        let at = self.find(key);
        if at < self.entries.len() {
            proof {
                map_of_entry(self.entries@, at as int);
            }
            Some(self.entries[at].1)
        } else {
            proof {
                if self@.contains_key(key@) {
                    let c = choose|c: int| entry_for(self.entries@, c, key@);
                    assert(self.entries@[c].0@ != key@);
                }
            }
            None
        }
    }

    /// Sets the index of `key`.
    pub fn insert(&mut self, key: K, index: usize)
        requires
            old(self).wf(),
        ensures
            final(self).wf(),
            final(self)@ == old(self)@.insert(key@, index as int),
    {
        let ghost before = self.entries@;
        let ghost k = key@;
        let at = self.find(&key);
        if at < self.entries.len() {
            self.entries.set(at, (key, index));
        } else {
            self.entries.push((key, index));
        }
        proof {
            let after = self.entries@;
            assert(after[at as int].0@ == k);
            assert(distinct_keys(after)) by {
                assert forall|i: int, j: int| 0 <= i < j < after.len() implies (
                #[trigger] after[i]).0@ != (#[trigger] after[j]).0@ by {
                    if j < before.len() {
                        assert(before[i].0@ != before[j].0@);
                        assert(after[i].0@ == before[i].0@);
                        assert(after[j].0@ == before[j].0@);
                    } else {
                        assert(before[i].0@ != k);
                        assert(after[i].0@ == before[i].0@);
                    }
                }
            }
            assert forall|key: K::V|
                #[trigger] map_of(after).contains_key(key) <==> (key == k || map_of(
                    before,
                ).contains_key(key)) by {
                if map_of(after).contains_key(key) {
                    let c = choose|c: int| entry_for(after, c, key);
                    if c != at {
                        assert(entry_for(before, c, key));
                    }
                }
                if key == k {
                    assert(entry_for(after, at as int, key));
                } else if map_of(before).contains_key(key) {
                    let c = choose|c: int| entry_for(before, c, key);
                    assert(entry_for(after, c, key));
                }
            }
            assert forall|key: K::V| #[trigger] map_of(after).contains_key(key) implies map_of(
                after,
            )[key] == map_of(before).insert(k, index as int)[key] by {
                if key == k {
                    map_of_entry(after, at as int);
                } else {
                    let c = choose|c: int| entry_for(after, c, key);
                    map_of_entry(after, c);
                    map_of_entry(before, c);
                }
            }
            assert(map_of(after) =~= map_of(before).insert(k, index as int));
        }
    }

    /// Drops every key of index `index`.
    pub fn drop_index(&mut self, index: usize)
        requires
            old(self).wf(),
        ensures
            final(self).wf(),
            final(self)@ == without_index(old(self)@, index as int),
    {
        let ghost before = self.entries@;
        let ghost mut kept: Seq<int> = Seq::empty();
        let ghost mut gone: int = 0;
        let mut i: usize = 0;
        while i < self.entries.len()
            invariant
                i <= self.entries@.len(),
                kept.len() == i,
                0 <= gone,
                gone + self.entries@.len() == before.len(),
                distinct_keys(before),
                forall|j: int| 0 <= j < i ==> 0 <= #[trigger] kept[j] < i + gone,
                forall|j: int| 0 <= j < i ==> self.entries@[j] == before[#[trigger] kept[j]],
                forall|j: int, k: int|
                    0 <= j < k < i ==> #[trigger] kept[j] < #[trigger] kept[k],
                forall|j: int|
                    i <= j < self.entries@.len() ==> #[trigger] self.entries@[j] == before[j
                        + gone],
                forall|j: int| 0 <= j < i ==> (#[trigger] self.entries@[j]).1 != index,
                forall|c: int|
                    0 <= c < i + gone && (#[trigger] before[c]).1 != index ==> kept.contains(c),
            decreases self.entries@.len() - i,
        {
            let ghost prev = self.entries@;
            if self.entries[i].1 == index {
                self.entries.remove(i);
                proof {
                    assert(before[i + gone] == prev[i as int]);
                    gone = gone + 1;
                }
            } else {
                proof {
                    let old_kept = kept;
                    kept = kept.push(i + gone);
                    assert forall|c: int|
                        0 <= c < i + 1 + gone && (#[trigger] before[c]).1
                            != index implies kept.contains(c) by {
                        if c < i + gone {
                            let w = choose|w: int| 0 <= w < old_kept.len() && old_kept[w] == c;
                            assert(old_kept.contains(c));
                            assert(kept[w] == c);
                        } else {
                            assert(kept[i as int] == c);
                        }
                    }
                }
                i += 1;
            }
        }
        proof {
            let after = self.entries@;
            assert(distinct_keys(after)) by {
                assert forall|j: int, k: int| 0 <= j < k < after.len() implies (
                #[trigger] after[j]).0@ != (#[trigger] after[k]).0@ by {
                    assert(kept[j] < kept[k]);
                    assert(before[kept[j]].0@ != before[kept[k]].0@);
                }
            }
            let m = map_of(before);
            let target = without_index(m, index as int);
            assert forall|key: K::V| #[trigger]
                map_of(after).contains_key(key) implies target.contains_key(key) && target[key]
                == map_of(after)[key] by {
                let c = choose|c: int| entry_for(after, c, key);
                map_of_entry(after, c);
                map_of_entry(before, kept[c]);
            }
            assert forall|key: K::V| #[trigger] target.contains_key(key) implies map_of(
                after,
            ).contains_key(key) by {
                let c = choose|c: int| entry_for(before, c, key);
                map_of_entry(before, c);
                assert(kept.contains(c));
                let w = choose|w: int| 0 <= w < kept.len() && kept[w] == c;
                assert(entry_for(after, w, key));
            }
            assert(map_of(after) =~= target);
        }
    }

    /// Drops every key.
    pub fn clear(&mut self)
        ensures
            final(self).wf(),
            final(self)@ == Map::<K::V, int>::empty(),
    {
        self.entries.clear();
        assert(self@ =~= Map::<K::V, int>::empty());
    }

    /// Whether some key has index `index`.
    pub fn has_index(&self, index: usize) -> (r: bool)
        requires
            self.wf(),
        ensures
            r == has_value(self@, index as int),
    {
        let mut i: usize = 0;
        while i < self.entries.len()
            invariant
                i <= self.entries@.len(),
                self.wf(),
                forall|j: int| 0 <= j < i ==> (#[trigger] self.entries@[j]).1 != index,
            decreases self.entries@.len() - i,
        {
            if self.entries[i].1 == index {
                proof {
                    map_of_entry(self.entries@, i as int);
                }
                return true;
            }
            i += 1;
        }
        proof {
            if has_value(self@, index as int) {
                let key = choose|key: K::V| #[trigger] self@.contains_key(key) && self@[key]
                    == index;
                let c = choose|c: int| entry_for(self.entries@, c, key);
                map_of_entry(self.entries@, c);
                assert(self.entries@[c].1 != index);
            }
        }
        false
    }
}

/// Taking an index out takes out every key that has it, and no other key.
pub proof fn only_keys_of_an_index_go<K>(m: Map<K, int>, index: int, key: K)
    ensures
        without_index(m, index).contains_key(key) <==> m.contains_key(key) && m[key] != index,
        without_index(m, index).contains_key(key) ==> without_index(m, index)[key] == m[key],
        !has_value(without_index(m, index), index),
        m.contains_key(key) ==> has_value(m, m[key]),
{
}

} // verus!
