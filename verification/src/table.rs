//! A table keyed by byte strings.
//!
//! The table keeps its entries in a vector, in the order in which their keys
//! were first inserted, except that a removal moves the last entry into the
//! place of the removed one. No key occurs twice.

use vstd::prelude::*;

verus! {

/// One entry of a table.
struct Entry<V> {
    key: Vec<u8>,
    value: V,
}

/// A table from byte strings to values of type `V`.
pub struct Table<V> {
    entries: Vec<Entry<V>>,
}

/// Whether some item has this key.
pub open spec fn holds<V>(items: Seq<(Seq<u8>, V)>, key: Seq<u8>) -> bool {
    exists|i: int| 0 <= i < items.len() && (#[trigger] items[i]).0 == key
}

/// The place of an item with this key.
pub open spec fn place<V>(items: Seq<(Seq<u8>, V)>, key: Seq<u8>) -> int {
    choose|i: int| 0 <= i < items.len() && (#[trigger] items[i]).0 == key
}

/// No two items have the same key.
pub open spec fn distinct<V>(items: Seq<(Seq<u8>, V)>) -> bool {
    forall|i: int, j: int|
        0 <= i < j < items.len() ==> (#[trigger] items[i]).0 != (#[trigger] items[j]).0
}

/// The map that the items stand for.
pub open spec fn map_of<V>(items: Seq<(Seq<u8>, V)>) -> Map<Seq<u8>, V> {
    Map::new(|key: Seq<u8>| holds(items, key), |key: Seq<u8>| items[place(items, key)].1)
}

/// Among distinct items, the one at `at` is the one found for its key.
pub proof fn lemma_place<V>(items: Seq<(Seq<u8>, V)>, at: int)
    requires
        distinct(items),
        0 <= at < items.len(),
    ensures
        holds(items, items[at].0),
        place(items, items[at].0) == at,
        map_of(items).contains_key(items[at].0),
        map_of(items)[items[at].0] == items[at].1,
{
    let found = place(items, items[at].0);
    assert(0 <= found < items.len() && items[found].0 == items[at].0);
    if found < at {
        assert(items[found].0 != items[at].0);
    } else if at < found {
        assert(items[at].0 != items[found].0);
    }
}

/// Appending an item with a new key adds that key and leaves the others as
/// they were.
pub proof fn lemma_appended<V>(before: Seq<(Seq<u8>, V)>, item: (Seq<u8>, V))
    requires
        distinct(before),
        !holds(before, item.0),
    ensures
        distinct(before.push(item)),
        map_of(before.push(item)) == map_of(before).insert(item.0, item.1),
{
    let after = before.push(item);
    let last = before.len() as int;
    assert(forall|i: int| 0 <= i < last ==> #[trigger] after[i] == before[i]);
    assert(after[last] == item);
    assert forall|i: int, j: int| 0 <= i < j < after.len() implies (#[trigger] after[i]).0 != (
    #[trigger] after[j]).0 by {
        if j == last {
            if before[i].0 == item.0 {
                assert(holds(before, item.0));
            }
        } else {
            assert(before[i].0 != before[j].0);
        }
    }
    lemma_place(after, last);
    assert forall|key: Seq<u8>| #[trigger]
        holds(after, key) <==> (holds(before, key) || key == item.0) by {
        if holds(after, key) {
            let i = place(after, key);
            if i != last {
                assert(before[i].0 == key);
            }
        }
        if holds(before, key) {
            let i = place(before, key);
            assert(after[i].0 == key);
        }
    }
    assert forall|key: Seq<u8>| holds(before, key) implies #[trigger] map_of(after)[key] == map_of(
        before,
    )[key] by {
        let i = place(before, key);
        assert(after[i] == before[i]);
        lemma_place(after, i);
    }
    assert(map_of(after) =~= map_of(before).insert(item.0, item.1));
}

/// Rewriting the value of an item rewrites the value of its key and leaves
/// the others as they were.
pub proof fn lemma_replaced<V>(before: Seq<(Seq<u8>, V)>, at: int, value: V)
    requires
        distinct(before),
        0 <= at < before.len(),
    ensures
        distinct(before.update(at, (before[at].0, value))),
        map_of(before.update(at, (before[at].0, value))) == map_of(before).insert(
            before[at].0,
            value,
        ),
{
    let key_at = before[at].0;
    let after = before.update(at, (key_at, value));
    assert forall|i: int| 0 <= i < before.len() implies (#[trigger] after[i]).0 == before[i].0 by {}
    assert forall|i: int, j: int| 0 <= i < j < after.len() implies (#[trigger] after[i]).0 != (
    #[trigger] after[j]).0 by {
        assert(before[i].0 != before[j].0);
    }
    lemma_place(after, at);
    assert forall|key: Seq<u8>| #[trigger] holds(after, key) <==> holds(before, key) by {
        if holds(after, key) {
            let i = place(after, key);
            assert(before[i].0 == key);
        }
        if holds(before, key) {
            let i = place(before, key);
            assert(after[i].0 == key);
        }
    }
    assert forall|key: Seq<u8>| holds(before, key) && key != key_at implies #[trigger] map_of(
        after,
    )[key] == map_of(before)[key] by {
        let i = place(before, key);
        assert(after[i] == before[i]);
        lemma_place(after, i);
    }
    lemma_place(before, at);
    assert(map_of(after) =~= map_of(before).insert(key_at, value));
}

/// Taking an item out, the last item filling its place, removes its key and
/// leaves the others as they were.
pub proof fn lemma_removed<V>(before: Seq<(Seq<u8>, V)>, at: int)
    requires
        distinct(before),
        0 <= at < before.len(),
    ensures
        distinct(before.update(at, before.last()).drop_last()),
        map_of(before.update(at, before.last()).drop_last()) == map_of(before).remove(
            before[at].0,
        ),
{
    let after = before.update(at, before.last()).drop_last();
    let last = before.len() - 1;
    let gone = before[at].0;
    assert forall|i: int| 0 <= i < after.len() implies #[trigger] after[i] == before[if i == at {
        last
    } else {
        i
    }] by {}
    assert forall|i: int, j: int| 0 <= i < j < after.len() implies (#[trigger] after[i]).0 != (
    #[trigger] after[j]).0 by {
        let from_i = if i == at { last } else { i };
        let from_j = if j == at { last } else { j };
        assert(after[i] == before[from_i] && after[j] == before[from_j]);
        if from_i < from_j {
            assert(before[from_i].0 != before[from_j].0);
        } else {
            assert(before[from_j].0 != before[from_i].0);
        }
    }
    lemma_place(before, at);
    assert forall|key: Seq<u8>| #[trigger] holds(after, key) <==> (holds(before, key) && key
        != gone) by {
        if holds(after, key) {
            let i = place(after, key);
            let from_i = if i == at { last } else { i };
            assert(after[i] == before[from_i]);
            assert(before[from_i].0 == key);
            if key == gone {
                lemma_place(before, from_i);
            }
        }
        if holds(before, key) && key != gone {
            let i = place(before, key);
            if i == last {
                assert(after[at].0 == key);
            } else {
                assert(after[i].0 == key);
            }
        }
    }
    assert forall|key: Seq<u8>| holds(before, key) && key != gone implies #[trigger] map_of(
        after,
    )[key] == map_of(before)[key] by {
        let i = place(before, key);
        let to_i = if i == last { at } else { i };
        assert(after[to_i] == before[i]);
        lemma_place(after, to_i);
    }
    assert(map_of(after) =~= map_of(before).remove(gone));
}

/// Whether two byte vectors hold the same bytes.
pub fn same_bytes(left: &Vec<u8>, right: &Vec<u8>) -> (same: bool)
    ensures
        same == (left@ == right@),
{
    if left.len() != right.len() {
        return false;
    }
    let mut i: usize = 0;
    while i < left.len()
        invariant
            left@.len() == right@.len(),
            i <= left@.len(),
            forall|j: int| 0 <= j < i ==> left@[j] == right@[j],
        decreases left@.len() - i,
    {
        if left[i] != right[i] {
            return false;
        }
        i = i + 1;
    }
    assert(left@ =~= right@);
    true
}

impl<V: Copy> View for Table<V> {
    type V = Map<Seq<u8>, V>;

    closed spec fn view(&self) -> Map<Seq<u8>, V> {
        map_of(self.items())
    }
}

impl<V: Copy> Table<V> {
    /// The entries of the table, in the order in which it keeps them.
    pub closed spec fn items(&self) -> Seq<(Seq<u8>, V)> {
        Seq::new(self.entries@.len(), |i: int| (self.entries@[i].key@, self.entries@[i].value))
    }

    /// The table's invariant: no key occurs twice.
    pub closed spec fn wf(&self) -> bool {
        distinct(self.items())
    }

    /// A well-formed table is the map of its items, none of which share a key.
    pub proof fn lemma_items(&self)
        requires
            self.wf(),
        ensures
            distinct(self.items()),
            self@ == map_of(self.items()),
    {
    }

    /// A table without entries.
    pub fn new() -> (table: Self)
        ensures
            table.wf(),
            table@ == Map::<Seq<u8>, V>::empty(),
            table.items() == Seq::<(Seq<u8>, V)>::empty(),
    {
        let table = Table { entries: Vec::new() };
        assert(table.items() =~= Seq::<(Seq<u8>, V)>::empty());
        assert(table@ =~= Map::<Seq<u8>, V>::empty());
        table
    }

    /// The place of the entry with this key, if there is one.
    fn find(&self, key: &Vec<u8>) -> (found: Option<usize>)
        requires
            self.wf(),
        ensures
            match found {
                Some(at) => {
                    &&& at < self.entries@.len()
                    &&& self.entries@[at as int].key@ == key@
                    &&& self@.contains_key(key@)
                    &&& self@[key@] == self.entries@[at as int].value
                    &&& place(self.items(), key@) == at
                },
                None => !self@.contains_key(key@),
            },
    {
        let mut at: usize = 0;
        while at < self.entries.len()
            invariant
                self.wf(),
                at <= self.entries@.len(),
                forall|i: int| 0 <= i < at ==> (#[trigger] self.items()[i]).0 != key@,
            decreases self.entries@.len() - at,
        {
            if same_bytes(&self.entries[at].key, key) {
                proof {
                    assert(self.items()[at as int].0 == key@);
                    lemma_place(self.items(), at as int);
                }
                return Some(at);
            }
            at = at + 1;
        }
        None
    }

    /// The value under this key, if there is one.
    pub fn get(&self, key: &Vec<u8>) -> (found: Option<V>)
        requires
            self.wf(),
        ensures
            found == if self@.contains_key(key@) {
                Some(self@[key@])
            } else {
                None
            },
    {
        match self.find(key) {
            Some(at) => Some(self.entries[at].value),
            None => None,
        }
    }

    /// Whether there is a value under this key.
    pub fn contains_key(&self, key: &Vec<u8>) -> (present: bool)
        requires
            self.wf(),
        ensures
            present == self@.contains_key(key@),
    {
        self.find(key).is_some()
    }

    /// Puts `value` under `key`, in place of the value that was there if
    /// there was one, and else in a new entry at the end. Returns the value
    /// that was there.
    pub fn insert(&mut self, key: Vec<u8>, value: V) -> (previous: Option<V>)
        requires
            old(self).wf(),
        ensures
            final(self).wf(),
            final(self)@ == old(self)@.insert(key@, value),
            previous == if old(self)@.contains_key(key@) {
                Some(old(self)@[key@])
            } else {
                None
            },
            final(self).items() == if old(self)@.contains_key(key@) {
                old(self).items().update(place(old(self).items(), key@), (key@, value))
            } else {
                old(self).items().push((key@, value))
            },
    {
        match self.find(&key) {
            Some(at) => {
                let previous = self.entries[at].value;
                self.entries[at] = Entry { key, value };
                proof {
                    lemma_replaced(old(self).items(), at as int, value);
                    assert(self.items() =~= old(self).items().update(at as int, (key@, value)));
                }
                Some(previous)
            },
            None => {
                self.entries.push(Entry { key, value });
                proof {
                    lemma_appended(old(self).items(), (key@, value));
                    assert(self.items() =~= old(self).items().push((key@, value)));
                }
                None
            },
        }
    }

    /// Takes out the entry with this key, if there is one; the last entry
    /// then takes its place. Returns the value that was there.
    pub fn remove(&mut self, key: &Vec<u8>) -> (previous: Option<V>)
        requires
            old(self).wf(),
        ensures
            final(self).wf(),
            final(self)@ == old(self)@.remove(key@),
            previous == if old(self)@.contains_key(key@) {
                Some(old(self)@[key@])
            } else {
                None
            },
            final(self).items() == if old(self)@.contains_key(key@) {
                old(self).items().update(
                    place(old(self).items(), key@),
                    old(self).items().last(),
                ).drop_last()
            } else {
                old(self).items()
            },
    {
        match self.find(key) {
            Some(at) => {
                let entry = self.entries.swap_remove(at);
                proof {
                    lemma_removed(old(self).items(), at as int);
                    assert(self.items() =~= old(self).items().update(
                        at as int,
                        old(self).items().last(),
                    ).drop_last());
                }
                Some(entry.value)
            },
            None => {
                assert(self@ =~= old(self)@.remove(key@));
                None
            },
        }
    }
}

} // verus!
