//! An insertion-ordered map with distinct keys.
//!
//! Sessions, handlers and displays are looked up by key and also walked in a fixed order, so the
//! order in which keys arrived is part of the model.

use vstd::prelude::*;

verus! {

/// The value stored under `key`, if any.
pub open spec fn lookup<K, V>(entries: Seq<(K, V)>, key: K) -> Option<V>
    decreases entries.len(),
{
    if entries.len() == 0 {
        None
    } else if entries.last().0 == key {
        Some(entries.last().1)
    } else {
        lookup(entries.drop_last(), key)
    }
}

/// Stores `value` under `key`: in place when the key is present, at the end when it is new.
pub open spec fn put<K, V>(entries: Seq<(K, V)>, key: K, value: V) -> Seq<(K, V)>
    decreases entries.len(),
{
    if entries.len() == 0 {
        seq![(key, value)]
    } else if entries.last().0 == key {
        entries.drop_last().push((key, value))
    } else if lookup(entries, key) is Some {
        put(entries.drop_last(), key, value).push(entries.last())
    } else {
        entries.push((key, value))
    }
}

/// Drops the entry stored under `key`; the others keep their order.
pub open spec fn without<K, V>(entries: Seq<(K, V)>, key: K) -> Seq<(K, V)> {
    entries.filter(|entry: (K, V)| entry.0 != key)
}

/// No key occurs twice.
pub open spec fn distinct_keys<K, V>(entries: Seq<(K, V)>) -> bool {
    forall|i: int, j: int|
        0 <= i < j < entries.len() ==> (#[trigger] entries[i]).0 != (#[trigger] entries[j]).0
}

/// A key that two table entries can be told apart by.
pub trait Key: View + Sized {
    /// Whether the two keys are the same.
    fn same(&self, other: &Self) -> (r: bool)
        ensures
            r == (self@ == other@),
    ;
}

impl Key for usize {
    fn same(&self, other: &Self) -> (r: bool) {
        *self == *other
    }
}

impl Key for u128 {
    fn same(&self, other: &Self) -> (r: bool) {
        *self == *other
    }
}

impl Key for String {
    fn same(&self, other: &Self) -> (r: bool) {
        *self == *other
    }
}

/// An insertion-ordered map: the keys are distinct and stay where they first came.
pub struct Table<K: Key, V: View> {
    entries: Vec<(K, V)>,
}

pub closed spec fn entries_view<K: Key, V: View>(entries: Seq<(K, V)>) -> Seq<(K::V, V::V)> {
    entries.map_values(|entry: (K, V)| (entry.0@, entry.1@))
}

impl<K: Key, V: View> View for Table<K, V> {
    type V = Seq<(K::V, V::V)>;

    closed spec fn view(&self) -> Seq<(K::V, V::V)> {
        entries_view(self.entries@)
    }
}

/// `lookup` finds the entry at `i` when its key occurs nowhere else.
pub proof fn lemma_lookup_at<K, V>(entries: Seq<(K, V)>, i: int)
    requires
        distinct_keys(entries),
        0 <= i < entries.len(),
    ensures
        lookup(entries, entries[i].0) == Some(entries[i].1),
    decreases entries.len(),
{
    if i < entries.len() - 1 {
        lemma_lookup_at(entries.drop_last(), i);
    }
}

/// `lookup` finds nothing when no entry has the key.
pub proof fn lemma_lookup_absent<K, V>(entries: Seq<(K, V)>, key: K)
    ensures
        lookup(entries, key) is None <==> (forall|i: int|
            0 <= i < entries.len() ==> (#[trigger] entries[i]).0 != key),
    decreases entries.len(),
{
    if entries.len() > 0 {
        lemma_lookup_absent(entries.drop_last(), key);
        let rest = entries.drop_last();
        if entries.last().0 != key {
            assert(forall|i: int| 0 <= i < rest.len() ==> rest[i] == entries[i]);
            if lookup(entries, key) is Some {
                let i = choose|i: int| 0 <= i < rest.len() && (#[trigger] rest[i]).0 == key;
                assert(entries[i].0 == key);
            }
        }
    }
}

/// Storing under the key of entry `i` replaces that entry.
pub proof fn lemma_put_at<K, V>(entries: Seq<(K, V)>, i: int, value: V)
    requires
        distinct_keys(entries),
        0 <= i < entries.len(),
    ensures
        put(entries, entries[i].0, value) == entries.update(i, (entries[i].0, value)),
    decreases entries.len(),
{
    let key = entries[i].0;
    if i < entries.len() - 1 {
        let rest = entries.drop_last();
        lemma_lookup_at(entries, i);
        lemma_put_at(rest, i, value);
        assert(put(entries, key, value) =~= entries.update(i, (key, value)));
    } else {
        assert(put(entries, key, value) =~= entries.update(i, (key, value)));
    }
}

/// Storing under a new key adds an entry at the end.
pub proof fn lemma_put_new<K, V>(entries: Seq<(K, V)>, key: K, value: V)
    requires
        lookup(entries, key) is None,
    ensures
        put(entries, key, value) == entries.push((key, value)),
{
    if entries.len() == 0 {
        assert(put(entries, key, value) =~= entries.push((key, value)));
    }
}

/// `put` keeps the keys distinct.
pub proof fn lemma_put_distinct<K, V>(entries: Seq<(K, V)>, key: K, value: V)
    requires
        distinct_keys(entries),
    ensures
        distinct_keys(put(entries, key, value)),
{
    lemma_lookup_absent(entries, key);
    if lookup(entries, key) is None {
        lemma_put_new(entries, key, value);
    } else {
        let i = choose|i: int| 0 <= i < entries.len() && (#[trigger] entries[i]).0 == key;
        lemma_put_at(entries, i, value);
    }
}

/// A read after a write: the written key has the new value, every other key the old one.
pub proof fn lemma_lookup_put<K, V>(entries: Seq<(K, V)>, key: K, value: V, other: K)
    ensures
        lookup(put(entries, key, value), other) == if other == key {
            Some(value)
        } else {
            lookup(entries, other)
        },
    decreases entries.len(),
{
    let after = put(entries, key, value);
    if entries.len() == 0 {
        assert(after.drop_last() =~= entries);
    } else if entries.last().0 == key {
        assert(after.drop_last() =~= entries.drop_last());
    } else if lookup(entries, key) is Some {
        assert(after.drop_last() =~= put(entries.drop_last(), key, value));
        lemma_lookup_put(entries.drop_last(), key, value, other);
    } else {
        assert(after.drop_last() =~= entries);
    }
}

/// Of two writes under one key the later one counts.
pub proof fn lemma_put_put<K, V>(entries: Seq<(K, V)>, key: K, first: V, second: V)
    ensures
        put(put(entries, key, first), key, second) == put(entries, key, second),
    decreases entries.len(),
{
    let once = put(entries, key, first);
    if entries.len() == 0 || entries.last().0 == key || lookup(entries, key) is None {
        assert(once.last() == (key, first));
        assert(once.drop_last().push((key, second)) =~= put(entries, key, second));
    } else {
        assert(once.drop_last() =~= put(entries.drop_last(), key, first));
        assert(once.last() == entries.last());
        lemma_lookup_put(entries, key, first, key);
        lemma_put_put(entries.drop_last(), key, first, second);
        assert(put(once, key, second) =~= put(entries, key, second));
    }
}

/// Storing the value that a key already has changes nothing.
pub proof fn lemma_put_same<K, V>(entries: Seq<(K, V)>, key: K)
    requires
        distinct_keys(entries),
    ensures
        lookup(entries, key) is Some ==> put(entries, key, lookup(entries, key).unwrap())
            == entries,
{
    lemma_lookup_absent(entries, key);
    if lookup(entries, key) is Some {
        let i = choose|i: int| 0 <= i < entries.len() && (#[trigger] entries[i]).0 == key;
        lemma_lookup_at(entries, i);
        lemma_put_at(entries, i, entries[i].1);
        assert(entries.update(i, entries[i]) =~= entries);
    }
}

/// A read after a removal: the removed key is gone, every other key has its old value.
pub proof fn lemma_lookup_without<K, V>(entries: Seq<(K, V)>, key: K, other: K)
    ensures
        lookup(without(entries, key), other) == if other == key {
            None
        } else {
            lookup(entries, other)
        },
    decreases entries.len(),
{
    reveal(Seq::filter);
    if entries.len() > 0 {
        lemma_lookup_without(entries.drop_last(), key, other);
        if entries.last().0 != key {
            assert(without(entries, key).drop_last() =~= without(entries.drop_last(), key));
        }
    }
}

/// Removing keeps the keys distinct, and removes one entry exactly when the key is present.
pub proof fn lemma_without_distinct<K, V>(entries: Seq<(K, V)>, key: K)
    requires
        distinct_keys(entries),
    ensures
        distinct_keys(without(entries, key)),
        without(entries, key).len() == entries.len() - if lookup(entries, key) is Some {
            1int
        } else {
            0
        },
    decreases entries.len(),
{
    reveal(Seq::filter);
    if entries.len() > 0 {
        let rest = entries.drop_last();
        lemma_without_distinct(rest, key);
        if entries.last().0 == key {
            lemma_lookup_absent(rest, key);
            assert forall|i: int| 0 <= i < rest.len() implies (#[trigger] rest[i]).0 != key by {
                assert(rest[i] == entries[i]);
            }
        } else {
            let kept = without(rest, key);
            assert(without(entries, key) =~= kept.push(entries.last()));
            assert forall|i: int| 0 <= i < kept.len() implies (#[trigger] kept[i]).0
                != entries.last().0 by {
                rest.lemma_filter_contains_rev(|e: (K, V)| e.0 != key, kept[i]);
                let j = choose|j: int| 0 <= j < rest.len() && rest[j] == kept[i];
                assert(entries[j] == rest[j]);
            }
        }
    }
}

/// What is left after a removal was there before.
pub proof fn lemma_without_kept<K, V>(entries: Seq<(K, V)>, key: K, i: int)
    requires
        0 <= i < without(entries, key).len(),
    ensures
        entries.contains(without(entries, key)[i]),
{
    let kept = without(entries, key);
    assert(kept.contains(kept[i]));
    entries.lemma_filter_contains_rev(|entry: (K, V)| entry.0 != key, kept[i]);
}

/// Removing the key of entry `i` removes that entry.
pub proof fn lemma_without_at<K, V>(entries: Seq<(K, V)>, i: int)
    requires
        distinct_keys(entries),
        0 <= i < entries.len(),
    ensures
        without(entries, entries[i].0) == entries.remove(i),
    decreases entries.len(),
{
    reveal(Seq::filter);
    let key = entries[i].0;
    let rest = entries.drop_last();
    if i < entries.len() - 1 {
        lemma_without_at(rest, i);
        assert(without(entries, key) =~= entries.remove(i));
    } else {
        lemma_lookup_absent(rest, key);
        assert(forall|j: int| 0 <= j < rest.len() ==> rest[j] == entries[j]);
        lemma_without_absent(rest, key);
        assert(without(entries, key) =~= entries.remove(i));
    }
}

/// Removing an absent key changes nothing.
pub proof fn lemma_without_absent<K, V>(entries: Seq<(K, V)>, key: K)
    requires
        lookup(entries, key) is None,
    ensures
        without(entries, key) == entries,
    decreases entries.len(),
{
    reveal(Seq::filter);
    if entries.len() > 0 {
        lemma_without_absent(entries.drop_last(), key);
        assert(without(entries, key) =~= entries);
    } else {
        assert(without(entries, key) =~= entries);
    }
}

impl<K: Key, V: View> Table<K, V> {
    /// The keys are distinct.
    pub open spec fn wf(&self) -> bool {
        distinct_keys(self@)
    }

    pub fn new() -> (table: Self)
        ensures
            table.wf(),
            table@ == Seq::<(K::V, V::V)>::empty(),
    {
        let table = Table { entries: Vec::new() };
        assert(table@ =~= Seq::<(K::V, V::V)>::empty());
        table
    }

    pub fn len(&self) -> (n: usize)
        ensures
            n == self@.len(),
    {
        self.entries.len()
    }

    /// The index of the entry stored under `key`.
    pub fn position(&self, key: &K) -> (index: Option<usize>)
        requires
            self.wf(),
        ensures
            match index {
                Some(i) => i < self@.len() && self@[i as int].0 == key@ && lookup(self@, key@)
                    == Some(self@[i as int].1),
                None => lookup(self@, key@) is None,
            },
    {
        let mut i: usize = 0;
        while i < self.entries.len()
            invariant
                i <= self.entries.len(),
                self.wf(),
                forall|j: int| 0 <= j < i ==> (#[trigger] self@[j]).0 != key@,
            decreases self.entries.len() - i,
        {
            if self.entries[i].0.same(key) {
                proof {
                    lemma_lookup_at(self@, i as int);
                }
                return Some(i);
            }
            i += 1;
        }
        proof {
            lemma_lookup_absent(self@, key@);
        }
        None
    }

    pub fn get(&self, key: &K) -> (value: Option<&V>)
        requires
            self.wf(),
        ensures
            match value {
                Some(v) => lookup(self@, key@) == Some(v@),
                None => lookup(self@, key@) is None,
            },
    {
        match self.position(key) {
            Some(i) => Some(&self.entries[i].1),
            None => None,
        }
    }

    pub fn get_mut(&mut self, key: &K) -> (value: Option<&mut V>)
        requires
            old(self).wf(),
        ensures
            match value {
                Some(v) => lookup(old(self)@, key@) == Some((*v)@) && final(self)@ == put(
                    old(self)@,
                    key@,
                    (*final(v))@,
                ),
                None => lookup(old(self)@, key@) is None && final(self)@ == old(self)@,
            },
            final(self).wf(),
    {
        match self.position(key) {
            Some(i) => {
                let ghost before = self.entries@;
                proof {
                    assert forall|e: (K, V)| e.0 == before[i as int].0 implies entries_view(
                        #[trigger] before.update(i as int, e),
                    ) == put(old(self)@, key@, e.1@) && distinct_keys(
                        entries_view(before.update(i as int, e)),
                    ) by {
                        lemma_put_at(old(self)@, i as int, e.1@);
                        assert(entries_view(before.update(i as int, e)) =~= put(
                            old(self)@,
                            key@,
                            e.1@,
                        ));
                    }
                }
                Some(&mut self.entries[i].1)
            },
            None => None,
        }
    }

    pub fn contains_key(&self, key: &K) -> (found: bool)
        requires
            self.wf(),
        ensures
            found == (lookup(self@, key@) is Some),
    {
        self.position(key).is_some()
    }

    pub fn is_empty(&self) -> (empty: bool)
        ensures
            empty == (self@.len() == 0),
    {
        self.entries.len() == 0
    }

    /// The key of the entry at `i`.
    pub fn key_at(&self, i: usize) -> (key: &K)
        requires
            i < self@.len(),
        ensures
            key@ == self@[i as int].0,
    {
        &self.entries[i].0
    }

    /// The value of the entry at `i`.
    pub fn value_at(&self, i: usize) -> (value: &V)
        requires
            i < self@.len(),
        ensures
            value@ == self@[i as int].1,
    {
        &self.entries[i].1
    }

    /// The value of the entry at `i`, to be changed in place.
    pub fn value_at_mut(&mut self, i: usize) -> (value: &mut V)
        requires
            old(self).wf(),
            i < old(self)@.len(),
        ensures
            (*value)@ == old(self)@[i as int].1,
            final(self)@ == old(self)@.update(
                i as int,
                (old(self)@[i as int].0, (*final(value))@),
            ),
            final(self).wf(),
    {
        let ghost before = self.entries@;
        proof {
            assert forall|e: (K, V)| e.0 == before[i as int].0 implies entries_view(
                #[trigger] before.update(i as int, e),
            ) == old(self)@.update(i as int, (old(self)@[i as int].0, e.1@)) && distinct_keys(
                entries_view(before.update(i as int, e)),
            ) by {
                assert(entries_view(before.update(i as int, e)) =~= old(self)@.update(
                    i as int,
                    (old(self)@[i as int].0, e.1@),
                ));
            }
        }
        &mut self.entries[i].1
    }

    /// Stores `value` under `key` and hands back the value that it replaces.
    pub fn insert(&mut self, key: K, value: V) -> (replaced: Option<V>)
        requires
            old(self).wf(),
        ensures
            final(self)@ == put(old(self)@, key@, value@),
            final(self).wf(),
            match replaced {
                Some(v) => lookup(old(self)@, key@) == Some(v@),
                None => lookup(old(self)@, key@) is None,
            },
    {
        proof {
            lemma_put_distinct(self@, key@, value@);
        }
        match self.position(&key) {
            Some(i) => {
                let mut entry: (K, V) = (key, value);
                proof {
                    lemma_put_at(self@, i as int, value@);
                }
                let ghost before = self.entries@;
                std::mem::swap(&mut self.entries[i], &mut entry);
                assert(self@ =~= old(self)@.update(i as int, (key@, value@)));
                Some(entry.1)
            },
            None => {
                proof {
                    lemma_put_new(self@, key@, value@);
                }
                self.entries.push((key, value));
                assert(self@ =~= old(self)@.push((key@, value@)));
                None
            },
        }
    }

    /// Removes the entry stored under `key` and hands back its value.
    pub fn remove(&mut self, key: &K) -> (removed: Option<V>)
        requires
            old(self).wf(),
        ensures
            final(self)@ == without(old(self)@, key@),
            final(self).wf(),
            match removed {
                Some(v) => lookup(old(self)@, key@) == Some(v@),
                None => lookup(old(self)@, key@) is None,
            },
    {
        proof {
            lemma_without_distinct(self@, key@);
        }
        match self.position(key) {
            Some(i) => {
                proof {
                    lemma_without_at(self@, i as int);
                }
                let entry = self.entries.remove(i);
                assert(self@ =~= old(self)@.remove(i as int));
                Some(entry.1)
            },
            None => {
                proof {
                    lemma_without_absent(self@, key@);
                }
                None
            },
        }
    }
}

/// What was added last is found first.
pub broadcast proof fn lemma_lookup_push<K, V>(entries: Seq<(K, V)>, entry: (K, V), key: K)
    ensures
        #[trigger] lookup(entries.push(entry), key) == if entry.0 == key {
            Some(entry.1)
        } else {
            lookup(entries, key)
        },
{
    assert(entries.push(entry).drop_last() =~= entries);
}

}
