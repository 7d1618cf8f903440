//! A list of values under distinct keys, in the order in which the keys
//! first came.
//!
//! The totals of a chunk are kept in such lists and walked when the chunk
//! is written out. A list is walked in the order of its keys' arrival, so
//! the rows that are planned for a chunk, and their order, are a function
//! of the chunk alone.

use crate::calendar::Date;
use vstd::prelude::*;

verus! {

/// A key that can be compared in executable code.
pub trait Key: Copy {
    /// Whether `self` and `other` are the same key.
    fn same(&self, other: &Self) -> (r: bool)
        ensures
            r == (*self == *other),
    ;
}

impl Key for Date {
    fn same(&self, other: &Self) -> (r: bool) {
        *self == *other
    }
}

impl Key for u128 {
    fn same(&self, other: &Self) -> (r: bool) {
        *self == *other
    }
}

/// Whether some entry of `entries` stands under `key`.
pub open spec fn has_key<K, V>(entries: Seq<(K, V)>, key: K) -> bool {
    exists|i: int| 0 <= i < entries.len() && (#[trigger] entries[i]).0 == key
}

/// A place of `entries` that stands under `key`; meaningful only where
/// there is one.
pub open spec fn place_of<K, V>(entries: Seq<(K, V)>, key: K) -> int {
    choose|i: int| 0 <= i < entries.len() && (#[trigger] entries[i]).0 == key
}

/// Whether no key stands at two places of `entries`.
pub open spec fn distinct_keys<K, V>(entries: Seq<(K, V)>) -> bool {
    forall|i: int, j: int|
        #![trigger entries[i], entries[j]]
        0 <= i < j < entries.len() ==> entries[i].0 != entries[j].0
}

/// The value under `key`, or `default` where the key has none.
pub open spec fn value_or<K, V>(entries: Seq<(K, V)>, key: K, default: V) -> V {
    if has_key(entries, key) {
        entries[place_of(entries, key)].1
    } else {
        default
    }
}

/// `entries` with `value` under `key`: in the key's place where it has
/// one, at the end where it has none.
pub open spec fn put<K, V>(entries: Seq<(K, V)>, key: K, value: V) -> Seq<(K, V)> {
    if has_key(entries, key) {
        entries.update(place_of(entries, key), (key, value))
    } else {
        entries.push((key, value))
    }
}

/// Among distinct keys, the place of a key is the only place that holds
/// it.
pub proof fn lemma_place_of<K, V>(entries: Seq<(K, V)>, i: int)
    requires
        distinct_keys(entries),
        0 <= i < entries.len(),
    ensures
        has_key(entries, entries[i].0),
        place_of(entries, entries[i].0) == i,
{
    let key = entries[i].0;
    let j = place_of(entries, key);
    assert(entries[j].0 == key);
    if i < j {
        assert(entries[i].0 != entries[j].0);
    } else if j < i {
        assert(entries[j].0 != entries[i].0);
    }
}

/// A key that has a place stands at it.
pub proof fn lemma_place_holds_key<K, V>(entries: Seq<(K, V)>, key: K)
    requires
        has_key(entries, key),
    ensures
        0 <= place_of(entries, key) < entries.len(),
        entries[place_of(entries, key)].0 == key,
{
}

/// Putting a value keeps the keys distinct, puts the value under its key
/// and leaves every other key with what it had.
pub proof fn lemma_put<K, V>(entries: Seq<(K, V)>, key: K, value: V)
    requires
        distinct_keys(entries),
    ensures
        distinct_keys(put(entries, key, value)),
        has_key(put(entries, key, value), key),
        put(entries, key, value)[place_of(put(entries, key, value), key)].1 == value,
        forall|other: K|
            other != key ==> has_key(put(entries, key, value), other) == has_key(entries, other),
        forall|other: K, default: V|
            other != key ==> value_or(put(entries, key, value), other, default) == value_or(
                entries,
                other,
                default,
            ),
{
    let after = put(entries, key, value);
    if has_key(entries, key) {
        let p = place_of(entries, key);
        assert(after[p] == (key, value));
        assert forall|i: int, j: int| 0 <= i < j < after.len() implies after[i].0
            != after[j].0 by {
            assert(entries[i].0 != entries[j].0);
        }
        lemma_place_of(after, p);
        assert forall|other: K| other != key implies has_key(after, other) == has_key(
            entries,
            other,
        ) by {
            if has_key(entries, other) {
                let q = place_of(entries, other);
                assert(after[q].0 == other);
            }
            if has_key(after, other) {
                let q = place_of(after, other);
                assert(entries[q].0 == other);
            }
        }
        assert forall|other: K, default: V| other != key implies value_or(after, other, default)
            == value_or(entries, other, default) by {
            if has_key(entries, other) {
                let q = place_of(entries, other);
                assert(after[q].0 == other);
                lemma_place_of(entries, q);
                lemma_place_of(after, q);
            }
        }
    } else {
        let n = entries.len() as int;
        assert(after[n] == (key, value));
        assert forall|i: int, j: int| 0 <= i < j < after.len() implies after[i].0
            != after[j].0 by {
            if j < n {
                assert(entries[i].0 != entries[j].0);
            } else if after[i].0 == key {
                assert(entries[i].0 == key);
            }
        }
        lemma_place_of(after, n);
        assert forall|other: K| other != key implies has_key(after, other) == has_key(
            entries,
            other,
        ) by {
            if has_key(entries, other) {
                let q = place_of(entries, other);
                assert(after[q].0 == other);
            }
            if has_key(after, other) {
                let q = place_of(after, other);
                assert(entries[q].0 == other);
            }
        }
        assert forall|other: K, default: V| other != key implies value_or(after, other, default)
            == value_or(entries, other, default) by {
            if has_key(entries, other) {
                let q = place_of(entries, other);
                assert(after[q].0 == other);
                lemma_place_of(entries, q);
                lemma_place_of(after, q);
            }
        }
    }
}

/// Putting a value under a key, and then another under the same key,
/// leaves what putting the second alone leaves.
pub proof fn lemma_put_twice<K, V>(entries: Seq<(K, V)>, key: K, first: V, second: V)
    requires
        distinct_keys(entries),
    ensures
        put(put(entries, key, first), key, second) == put(entries, key, second),
{
    let once = put(entries, key, first);
    lemma_put(entries, key, first);
    if has_key(entries, key) {
        let p = place_of(entries, key);
        assert(once[p].0 == key);
        lemma_place_of(once, p);
        assert(put(once, key, second) =~= put(entries, key, second));
    } else {
        let n = entries.len() as int;
        assert(once[n].0 == key);
        lemma_place_of(once, n);
        assert(put(once, key, second) =~= put(entries, key, second));
    }
}

/// Values under distinct keys. A key keeps the place at which it was first
/// put in, whatever happens to its value afterwards. Every list that this
/// type's functions build is valid: no key stands at two places.
pub struct KeyedList<K: Key, V> {
    entries: Vec<(K, V)>,
}

impl<K: Key, V> KeyedList<K, V> {
    /// The keys and values, in the order in which the keys first came.
    pub closed spec fn entries(self) -> Seq<(K, V)> {
        self.entries@
    }

    /// Whether no key stands at two places.
    pub open spec fn is_valid(self) -> bool {
        distinct_keys(self.entries())
    }

    /// Whether `key` has a value.
    pub open spec fn contains_key(self, key: K) -> bool {
        has_key(self.entries(), key)
    }

    /// An empty list.
    pub fn new() -> (list: Self)
        ensures
            list.entries() == Seq::<(K, V)>::empty(),
            list.is_valid(),
    {
        KeyedList { entries: Vec::new() }
    }

    /// The number of keys.
    pub fn len(&self) -> (n: usize)
        ensures
            n == self.entries().len(),
    {
        self.entries.len()
    }

    /// The key at a place.
    pub fn key_at(&self, index: usize) -> (key: K)
        requires
            index < self.entries().len(),
        ensures
            key == self.entries()[index as int].0,
    {
        self.entries[index].0
    }

    /// The value at a place.
    pub fn value_at(&self, index: usize) -> (value: &V)
        requires
            index < self.entries().len(),
        ensures
            *value == self.entries()[index as int].1,
    {
        &self.entries[index].1
    }

    /// The place of `key`, if it has a value.
    pub fn find(&self, key: &K) -> (place: Option<usize>)
        requires
            self.is_valid(),
        ensures
            place is Some <==> self.contains_key(*key),
            place matches Some(i) ==> i < self.entries().len() && self.entries()[i as int].0
                == *key && place_of(self.entries(), *key) == i,
    {
        let mut i: usize = 0;
        while i < self.entries.len()
            invariant
                i <= self.entries@.len(),
                self.is_valid(),
                forall|j: int| 0 <= j < i ==> (#[trigger] self.entries@[j]).0 != *key,
            decreases self.entries@.len() - i,
        {
            if self.entries[i].0.same(key) {
                proof {
                    lemma_place_of(self.entries(), i as int);
                }
                return Some(i);
            }
            i += 1;
        }
        None
    }

    /// Puts a value under a key that has none yet, at the end of the list.
    pub fn push(&mut self, key: K, value: V)
        requires
            old(self).is_valid(),
            !old(self).contains_key(key),
        ensures
            final(self).entries() == old(self).entries().push((key, value)),
            final(self).entries() == put(old(self).entries(), key, value),
            final(self).is_valid(),
    {
        proof {
            lemma_put(self.entries(), key, value);
        }
        self.entries.push((key, value));
    }

    /// Replaces the value at a place.
    pub fn set_value(&mut self, index: usize, value: V)
        requires
            old(self).is_valid(),
            index < old(self).entries().len(),
        ensures
            final(self).entries() == old(self).entries().update(
                index as int,
                (old(self).entries()[index as int].0, value),
            ),
            final(self).entries() == put(
                old(self).entries(),
                old(self).entries()[index as int].0,
                value,
            ),
            final(self).is_valid(),
    {
        let key = self.entries[index].0;
        proof {
            lemma_place_of(self.entries(), index as int);
            lemma_put(self.entries(), key, value);
        }
        self.entries.set(index, (key, value));
    }

    /// Puts a value under a key: in the key's place where it has one, at
    /// the end of the list where it has none.
    pub fn upsert(&mut self, key: K, value: V)
        requires
            old(self).is_valid(),
        ensures
            final(self).entries() == put(old(self).entries(), key, value),
            final(self).is_valid(),
    {
        match self.find(&key) {
            Some(index) => self.set_value(index, value),
            None => self.push(key, value),
        }
    }

    /// The value at a place, to be changed where it stands.
    pub fn value_at_mut(&mut self, index: usize) -> (value: &mut V)
        requires
            old(self).is_valid(),
            index < old(self).entries().len(),
        ensures
            *value == old(self).entries()[index as int].1,
            final(self).entries() == old(self).entries().update(
                index as int,
                (old(self).entries()[index as int].0, *final(value)),
            ),
            final(self).entries() == put(
                old(self).entries(),
                old(self).entries()[index as int].0,
                *final(value),
            ),
            final(self).is_valid(),
    {
        proof {
            lemma_place_of(self.entries(), index as int);
            assert forall|v: V|
                distinct_keys(
                    #[trigger] put(self.entries(), self.entries()[index as int].0, v),
                ) by {
                lemma_put(self.entries(), self.entries()[index as int].0, v);
            }
        }
        &mut self.entries[index].1
    }
}

/// The entries of a list of lists, with every inner list as its entries.
pub open spec fn nested<K1: Key, K2: Key, V>(list: KeyedList<K1, KeyedList<K2, V>>) -> Seq<
    (K1, Seq<(K2, V)>),
> {
    Seq::new(
        list.entries().len(),
        |i: int| (list.entries()[i].0, list.entries()[i].1.entries()),
    )
}

/// Whether a list of lists is valid, and every inner list with it.
pub open spec fn all_valid<K1: Key, K2: Key, V>(list: KeyedList<K1, KeyedList<K2, V>>) -> bool {
    &&& list.is_valid()
    &&& forall|i: int|
        0 <= i < list.entries().len() ==> (#[trigger] list.entries()[i]).1.is_valid()
}

/// A list of lists and its nested entries hold the same keys at the same
/// places.
pub proof fn lemma_nested<K1: Key, K2: Key, V>(list: KeyedList<K1, KeyedList<K2, V>>)
    requires
        list.is_valid(),
    ensures
        nested(list).len() == list.entries().len(),
        distinct_keys(nested(list)),
        forall|key: K1| has_key(nested(list), key) == has_key(list.entries(), key),
        forall|key: K1|
            has_key(list.entries(), key) ==> place_of(nested(list), key) == place_of(
                list.entries(),
                key,
            ),
{
    let inner = nested(list);
    let outer = list.entries();
    assert forall|i: int, j: int| 0 <= i < j < inner.len() implies inner[i].0
        != inner[j].0 by {
        assert(outer[i].0 != outer[j].0);
    }
    assert forall|key: K1| has_key(inner, key) == has_key(outer, key) by {
        if has_key(inner, key) {
            let p = place_of(inner, key);
            assert(outer[p].0 == key);
        }
        if has_key(outer, key) {
            let p = place_of(outer, key);
            assert(inner[p].0 == key);
        }
    }
    assert forall|key: K1| has_key(outer, key) implies place_of(inner, key) == place_of(
        outer,
        key,
    ) by {
        let p = place_of(outer, key);
        assert(inner[p].0 == key);
        lemma_place_of(inner, p);
    }
}

impl<K1: Key, K2: Key, V> KeyedList<K1, KeyedList<K2, V>> {
    /// The place of the inner list under `key`, which is put in, empty,
    /// where the key has none yet.
    pub fn place_for(&mut self, key: K1) -> (place: usize)
        requires
            all_valid(*old(self)),
        ensures
            all_valid(*final(self)),
            place < final(self).entries().len(),
            final(self).entries()[place as int].0 == key,
            nested(*final(self)) == put(
                nested(*old(self)),
                key,
                value_or(nested(*old(self)), key, Seq::<(K2, V)>::empty()),
            ),
            nested(*final(self))[place as int].1 == value_or(
                nested(*old(self)),
                key,
                Seq::<(K2, V)>::empty(),
            ),
            place_of(nested(*final(self)), key) == place,
    {
        proof {
            lemma_nested(*self);
        }
        match self.find(&key) {
            Some(place) => {
                proof {
                    assert(nested(*self)[place as int].0 == key);
                    assert(nested(*self) =~= put(
                        nested(*self),
                        key,
                        value_or(nested(*self), key, Seq::<(K2, V)>::empty()),
                    ));
                }
                place
            },
            None => {
                let place = self.len();
                self.push(key, KeyedList::new());
                proof {
                    lemma_nested(*self);
                    assert(nested(*self) =~= put(
                        nested(*old(self)),
                        key,
                        value_or(nested(*old(self)), key, Seq::<(K2, V)>::empty()),
                    ));
                    assert(nested(*self)[place as int].0 == key);
                    lemma_place_of(nested(*self), place as int);
                }
                place
            },
        }
    }
}

/// Replacing the inner list at the place of a key puts the new inner
/// list's entries under the key.
pub proof fn lemma_nested_replaced<K1: Key, K2: Key, V>(
    before: KeyedList<K1, KeyedList<K2, V>>,
    after: KeyedList<K1, KeyedList<K2, V>>,
    place: int,
)
    requires
        all_valid(before),
        0 <= place < before.entries().len(),
        after.entries() == before.entries().update(
            place,
            (before.entries()[place].0, after.entries()[place].1),
        ),
        after.entries()[place].1.is_valid(),
    ensures
        all_valid(after),
        nested(after) == put(
            nested(before),
            before.entries()[place].0,
            after.entries()[place].1.entries(),
        ),
{
    lemma_nested(before);
    let key = before.entries()[place].0;
    assert(nested(before)[place].0 == key);
    lemma_place_of(nested(before), place);
    assert forall|i: int, j: int| 0 <= i < j < after.entries().len() implies after.entries()[i].0
        != after.entries()[j].0 by {
        assert(before.entries()[i].0 != before.entries()[j].0);
    }
    assert forall|i: int| 0 <= i < after.entries().len() implies (
    #[trigger] after.entries()[i]).1.is_valid() by {
        if i != place {
            assert(after.entries()[i] == before.entries()[i]);
        }
    }
    assert(nested(after) =~= put(nested(before), key, after.entries()[place].1.entries()));
}

} // verus!
