//! A keyed table that keeps its entries in the order in which they came.

use vstd::prelude::*;
use vstd::string::*;

verus! {

/// Entries under text keys, in the order of insertion. No key occurs twice in
/// a table that is well formed.
#[derive(Debug)]
pub struct Table<V> {
    pub entries: Vec<(String, V)>,
}

impl<V: DeepView> DeepView for Table<V> {
    type V = Seq<(Seq<char>, V::V)>;

    open spec fn deep_view(&self) -> Seq<(Seq<char>, V::V)> {
        self.entries.deep_view()
    }
}

impl<V: Clone> Clone for Table<V> {
    /// A table with the same keys in the same order, and under each key a
    /// clone of the value.
    fn clone(&self) -> (r: Self)
        ensures
            r.entries.len() == self.entries.len(),
            forall|i: int|
                0 <= i < self.entries.len() ==> (#[trigger] r.entries[i]).0@ == self.entries[i].0@
                    && cloned::<V>(self.entries[i].1, r.entries[i].1),
    {
        let mut entries: Vec<(String, V)> = Vec::new();
        let mut i: usize = 0;
        while i < self.entries.len()
            invariant
                i <= self.entries.len(),
                entries.len() == i,
                forall|j: int|
                    0 <= j < i ==> (#[trigger] entries[j]).0@ == self.entries[j].0@ && cloned::<V>(
                        self.entries[j].1,
                        entries[j].1,
                    ),
            decreases self.entries.len() - i,
        {
            entries.push((self.entries[i].0.clone(), self.entries[i].1.clone()));
            i = i + 1;
        }
        Table { entries }
    }
}

/// Index of the first entry under `key`; `t.len()` when there is none.
pub open spec fn key_index<T>(t: Seq<(Seq<char>, T)>, key: Seq<char>) -> int
    decreases t.len(),
{
    if t.len() == 0 {
        0
    } else if t[0].0 == key {
        0
    } else {
        1 + key_index(t.drop_first(), key)
    }
}

/// Whether `t` has an entry under `key`.
pub open spec fn has_key<T>(t: Seq<(Seq<char>, T)>, key: Seq<char>) -> bool {
    key_index(t, key) < t.len()
}

/// The value under `key`, if `t` has one.
pub open spec fn entry<T>(t: Seq<(Seq<char>, T)>, key: Seq<char>) -> Option<T> {
    if has_key(t, key) {
        Some(t[key_index(t, key)].1)
    } else {
        None
    }
}

/// The table under `key` in a table of tables; the empty table where there is
/// none.
pub open spec fn inner<T>(t: Seq<(Seq<char>, Seq<T>)>, key: Seq<char>) -> Seq<T> {
    match entry(t, key) {
        Some(inner) => inner,
        None => Seq::empty(),
    }
}

/// `t` with `value` under `key`: in place of the value that was there, or as
/// a new entry at the end.
pub open spec fn put<T>(t: Seq<(Seq<char>, T)>, key: Seq<char>, value: T) -> Seq<(Seq<char>, T)> {
    let i = key_index(t, key);
    if i < t.len() {
        t.update(i, (t[i].0, value))
    } else {
        t.push((key, value))
    }
}

/// Whether no key occurs twice in `t`.
pub open spec fn distinct_keys<T>(t: Seq<(Seq<char>, T)>) -> bool {
    forall|i: int, j: int| 0 <= i < j < t.len() ==> t[i].0 != t[j].0
}

/// `key_index` is the position of the first entry under the key, and the
/// length where there is none.
pub proof fn lemma_key_index_bounds<T>(t: Seq<(Seq<char>, T)>, key: Seq<char>)
    ensures
        0 <= key_index(t, key) <= t.len(),
        key_index(t, key) < t.len() ==> t[key_index(t, key)].0 == key,
        forall|j: int| 0 <= j < key_index(t, key) ==> t[j].0 != key,
    decreases t.len(),
{
    if t.len() != 0 && t[0].0 != key {
        let rest = t.drop_first();
        lemma_key_index_bounds(rest, key);
        assert forall|j: int| 0 <= j < key_index(t, key) implies t[j].0 != key by {
            if j > 0 {
                assert(t[j] == rest[j - 1]);
            }
        }
    }
}

/// A position that holds `key` with no such entry before it is the key's index.
pub proof fn lemma_key_index_is<T>(t: Seq<(Seq<char>, T)>, key: Seq<char>, i: int)
    requires
        0 <= i <= t.len(),
        forall|j: int| 0 <= j < i ==> t[j].0 != key,
        i < t.len() ==> t[i].0 == key,
    ensures
        key_index(t, key) == i,
    decreases t.len(),
{
    if t.len() != 0 && i != 0 {
        lemma_key_index_is(t.drop_first(), key, i - 1);
    }
}

/// Where a key stands after `put`: a key that was there keeps its place, and
/// a new key stands at the end.
pub proof fn lemma_put_index<T>(t: Seq<(Seq<char>, T)>, key: Seq<char>, value: T, k: Seq<char>)
    ensures
        put(t, key, value).len() == if has_key(t, key) {
            t.len()
        } else {
            t.len() + 1
        },
        has_key(t, k) ==> key_index(put(t, key, value), k) == key_index(t, k),
        !has_key(t, k) && k == key ==> key_index(put(t, key, value), k) == t.len(),
        !has_key(t, k) && k != key ==> key_index(put(t, key, value), k) == put(t, key, value).len(),
{
    let after = put(t, key, value);
    lemma_key_index_bounds(t, key);
    lemma_key_index_bounds(t, k);
    let j = key_index(t, k);
    if j < t.len() {
        lemma_key_index_is(after, k, j);
    } else if k == key {
        lemma_key_index_is(after, k, t.len() as int);
    } else {
        lemma_key_index_is(after, k, after.len() as int);
    }
}

/// What stands under a key after `put`: the new value under the key that was
/// put, and under every other key what stood there before.
pub proof fn lemma_put_entry<T>(t: Seq<(Seq<char>, T)>, key: Seq<char>, value: T, k: Seq<char>)
    ensures
        entry(put(t, key, value), k) == if k == key {
            Some(value)
        } else {
            entry(t, k)
        },
{
    lemma_put_index(t, key, value, k);
    lemma_key_index_bounds(t, key);
    lemma_key_index_bounds(t, k);
}

/// `put` keeps the keys distinct.
pub proof fn lemma_put_distinct<T>(t: Seq<(Seq<char>, T)>, key: Seq<char>, value: T)
    requires
        distinct_keys(t),
    ensures
        distinct_keys(put(t, key, value)),
{
    lemma_key_index_bounds(t, key);
}

/// Putting what is there changes nothing.
pub proof fn lemma_put_same<T>(t: Seq<(Seq<char>, T)>, key: Seq<char>, value: T)
    requires
        entry(t, key) == Some(value),
    ensures
        put(t, key, value) == t,
{
    lemma_key_index_bounds(t, key);
}

/// Of two values put under one key, the second stays.
pub proof fn lemma_put_twice<T>(t: Seq<(Seq<char>, T)>, key: Seq<char>, first: T, second: T)
    ensures
        put(put(t, key, first), key, second) == put(t, key, second),
{
    lemma_put_index(t, key, first, key);
    lemma_key_index_bounds(t, key);
}

impl<V: DeepView> Table<V> {
    /// The empty table.
    pub fn new() -> (r: Self)
        ensures
            r.deep_view() == Seq::<(Seq<char>, V::V)>::empty(),
    {
        Table { entries: Vec::new() }
    }

    /// How many entries the table holds.
    pub fn len(&self) -> (r: usize)
        ensures
            r == self.deep_view().len(),
    {
        self.entries.len()
    }

    /// Where the entry under `key` stands.
    pub fn position(&self, key: &String) -> (r: Option<usize>)
        ensures
            match r {
                Some(i) => i < self.deep_view().len() && i == key_index(self.deep_view(), key@),
                None => key_index(self.deep_view(), key@) == self.deep_view().len(),
            },
    {
        let mut i: usize = 0;
        while i < self.entries.len()
            invariant
                i <= self.entries.len(),
                forall|j: int| 0 <= j < i ==> self.deep_view()[j].0 != key@,
            decreases self.entries.len() - i,
        {
            if self.entries[i].0 == *key {
                proof {
                    lemma_key_index_is(self.deep_view(), key@, i as int);
                }
                return Some(i);
            }
            i = i + 1;
        }
        proof {
            lemma_key_index_is(self.deep_view(), key@, self.deep_view().len() as int);
        }
        None
    }
}

} // verus!
