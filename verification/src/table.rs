//! A keyed store: rows of key and value in which no key occurs twice.

use crate::primitives::{AccountId, CurrencyId};
use vstd::prelude::*;

verus! {

/// A key that can be told apart from another in executable code.
pub trait Key: Copy {
    /// Whether the two keys are the same.
    fn same(&self, other: &Self) -> (b: bool)
        ensures
            b == (*self == *other),
    ;
}

impl Key for CurrencyId {
    fn same(&self, other: &Self) -> (b: bool) {
        *self == *other
    }
}

impl Key for AccountId {
    fn same(&self, other: &Self) -> (b: bool) {
        *self == *other
    }
}

/// Whether some row has the key.
pub open spec fn has_key<K, V>(rows: Seq<(K, V)>, k: K) -> bool {
    exists|i: int| 0 <= i < rows.len() && (#[trigger] rows[i]).0 == k
}

/// The place of a row with the key.
pub open spec fn place_of<K, V>(rows: Seq<(K, V)>, k: K) -> int {
    choose|i: int| 0 <= i < rows.len() && (#[trigger] rows[i]).0 == k
}

/// The value stored under the key, if any.
pub open spec fn lookup<K, V>(rows: Seq<(K, V)>, k: K) -> Option<V> {
    if has_key(rows, k) {
        Some(rows[place_of(rows, k)].1)
    } else {
        None
    }
}

/// No key occurs in two rows.
pub open spec fn keys_unique<K, V>(rows: Seq<(K, V)>) -> bool {
    forall|i: int, j: int|
        0 <= i < rows.len() && 0 <= j < rows.len() && (#[trigger] rows[i]).0 == (#[trigger] rows[j]).0
            ==> i == j
}

/// The rows with the value under the key replaced, or with a new last row
/// where the key was absent.
pub open spec fn upsert<K, V>(rows: Seq<(K, V)>, k: K, v: V) -> Seq<(K, V)> {
    if has_key(rows, k) {
        rows.update(place_of(rows, k), (k, v))
    } else {
        rows.push((k, v))
    }
}

/// In rows with unique keys, a row's value is what is stored under its key.
pub proof fn lemma_lookup_at<K, V>(rows: Seq<(K, V)>, i: int)
    requires
        keys_unique(rows),
        0 <= i < rows.len(),
    ensures
        has_key(rows, rows[i].0),
        place_of(rows, rows[i].0) == i,
        lookup(rows, rows[i].0) == Some(rows[i].1),
{
    let k = rows[i].0;
    assert(has_key(rows, k));
    let j = place_of(rows, k);
    assert(0 <= j < rows.len() && rows[j].0 == k);
}

/// Storing a value changes what is stored under that key and nothing else,
/// and keeps the keys unique.
pub proof fn lemma_upsert<K, V>(rows: Seq<(K, V)>, k: K, v: V)
    requires
        keys_unique(rows),
    ensures
        keys_unique(upsert(rows, k, v)),
        lookup(upsert(rows, k, v), k) == Some(v),
        forall|other: K| other != k ==> lookup(upsert(rows, k, v), other) == lookup(rows, other),
        forall|other: K| has_key(upsert(rows, k, v), other) <==> (other == k || has_key(rows, other)),
{
    let after = upsert(rows, k, v);
    if has_key(rows, k) {
        let p = place_of(rows, k);
        assert(0 <= p < rows.len() && rows[p].0 == k);
        assert forall|i: int| 0 <= i < after.len() implies (#[trigger] after[i]).0 == rows[i].0 by {}
        assert(keys_unique(after)) by {
            assert forall|i: int, j: int|
                0 <= i < after.len() && 0 <= j < after.len() && (#[trigger] after[i]).0 == (
                #[trigger] after[j]).0 implies i == j by {
                assert(rows[i].0 == rows[j].0);
            }
        }
        assert(after[p].0 == k);
        lemma_lookup_at(after, p);
        assert forall|other: K| has_key(after, other) <==> (other == k || has_key(rows, other)) by {
            if has_key(after, other) {
                let i = place_of(after, other);
                assert(rows[i].0 == other);
            }
            if has_key(rows, other) {
                let i = place_of(rows, other);
                assert(after[i].0 == other);
            }
        }
        assert forall|other: K| other != k implies lookup(after, other) == lookup(rows, other) by {
            if has_key(rows, other) {
                let i = place_of(rows, other);
                assert(after[i].0 == other);
                assert(i != p);
                lemma_lookup_at(after, i);
            }
        }
    } else {
        assert forall|i: int| 0 <= i < rows.len() implies (#[trigger] after[i]) == rows[i] by {}
        assert(after[rows.len() as int] == (k, v));
        assert(keys_unique(after)) by {
            assert forall|i: int, j: int|
                0 <= i < after.len() && 0 <= j < after.len() && (#[trigger] after[i]).0 == (
                #[trigger] after[j]).0 implies i == j by {
                if i < rows.len() && j < rows.len() {
                    assert(rows[i].0 == rows[j].0);
                } else if i < rows.len() {
                    assert(rows[i].0 == k);
                } else if j < rows.len() {
                    assert(rows[j].0 == k);
                }
            }
        }
        lemma_lookup_at(after, rows.len() as int);
        assert forall|other: K| has_key(after, other) <==> (other == k || has_key(rows, other)) by {
            if has_key(after, other) {
                let i = place_of(after, other);
                if i < rows.len() {
                    assert(rows[i].0 == other);
                }
            }
            if has_key(rows, other) {
                let i = place_of(rows, other);
                assert(after[i].0 == other);
            }
        }
        assert forall|other: K| other != k implies lookup(after, other) == lookup(rows, other) by {
            if has_key(rows, other) {
                let i = place_of(rows, other);
                assert(after[i].0 == other);
                lemma_lookup_at(after, i);
            }
        }
    }
}

/// Rows that have the keys of rows with unique keys, place by place, hold
/// each key at the same place.
pub proof fn lemma_same_keys<K, V>(rows: Seq<(K, V)>, other: Seq<(K, V)>)
    requires
        keys_unique(rows),
        rows.len() == other.len(),
        forall|i: int| 0 <= i < rows.len() ==> (#[trigger] rows[i]).0 == other[i].0,
    ensures
        keys_unique(other),
        forall|k: K| has_key(other, k) == has_key(rows, k),
        forall|k: K| has_key(rows, k) ==> place_of(other, k) == place_of(rows, k),
{
    assert forall|i: int, j: int|
        0 <= i < other.len() && 0 <= j < other.len() && (#[trigger] other[i]).0 == (#[trigger] other[j]).0 implies i
        == j by {
        assert(rows[i].0 == rows[j].0);
    }
    assert forall|k: K| has_key(other, k) == has_key(rows, k) by {
        if has_key(other, k) {
            let i = place_of(other, k);
            assert(rows[i].0 == k);
        }
        if has_key(rows, k) {
            let i = place_of(rows, k);
            assert(rows[i].0 == other[i].0);
            assert(other[i].0 == k);
        }
    }
    assert forall|k: K| has_key(rows, k) implies place_of(other, k) == place_of(rows, k) by {
        let i = place_of(rows, k);
        assert(rows[i].0 == other[i].0);
        lemma_lookup_at(other, i);
    }
}

/// Rows of key and value with unique keys, in the order in which the keys
/// were first stored.
pub struct Table<K, V> {
    rows: Vec<(K, V)>,
}

impl<K, V> View for Table<K, V> {
    type V = Seq<(K, V)>;

    closed spec fn view(&self) -> Seq<(K, V)> {
        self.rows@
    }
}

impl<K: Key, V: Copy> Table<K, V> {
    /// No key occurs twice.
    pub open spec fn wf(&self) -> bool {
        keys_unique(self@)
    }

    /// The table without rows.
    pub fn new() -> (t: Self)
        ensures
            t@ == Seq::<(K, V)>::empty(),
            t.wf(),
    {
        Table { rows: Vec::new() }
    }

    /// A second table with the same rows.
    pub fn duplicate(&self) -> (t: Self)
        ensures
            t@ == self@,
    {
        let mut rows: Vec<(K, V)> = Vec::new();
        let mut i: usize = 0;
        while i < self.rows.len()
            invariant
                i <= self.rows.len(),
                rows@ == self.rows@.take(i as int),
            decreases self.rows.len() - i,
        {
            rows.push(self.rows[i]);
            assert(self.rows@.take(i as int).push(self.rows@[i as int]) =~= self.rows@.take(i as int + 1));
            i += 1;
        }
        assert(self.rows@.take(self.rows@.len() as int) =~= self.rows@);
        Table { rows }
    }

    /// The number of rows.
    pub fn len(&self) -> (n: usize)
        ensures
            n == self@.len(),
    {
        self.rows.len()
    }

    /// The row at place `i`.
    pub fn row(&self, i: usize) -> (r: (K, V))
        requires
            i < self@.len(),
        ensures
            r == self@[i as int],
    {
        self.rows[i]
    }

    /// The place of the row with the key, if any.
    pub fn find(&self, k: K) -> (r: Option<usize>)
        requires
            self.wf(),
        ensures
            r is Some <==> has_key(self@, k),
            r is Some ==> r.unwrap() == place_of(self@, k) && r.unwrap() < self@.len() && self@[r.unwrap() as int].0 == k,
    {
        let mut i: usize = 0;
        while i < self.rows.len()
            invariant
                self.wf(),
                i <= self.rows.len(),
                forall|j: int| 0 <= j < i ==> (#[trigger] self.rows@[j]).0 != k,
            decreases self.rows.len() - i,
        {
            if self.rows[i].0.same(&k) {
                proof {
                    lemma_lookup_at(self@, i as int);
                }
                return Some(i);
            }
            i += 1;
        }
        None
    }

    /// The value stored under the key, if any.
    pub fn get(&self, k: K) -> (r: Option<V>)
        requires
            self.wf(),
        ensures
            r == lookup(self@, k),
    {
        match self.find(k) {
            Some(i) => Some(self.rows[i].1),
            None => None,
        }
    }

    /// Stores the value under the key.
    pub fn insert(&mut self, k: K, v: V)
        requires
            old(self).wf(),
        ensures
            final(self)@ == upsert(old(self)@, k, v),
            final(self).wf(),
    {
        proof {
            lemma_upsert(self@, k, v);
        }
        match self.find(k) {
            Some(i) => {
                self.rows.set(i, (k, v));
            },
            None => {
                self.rows.push((k, v));
            },
        }
    }

    /// Replaces the value of the row at place `i`.
    pub fn set_value(&mut self, i: usize, v: V)
        requires
            i < old(self)@.len(),
        ensures
            final(self)@ == old(self)@.update(i as int, (old(self)@[i as int].0, v)),
            old(self).wf() ==> final(self).wf(),
    {
        let k = self.rows[i].0;
        self.rows.set(i, (k, v));
        proof {
            if old(self).wf() {
                assert forall|a: int, b: int|
                    0 <= a < self@.len() && 0 <= b < self@.len() && (#[trigger] self@[a]).0 == (
                    #[trigger] self@[b]).0 implies a == b by {
                    assert(old(self)@[a].0 == old(self)@[b].0);
                }
            }
        }
    }
}

} // verus!
