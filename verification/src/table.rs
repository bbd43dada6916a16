//! A small table keyed by text that keeps its entries in the order they came in.

use crate::text::same_text;
use vstd::prelude::*;

verus! {

/// What a table holds: its keys and values, oldest entry first.
pub type Rows<V> = Seq<(Seq<char>, V)>;

/// The place of a key in the rows, or their number where no row has it.
pub open spec fn position<V>(rows: Rows<V>, key: Seq<char>) -> int
    decreases rows.len(),
{
    if rows.len() == 0 {
        0
    } else if rows.first().0 == key {
        0
    } else {
        1 + position(rows.drop_first(), key)
    }
}

/// Whether some row has the key.
pub open spec fn has_key<V>(rows: Rows<V>, key: Seq<char>) -> bool {
    position(rows, key) < rows.len()
}

/// The value under a key.
pub open spec fn lookup<V>(rows: Rows<V>, key: Seq<char>) -> Option<V> {
    if has_key(rows, key) {
        Some(rows[position(rows, key)].1)
    } else {
        None
    }
}

/// The rows after a value was stored under a key: in the place of the value it
/// replaces, or at the end.
pub open spec fn stored<V>(rows: Rows<V>, key: Seq<char>, value: V) -> Rows<V> {
    if has_key(rows, key) {
        rows.update(position(rows, key), (key, value))
    } else {
        rows.push((key, value))
    }
}

/// The rows without the one under a key.
pub open spec fn removed<V>(rows: Rows<V>, key: Seq<char>) -> Rows<V> {
    if has_key(rows, key) {
        rows.remove(position(rows, key))
    } else {
        rows
    }
}

/// No key occurs twice.
pub open spec fn unique_keys<V>(rows: Rows<V>) -> bool {
    forall|i: int, j: int| 0 <= i < j < rows.len() ==> rows[i].0 != rows[j].0
}

/// The position of a key is the first row that has it.
pub proof fn lemma_position<V>(rows: Rows<V>, key: Seq<char>)
    ensures
        0 <= position(rows, key) <= rows.len(),
        position(rows, key) < rows.len() ==> rows[position(rows, key)].0 == key,
        forall|i: int| 0 <= i < position(rows, key) ==> rows[i].0 != key,
    decreases rows.len(),
{
    if rows.len() > 0 && rows.first().0 != key {
        let rest = rows.drop_first();
        lemma_position(rest, key);
        let p = position(rows, key);
        assert(p == 1 + position(rest, key));
        if p < rows.len() {
            assert(rows[p] == rest[p - 1]);
        }
        assert forall|i: int| 0 <= i < p implies rows[i].0 != key by {
            if i > 0 {
                assert(rows[i] == rest[i - 1]);
            }
        }
    }
}

/// A row that has the key, behind rows that do not, is at its position.
pub proof fn lemma_position_is<V>(rows: Rows<V>, key: Seq<char>, at: int)
    requires
        0 <= at <= rows.len(),
        at < rows.len() ==> rows[at].0 == key,
        forall|i: int| 0 <= i < at ==> rows[i].0 != key,
    ensures
        position(rows, key) == at,
{
    lemma_position(rows, key);
    let p = position(rows, key);
    if p < at {
        assert(rows[p].0 == key);
    } else if at < p {
        assert(rows[at].0 != key);
    }
}

/// Storing and removing keep the keys unique.
pub proof fn lemma_unique_keys_kept<V>(rows: Rows<V>, key: Seq<char>, value: V)
    requires
        unique_keys(rows),
    ensures
        unique_keys(stored(rows, key, value)),
        unique_keys(removed(rows, key)),
{
    lemma_position(rows, key);
}

/// What was stored under a key is found under it, and every other key finds what it
/// found before.
pub proof fn law_lookup_after_store<V>(rows: Rows<V>, key: Seq<char>, value: V, other: Seq<char>)
    ensures
        lookup(stored(rows, key, value), key) == Some(value),
        other != key ==> lookup(stored(rows, key, value), other) == lookup(rows, other),
{
    let after = stored(rows, key, value);
    lemma_position(rows, key);
    lemma_position(rows, other);
    let p = position(rows, key);
    assert(after[p] == (key, value));
    lemma_position_is(after, key, p);
    if other != key {
        let q = position(rows, other);
        if q < rows.len() {
            lemma_position_is(after, other, q);
        } else {
            lemma_position_is(after, other, after.len() as int);
        }
    }
}

/// In a table without repeated keys, a removed key is gone, and every other key finds
/// what it found before.
pub proof fn law_lookup_after_remove<V>(rows: Rows<V>, key: Seq<char>, other: Seq<char>)
    requires
        unique_keys(rows),
    ensures
        lookup(removed(rows, key), key) is None,
        other != key ==> lookup(removed(rows, key), other) == lookup(rows, other),
{
    let after = removed(rows, key);
    lemma_position(rows, key);
    lemma_position(rows, other);
    let p = position(rows, key);
    lemma_position_is(after, key, after.len() as int);
    if other != key && p < rows.len() {
        let q = position(rows, other);
        if q == rows.len() {
            lemma_position_is(after, other, after.len() as int);
        } else if q < p {
            lemma_position_is(after, other, q);
        } else {
            assert(after[q - 1] == rows[q]);
            lemma_position_is(after, other, q - 1);
        }
    }
}

/// A value that can be copied without changing what it stands for.
pub trait Duplicate: View + Sized {
    fn duplicate(&self) -> (copy: Self)
        ensures
            copy@ == self@,
    ;
}

/// A table keyed by text, without repeated keys.
#[derive(Debug)]
pub struct Table<V> {
    keys: Vec<String>,
    values: Vec<V>,
}

impl<V> Table<V> {
    /// Every key has a value, and no key occurs twice.
    #[verifier::type_invariant]
    spec fn is_consistent(self) -> bool {
        &&& self.keys@.len() == self.values@.len()
        &&& forall|i: int, j: int|
            0 <= i < j < self.keys@.len() ==> (#[trigger] self.keys@[i])@ != (
            #[trigger] self.keys@[j])@
    }
}

impl<V: View> View for Table<V> {
    type V = Rows<V::V>;

    closed spec fn view(&self) -> Rows<V::V> {
        Seq::new(self.keys@.len(), |i: int| (self.keys@[i]@, self.values@[i]@))
    }
}

impl<V: View> Table<V> {
    pub fn new() -> (table: Self)
        ensures
            table@ == Rows::<V::V>::empty(),
    {
        let table = Table { keys: Vec::new(), values: Vec::new() };
        assert(table@ =~= Rows::<V::V>::empty());
        table
    }

    pub fn len(&self) -> (n: usize)
        ensures
            n == self@.len(),
            unique_keys(self@),
    {
        proof {
            use_type_invariant(self);
        }
        self.keys.len()
    }

    pub fn is_empty(&self) -> (empty: bool)
        ensures
            empty == (self@.len() == 0),
    {
        self.keys.len() == 0
    }

    /// The key and the value in a place.
    pub fn row(&self, i: usize) -> (row: (&str, &V))
        requires
            i < self@.len(),
        ensures
            (row.0@, row.1@) == self@[i as int],
    {
        proof {
            use_type_invariant(self);
        }
        (self.keys[i].as_str(), &self.values[i])
    }

    fn find(&self, key: &str) -> (at: usize)
        ensures
            at == position(self@, key@),
            at <= self@.len(),
    {
        let mut i: usize = 0;
        while i < self.keys.len()
            invariant
                i <= self.keys@.len(),
                self@.len() == self.keys@.len(),
                forall|k: int| 0 <= k < i ==> (#[trigger] self@[k]).0 != key@,
            decreases self.keys@.len() - i,
        {
            if same_text(self.keys[i].as_str(), key) {
                assert(self@[i as int].0 == key@);
                proof {
                    lemma_position_is(self@, key@, i as int);
                }
                return i;
            }
            assert(self@[i as int].0 != key@);
            i = i + 1;
        }
        proof {
            lemma_position_is(self@, key@, i as int);
        }
        i
    }

    pub fn contains_key(&self, key: &str) -> (found: bool)
        ensures
            found == has_key(self@, key@),
    {
        self.find(key) < self.keys.len()
    }

    pub fn get(&self, key: &str) -> (value: Option<&V>)
        ensures
            value is Some <==> has_key(self@, key@),
            value is Some ==> lookup(self@, key@) == Some(value->0@),
    {
        let at: usize = self.find(key);
        if at < self.keys.len() {
            proof {
                use_type_invariant(self);
            }
            let value = &self.values[at];
            assert(self@[at as int].1 == value@);
            Some(value)
        } else {
            None
        }
    }

    /// Stores a value under a key.
    pub fn insert(&mut self, key: String, value: V)
        ensures
            final(self)@ == stored(old(self)@, key@, value@),
            unique_keys(final(self)@),
    {
        let ghost rows = self@;
        let ghost k = key@;
        let ghost v = value@;
        let at: usize = self.find(key.as_str());
        proof {
            use_type_invariant(&*self);
            lemma_position(rows, k);
            assert(unique_keys(rows));
            lemma_unique_keys_kept(rows, k, v);
        }
        let mut table = Table { keys: Vec::new(), values: Vec::new() };
        std::mem::swap(self, &mut table);
        let Table { mut keys, mut values } = table;
        if at < keys.len() {
            keys.set(at, key);
            values.set(at, value);
        } else {
            keys.push(key);
            values.push(value);
        }
        proof {
            let after = stored(rows, k, v);
            assert(after.len() == keys@.len());
            assert forall|i: int| 0 <= i < keys@.len() implies (#[trigger] keys@[i])@
                == after[i].0 by {}
        }
        *self = Table { keys, values };
        assert(self@ =~= stored(rows, k, v));
    }

    /// Takes out the value under a key.
    pub fn remove(&mut self, key: &str) -> (value: Option<V>)
        ensures
            value is Some <==> has_key(old(self)@, key@),
            value is Some ==> lookup(old(self)@, key@) == Some(value->0@),
            final(self)@ == removed(old(self)@, key@),
            unique_keys(final(self)@),
    {
        let ghost rows = self@;
        let at: usize = self.find(key);
        proof {
            use_type_invariant(&*self);
        }
        if at < self.keys.len() {
            assert(rows[at as int].1 == self.values@[at as int]@);
            let mut table = Table { keys: Vec::new(), values: Vec::new() };
            std::mem::swap(self, &mut table);
            let Table { mut keys, mut values } = table;
            keys.remove(at);
            let value: V = values.remove(at);
            *self = Table { keys, values };
            assert(self@ =~= removed(rows, key@));
            Some(value)
        } else {
            None
        }
    }

    pub fn clear(&mut self)
        ensures
            final(self)@ == Rows::<V::V>::empty(),
    {
        *self = Table { keys: Vec::new(), values: Vec::new() };
        assert(self@ =~= Rows::<V::V>::empty());
    }

    /// Access to the value under a key, for changing it in place.
    pub fn get_mut(&mut self, key: &str) -> (value: Option<&mut V>)
        ensures
            value is Some <==> has_key(old(self)@, key@),
            match value {
                Some(v) => lookup(old(self)@, key@) == Some(v@) && final(self)@ == stored(
                    old(self)@,
                    key@,
                    final(v)@,
                ),
                None => final(self)@ == old(self)@,
            },
    {
        let ghost rows = self@;
        let at: usize = self.find(key);
        proof {
            use_type_invariant(&*self);
        }
        if at < self.keys.len() {
            assert(rows[at as int] == (self.keys@[at as int]@, self.values@[at as int]@));
            let value = &mut self.values[at];
            assert(after_borrow(*self)@ =~= stored(rows, key@, final(value)@)) by {
                lemma_position(rows, key@);
            }
            Some(value)
        } else {
            None
        }
    }
}

impl<V: Duplicate> Duplicate for Table<V> {
    fn duplicate(&self) -> (copy: Self) {
        proof {
            use_type_invariant(self);
        }
        let mut keys: Vec<String> = Vec::new();
        let mut values: Vec<V> = Vec::new();
        let mut i: usize = 0;
        while i < self.keys.len()
            invariant
                i <= self.keys@.len(),
                self.keys@.len() == self.values@.len(),
                keys@.len() == i,
                values@.len() == i,
                forall|k: int| 0 <= k < i ==> (#[trigger] keys@[k])@ == self.keys@[k]@,
                forall|k: int| 0 <= k < i ==> (#[trigger] values@[k])@ == self.values@[k]@,
            decreases self.keys@.len() - i,
        {
            keys.push(self.keys[i].clone());
            values.push(self.values[i].duplicate());
            i = i + 1;
        }
        let copy = Table { keys, values };
        assert(copy@ =~= self@);
        copy
    }
}

impl<V: Duplicate> Clone for Table<V> {
    fn clone(&self) -> (copy: Self)
        ensures
            copy@ == self@,
    {
        self.duplicate()
    }
}

} // verus!
