//! A small keyed table: at most one value per key, kept in insertion order.
//!
//! The table stands in for a hash map wherever the key is not an integer. Its
//! model is a `Map` from key identities to values, together with the sequence
//! of identities in the order in which they were first inserted.

use vstd::prelude::*;

verus! {

/// A key whose identity is a mathematical value and can be tested at run time.
pub trait TableKey {
    type Id;

    /// The identity of the key: two keys are the same entry of a table
    /// exactly when their identities are equal.
    spec fn id(&self) -> Self::Id;

    fn same(&self, other: &Self) -> (r: bool)
        ensures
            r == (self.id() == other.id()),
    ;
}

/// A key that is a text.
pub struct TextKey(pub String);

impl TableKey for TextKey {
    type Id = Seq<char>;

    open spec fn id(&self) -> Seq<char> {
        self.0@
    }

    fn same(&self, other: &Self) -> (r: bool) {
        self.0 == other.0
    }
}

/// A key that is a byte string.
pub struct BytesKey(pub Vec<u8>);

impl TableKey for BytesKey {
    type Id = Seq<u8>;

    open spec fn id(&self) -> Seq<u8> {
        self.0@
    }

    fn same(&self, other: &Self) -> (r: bool) {
        crate::text::bytes_eq(self.0.as_slice(), other.0.as_slice())
    }
}

pub struct Entry<K, V> {
    pub key: K,
    pub value: V,
}

pub struct Table<K: TableKey, V> {
    entries: Vec<Entry<K, V>>,
}

impl<K: TableKey, V> View for Table<K, V> {
    type V = Map<K::Id, V>;

    closed spec fn view(&self) -> Map<K::Id, V> {
        Map::new(
            |id: K::Id| self.ids().contains(id),
            |id: K::Id| self.entries@[self.ids().index_of(id)].value,
        )
    }
}

impl<K: TableKey, V> Table<K, V> {
    /// Key identities in insertion order.
    pub closed spec fn ids(&self) -> Seq<K::Id> {
        self.entries@.map_values(|e: Entry<K, V>| e.key.id())
    }

    /// No identity occurs twice.
    pub closed spec fn wf(&self) -> bool {
        self.ids().no_duplicates()
    }

    /// The model's domain is exactly what `ids` lists, and `ids` lists nothing twice.
    pub proof fn lemma_ids(&self)
        requires
            self.wf(),
        ensures
            self.ids().no_duplicates(),
            self@.dom() =~= self.ids().to_set(),
            self@.dom().finite(),
            self@.dom().len() == self.ids().len(),
            forall|i: int| 0 <= i < self.ids().len() ==> self@.dom().contains(#[trigger] self.ids()[i]),
    {
        self.ids().unique_seq_to_set();
        vstd::seq_lib::seq_to_set_is_finite(self.ids());
        assert(self@.dom() =~= self.ids().to_set());
    }

    proof fn lemma_value_at(&self, i: int)
        requires
            self.wf(),
            0 <= i < self.entries@.len(),
        ensures
            self@.dom().contains(self.ids()[i]),
            self@[self.ids()[i]] == self.entries@[i].value,
    {
        let id = self.ids()[i];
        assert(self.ids().contains(id));
        let j = self.ids().index_of(id);
        assert(self.ids()[j] == id);
    }

    pub fn new() -> (t: Self)
        ensures
            t.wf(),
            t@ == Map::<K::Id, V>::empty(),
            t.ids() == Seq::<K::Id>::empty(),
    {
        let t = Table { entries: Vec::new() };
        assert(t.ids() =~= Seq::<K::Id>::empty());
        assert(t@ =~= Map::<K::Id, V>::empty());
        t
    }

    pub fn len(&self) -> (n: usize)
        requires
            self.wf(),
        ensures
            n == self.ids().len(),
            n == self@.dom().len(),
    {
        proof {
            self.lemma_ids();
        }
        self.entries.len()
    }

    /// Where `key` stands in insertion order, if it is present.
    pub fn position(&self, key: &K) -> (r: Option<usize>)
        requires
            self.wf(),
        ensures
            match r {
                Some(i) => i < self.ids().len() && self.ids()[i as int] == key.id()
                    && self@.dom().contains(key.id()),
                None => !self@.dom().contains(key.id()) && !self.ids().contains(key.id()),
            },
    {
        let mut i: usize = 0;
        while i < self.entries.len()
            invariant
                i <= self.entries.len(),
                forall|j: int| 0 <= j < i ==> self.ids()[j] != key.id(),
            decreases self.entries.len() - i,
        {
            if self.entries[i].key.same(key) {
                assert(self.ids()[i as int] == key.id());
                assert(self.ids().contains(key.id()));
                return Some(i);
            }
            i += 1;
        }
        None
    }

    pub fn contains_key(&self, key: &K) -> (r: bool)
        requires
            self.wf(),
        ensures
            r == self@.dom().contains(key.id()),
    {
        self.position(key).is_some()
    }

    pub fn get(&self, key: &K) -> (r: Option<&V>)
        requires
            self.wf(),
        ensures
            match r {
                Some(v) => self@.dom().contains(key.id()) && *v == self@[key.id()],
                None => !self@.dom().contains(key.id()),
            },
    {
        match self.position(key) {
            Some(i) => {
                proof {
                    self.lemma_value_at(i as int);
                }
                Some(&self.entries[i].value)
            },
            None => None,
        }
    }

    /// The value at a place in insertion order.
    pub fn value_at(&self, i: usize) -> (v: &V)
        requires
            self.wf(),
            i < self.ids().len(),
        ensures
            self@.dom().contains(self.ids()[i as int]),
            *v == self@[self.ids()[i as int]],
    {
        proof {
            self.lemma_value_at(i as int);
        }
        &self.entries[i].value
    }

    /// Binds `value` to `key`. A key that is already present keeps its place
    /// in insertion order; a new key goes to the end.
    pub fn insert(&mut self, key: K, value: V)
        requires
            old(self).wf(),
        ensures
            final(self).wf(),
            final(self)@ == old(self)@.insert(key.id(), value),
            final(self).ids() == if old(self)@.dom().contains(key.id()) {
                old(self).ids()
            } else {
                old(self).ids().push(key.id())
            },
    {
        let ghost before = *self;
        let ghost id = key.id();
        match self.position(&key) {
            Some(i) => {
                self.entries.set(i, Entry { key, value });
                proof {
                    assert(self.ids() =~= before.ids());
                    assert forall|other: K::Id| self.ids().contains(other) && other != id implies self@[other]
                        == before@[other] by {
                        let j = self.ids().index_of(other);
                        assert(j != i);
                    }
                    assert(self.ids().contains(id));
                    assert(self.ids().index_of(id) == i);
                    assert(self@ =~= before@.insert(id, value));
                }
            },
            None => {
                self.entries.push(Entry { key, value });
                proof {
                    let n = before.ids().len() as int;
                    assert(self.ids() =~= before.ids().push(id));
                    assert(self.ids()[n] == id);
                    assert(self.ids().contains(id));
                    assert forall|other: K::Id| before.ids().contains(other) implies self.ids().contains(other)
                        && self@[other] == before@[other] by {
                        let j = before.ids().index_of(other);
                        assert(self.ids()[j] == other);
                        let k = self.ids().index_of(other);
                        assert(k == j);
                    }
                    assert(self.ids().index_of(id) == n);
                    assert(self@ =~= before@.insert(id, value));
                }
            },
        }
    }

    /// Takes out the entry at a place in insertion order.
    pub fn remove_at(&mut self, i: usize) -> (e: Entry<K, V>)
        requires
            old(self).wf(),
            i < old(self).ids().len(),
        ensures
            final(self).wf(),
            e.key.id() == old(self).ids()[i as int],
            e.value == old(self)@[old(self).ids()[i as int]],
            final(self)@ == old(self)@.remove(old(self).ids()[i as int]),
            final(self).ids() == old(self).ids().remove(i as int),
    {
        let ghost before = *self;
        let ghost id = before.ids()[i as int];
        proof {
            before.lemma_value_at(i as int);
        }
        let e = self.entries.remove(i);
        proof {
            assert(self.ids() =~= before.ids().remove(i as int));
            assert forall|other: K::Id| self.ids().contains(other) implies before.ids().contains(other)
                && other != id && self@[other] == before@[other] by {
                let j = self.ids().index_of(other);
                let jj = if j < i { j } else { j + 1 };
                assert(before.ids()[jj] == other);
                assert(before.ids().index_of(other) == jj);
            }
            assert forall|other: K::Id| before.ids().contains(other) && other != id implies self.ids().contains(
                other,
            ) by {
                let j = before.ids().index_of(other);
                let jj = if j < i { j } else { j - 1 };
                assert(self.ids()[jj] == other);
            }
            assert(self@ =~= before@.remove(id));
        }
        e
    }

    /// Takes out the entry of `key`, if there is one.
    pub fn remove(&mut self, key: &K) -> (r: Option<V>)
        requires
            old(self).wf(),
        ensures
            final(self).wf(),
            final(self)@ == old(self)@.remove(key.id()),
            match r {
                Some(v) => {
                    &&& old(self)@.dom().contains(key.id())
                    &&& v == old(self)@[key.id()]
                    &&& final(self).ids() == old(self).ids().remove(old(self).ids().index_of(key.id()))
                },
                None => !old(self)@.dom().contains(key.id()) && final(self).ids() == old(self).ids(),
            },
    {
        match self.position(key) {
            Some(i) => {
                proof {
                    let j = self.ids().index_of(key.id());
                    assert(self.ids().contains(key.id()));
                    assert(self.ids()[j] == self.ids()[i as int]);
                }
                let e = self.remove_at(i);
                Some(e.value)
            },
            None => {
                assert(self@ =~= self@.remove(key.id()));
                None
            },
        }
    }
}

} // verus!
