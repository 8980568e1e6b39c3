//! Tables keyed by text that remember the order of insertion.

use vstd::hash_map::StringHashMap;
use vstd::prelude::*;

use crate::text::texts;

verus! {

/// Values keyed by distinct texts.
pub struct TextTable<V> {
    keys: Vec<String>,
    values: Vec<V>,
    index: StringHashMap<usize>,
}

impl<V> TextTable<V> {
    /// The keys in order of insertion.
    pub closed spec fn key_list(&self) -> Seq<Seq<char>> {
        texts(self.keys@)
    }

    /// The values in order of insertion.
    pub closed spec fn value_list(&self) -> Seq<V> {
        self.values@
    }

    /// Keys are distinct and found where they stand.
    pub closed spec fn well_formed(&self) -> bool {
        &&& self.keys@.len() == self.values@.len()
        &&& self.key_list().no_duplicates()
        &&& forall|i: int|
            0 <= i < self.keys@.len() ==> self.index@.contains_key(#[trigger] self.key_list()[i])
                && self.index@[self.key_list()[i]] == i
        &&& forall|k: Seq<char>| #[trigger]
            self.index@.contains_key(k) ==> self.index@[k] < self.keys@.len()
                && self.key_list()[self.index@[k] as int] == k
    }

    /// The table has a value for the key.
    pub open spec fn has(&self, key: Seq<char>) -> bool {
        self.key_list().contains(key)
    }

    /// The value of the key.
    pub open spec fn value(&self, key: Seq<char>) -> V {
        self.value_list()[self.key_list().index_of(key)]
    }

    /// What the table holds for the key.
    pub open spec fn at(&self, key: Seq<char>) -> Option<V> {
        if self.has(key) {
            Some(self.value(key))
        } else {
            None
        }
    }

    /// The key at a place leads to the value at that place.
    pub proof fn lemma_key_found(&self, i: int)
        requires
            self.well_formed(),
            0 <= i < self.key_list().len(),
        ensures
            self.key_list().index_of(self.key_list()[i]) == i,
            self.value_list().len() == self.key_list().len(),
            self.at(self.key_list()[i]) == Some(self.value_list()[i]),
    {
        let j = self.key_list().index_of(self.key_list()[i]);
        assert(self.key_list()[j] == self.key_list()[i]);
    }

    /// Keys are distinct.
    pub proof fn lemma_keys_distinct(&self)
        requires
            self.well_formed(),
        ensures
            self.key_list().no_duplicates(),
            self.key_list().len() == self.value_list().len(),
    {
    }

    /// A table without entries.
    pub fn new() -> (r: TextTable<V>)
        ensures
            r.well_formed(),
            r.key_list() == Seq::<Seq<char>>::empty(),
            r.value_list() == Seq::<V>::empty(),
    {
        let r = TextTable { keys: Vec::new(), values: Vec::new(), index: StringHashMap::new() };
        assert(r.key_list() =~= Seq::<Seq<char>>::empty());
        r
    }

    pub fn len(&self) -> (n: usize)
        requires
            self.well_formed(),
        ensures
            n == self.key_list().len(),
            n == self.value_list().len(),
    {
        self.keys.len()
    }

    /// The value of the key.
    pub fn get(&self, key: &str) -> (r: Option<&V>)
        requires
            self.well_formed(),
        ensures
            match r {
                Some(v) => self.at(key@) == Some(*v),
                None => self.at(key@) is None,
            },
    {
        match self.index.get(key) {
            Some(i) => {
                assert(self.key_list()[*i as int] == key@);
                assert(self.key_list().index_of(key@) == *i);
                Some(&self.values[*i])
            },
            None => {
                proof {
                    if self.key_list().contains(key@) {
                        let j = self.key_list().index_of(key@);
                        assert(self.index@.contains_key(self.key_list()[j]));
                    }
                }
                None
            },
        }
    }

    /// Whether the table has a value for the key.
    pub fn contains(&self, key: &str) -> (r: bool)
        requires
            self.well_formed(),
        ensures
            r == self.has(key@),
    {
        self.get(key).is_some()
    }

    /// The key at a place.
    pub fn key_at(&self, i: usize) -> (r: &String)
        requires
            self.well_formed(),
            i < self.key_list().len(),
        ensures
            r@ == self.key_list()[i as int],
    {
        &self.keys[i]
    }

    /// The value at a place.
    pub fn value_at(&self, i: usize) -> (r: &V)
        requires
            self.well_formed(),
            i < self.key_list().len(),
        ensures
            *r == self.value_list()[i as int],
    {
        &self.values[i]
    }

    /// Adds a value for a key that has none; otherwise changes nothing.
    pub fn insert(&mut self, key: String, value: V) -> (added: bool)
        requires
            old(self).well_formed(),
        ensures
            final(self).well_formed(),
            added == !old(self).has(key@),
            added ==> final(self).key_list() == old(self).key_list().push(key@)
                && final(self).value_list() == old(self).value_list().push(value),
            !added ==> final(self).key_list() == old(self).key_list()
                && final(self).value_list() == old(self).value_list(),
            forall|k: Seq<char>| #[trigger]
                final(self).at(k) == if added && k == key@ {
                    Some(value)
                } else {
                    old(self).at(k)
                },
    {
        if self.contains(&key) {
            return false;
        }
        let i: usize = self.keys.len();
        let ghost before = *self;
        self.index.insert(key.clone(), i);
        self.keys.push(key);
        self.values.push(value);
        proof {
            let ks = before.key_list();
            assert(self.key_list() =~= ks.push(key@));
            assert forall|k: Seq<char>| #[trigger] self.at(k) == if k == key@ {
                Some(value)
            } else {
                before.at(k)
            } by {
                lemma_push_index(ks, key@, k);
            }
            assert forall|j: int| 0 <= j < self.keys@.len() implies self.index@.contains_key(
                #[trigger] self.key_list()[j],
            ) && self.index@[self.key_list()[j]] == j by {
                if j < ks.len() {
                    assert(self.key_list()[j] == ks[j]);
                    assert(ks.contains(ks[j]));
                }
            }
        }
        true
    }

    /// Replaces the value of a key that has one.
    pub fn replace(&mut self, key: &str, value: V)
        requires
            old(self).well_formed(),
            old(self).has(key@),
        ensures
            final(self).well_formed(),
            final(self).key_list() == old(self).key_list(),
            final(self).value_list() == old(self).value_list().update(
                old(self).key_list().index_of(key@),
                value,
            ),
            forall|k: Seq<char>| #[trigger]
                final(self).at(k) == if k == key@ {
                    Some(value)
                } else {
                    old(self).at(k)
                },
    {
        let ghost before = *self;
        if let Some(i) = self.index.get(key) {
            let at: usize = *i;
            assert(self.key_list()[at as int] == key@);
            assert(self.key_list().index_of(key@) == at);
            self.values.set(at, value);
            proof {
                assert forall|k: Seq<char>| #[trigger] self.at(k) == if k == key@ {
                    Some(value)
                } else {
                    before.at(k)
                } by {
                    if before.has(k) {
                        let j = before.key_list().index_of(k);
                        assert(before.key_list()[j] == k);
                        if k != key@ {
                            assert(j != at);
                        }
                    }
                }
            }
        } else {
            proof {
                let j = self.key_list().index_of(key@);
                assert(self.index@.contains_key(self.key_list()[j]));
            }
        }
    }
}

proof fn lemma_push_index(ks: Seq<Seq<char>>, key: Seq<char>, k: Seq<char>)
    requires
        ks.no_duplicates(),
        !ks.contains(key),
    ensures
        ks.push(key).contains(k) == (ks.contains(k) || k == key),
        ks.contains(k) ==> ks.push(key).index_of(k) == ks.index_of(k),
        k == key ==> ks.push(key).index_of(k) == ks.len(),
{
    let after = ks.push(key);
    if ks.contains(k) {
        let i = ks.index_of(k);
        assert(ks[i] == k);
        assert(after[i] == k);
        let j = after.index_of(k);
        assert(after[j] == k);
        if j < ks.len() {
            assert(ks[j] == k);
        }
    }
    if k == key {
        assert(after[ks.len() as int] == k);
        let j = after.index_of(k);
        assert(after[j] == k);
        if j < ks.len() {
            assert(ks[j] == key);
        }
    }
}

} // verus!
