//! A string-keyed table that remembers the order in which its keys arrived.
//!
//! Keys and values live in two vectors, in arrival order; a hash index maps
//! each key to its position. Lookups cost one hash probe, listings walk the
//! vectors.

use vstd::prelude::*;
use vstd::hash_map::StringHashMap;

verus! {

/// An insertion-ordered map from strings to `V`.
pub struct Table<V> {
    names: Vec<String>,
    values: Vec<V>,
    index: StringHashMap<usize>,
}

impl<V> Table<V> {
    /// The index and the vectors describe each other: every indexed key points
    /// at the position that carries it, and every position is indexed under its
    /// own key.
    pub closed spec fn wf(self) -> bool {
        &&& self.names.len() == self.values.len()
        &&& forall|k: Seq<char>|
            self.index@.contains_key(k) ==> (#[trigger] self.index@[k]) < self.names.len()
                && self.names[self.index@[k] as int]@ == k
        &&& forall|i: int|
            0 <= i < self.names.len() ==> self.index@.contains_key(#[trigger] self.names[i]@)
                && self.index@[self.names[i]@] == i
    }

    /// The table as a map from key to value.
    pub closed spec fn view(self) -> Map<Seq<char>, V> {
        Map::new(
            |k: Seq<char>| self.index@.contains_key(k),
            |k: Seq<char>| self.values[self.index@[k] as int],
        )
    }

    /// The keys, oldest first.
    pub closed spec fn keys(self) -> Seq<Seq<char>> {
        Seq::new(self.names.len() as nat, |i: int| self.names[i]@)
    }

    /// Every key is listed exactly once, and nothing else is listed.
    pub proof fn lemma_keys_enumerate_domain(self)
        requires
            self.wf(),
        ensures
            self.keys().no_duplicates(),
            forall|k: Seq<char>| self.keys().contains(k) <==> self@.contains_key(k),
    {
        assert forall|k: Seq<char>| self.keys().contains(k) <==> self@.contains_key(k) by {
            if self@.contains_key(k) {
                assert(self.keys()[self.index@[k] as int] == k);
            }
        }
    }

    /// The table holds as many keys as it lists.
    pub proof fn lemma_domain_size(self)
        requires
            self.wf(),
        ensures
            self@.dom().finite(),
            self@.dom().len() == self.keys().len(),
    {
        self.lemma_keys_enumerate_domain();
        vstd::seq_lib::seq_to_set_is_finite(self.keys());
        self.keys().unique_seq_to_set();
        assert(self@.dom() =~= self.keys().to_set());
    }

    /// An empty table.
    pub fn new() -> (table: Self)
        ensures
            table.wf(),
            table@ == Map::<Seq<char>, V>::empty(),
            table.keys() == Seq::<Seq<char>>::empty(),
    {
        let table = Table { names: Vec::new(), values: Vec::new(), index: StringHashMap::new() };
        assert(table@ =~= Map::<Seq<char>, V>::empty());
        assert(table.keys() =~= Seq::<Seq<char>>::empty());
        table
    }

    /// How many keys the table holds.
    pub fn len(&self) -> (n: usize)
        ensures
            n == self.keys().len(),
    {
        self.names.len()
    }

    /// Whether `key` is present.
    pub fn contains_key(&self, key: &str) -> (present: bool)
        ensures
            present == self@.contains_key(key@),
    {
        self.index.contains_key(key)
    }

    /// The value stored under `key`, if any.
    pub fn get(&self, key: &str) -> (found: Option<&V>)
        requires
            self.wf(),
        ensures
            match found {
                Some(value) => self@.contains_key(key@) && *value == self@[key@],
                None => !self@.contains_key(key@),
            },
    {
        match self.index.get(key) {
            Some(position) => Some(&self.values[*position]),
            None => None,
        }
    }

    /// The key at `position` in arrival order.
    pub fn key_at(&self, position: usize) -> (key: &String)
        requires
            self.wf(),
            position < self.keys().len(),
        ensures
            key@ == self.keys()[position as int],
            self@.contains_key(key@),
    {
        &self.names[position]
    }

    /// The value under the key at `position` in arrival order.
    pub fn value_at(&self, position: usize) -> (value: &V)
        requires
            self.wf(),
            position < self.keys().len(),
        ensures
            self@.contains_key(self.keys()[position as int]),
            *value == self@[self.keys()[position as int]],
    {
        &self.values[position]
    }

    /// Stores `value` under `key`. A new key joins the end of the order; a
    /// known key keeps its place and loses its previous value.
    pub fn insert(&mut self, key: String, value: V)
        requires
            old(self).wf(),
        ensures
            final(self).wf(),
            final(self)@ == old(self)@.insert(key@, value),
            final(self).keys() == if old(self)@.contains_key(key@) {
                old(self).keys()
            } else {
                old(self).keys().push(key@)
            },
    {
        match self.index.get(key.as_str()) {
            Some(position) => {
                let position: usize = *position;
                self.values.set(position, value);
            },
            None => {
                let position: usize = self.names.len();
                self.index.insert(key.clone(), position);
                self.names.push(key);
                self.values.push(value);
            },
        }
        assert(final(self)@ =~= old(self)@.insert(key@, value));
        assert(final(self).keys() =~= if old(self)@.contains_key(key@) {
            old(self).keys()
        } else {
            old(self).keys().push(key@)
        });
    }

    /// Trades `*value` for what is stored under `key`. Returns whether the key
    /// was present; if it was not, nothing changes.
    pub fn exchange(&mut self, key: &str, value: &mut V) -> (present: bool)
        requires
            old(self).wf(),
        ensures
            final(self).wf(),
            present == old(self)@.contains_key(key@),
            final(self).keys() == old(self).keys(),
            present ==> final(self)@ == old(self)@.insert(key@, *old(value)) && *final(value)
                == old(self)@[key@],
            !present ==> final(self)@ == old(self)@ && *final(value) == *old(value),
    {
        match self.index.get(key) {
            Some(position) => {
                let position: usize = *position;
                self.values.set_and_swap(position, value);
                assert(final(self)@ =~= old(self)@.insert(key@, *old(value)));
                true
            },
            None => false,
        }
    }
}

} // verus!
