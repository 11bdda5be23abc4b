//! A finite map from strings to values, kept as a list of entries.
//!
//! Documents and sections are small, so a lookup walks the list. No name
//! occurs twice in it, and the order of the entries means nothing: the view
//! of a table is a map.

use vstd::prelude::*;

verus! {

/// A map from strings to values of type `V`.
///
/// The entry at `i` is made of the name at `i` in the first vector and the
/// value at `i` in the second. The two vectors are one field, so that one
/// assignment gives both a new entry.
#[derive(Debug)]
pub struct Table<V> {
    columns: (Vec<String>, Vec<V>),
}

impl<V> View for Table<V> {
    type V = Map<Seq<char>, V>;

    closed spec fn view(&self) -> Map<Seq<char>, V> {
        Map::new(
            |name: Seq<char>| self.names().contains(name),
            |name: Seq<char>| self.columns.1[self.names().index_of(name)],
        )
    }
}

impl<V> Table<V> {
    /// Every name has a value, and no name occurs twice.
    #[verifier::type_invariant]
    spec fn distinct(&self) -> bool {
        &&& self.columns.0.len() == self.columns.1.len()
        &&& forall|i: int, j: int|
            0 <= i < j < self.columns.0.len() ==> self.columns.0[i]@ != self.columns.0[j]@
    }

    /// The names in the table, in the order of its entries.
    pub closed spec fn names(&self) -> Seq<Seq<char>> {
        Seq::new(self.columns.0.len() as nat, |i: int| self.columns.0[i]@)
    }

    /// The values in the table, in the order of its entries.
    pub closed spec fn values(&self) -> Seq<V> {
        self.columns.1@
    }

    /// How the list of entries and the map agree: each entry is in the
    /// map, each name of the map has an entry, and no name has two.
    pub closed spec fn listed(&self) -> bool {
        &&& self.names().len() == self.values().len()
        &&& self.names().no_duplicates()
        &&& self@.dom() == self.names().to_set()
        &&& self@.dom().finite()
        &&& self@.dom().len() == self.names().len()
        &&& forall|i: int|
            0 <= i < self.names().len() ==> self@.contains_key(#[trigger] self.names()[i])
                && self@[self.names()[i]] == self.values()[i]
    }

    /// A table with distinct names is listed.
    proof fn lemma_listed(&self)
        requires
            self.distinct(),
        ensures
            self.listed(),
    {
        self.names().unique_seq_to_set();
    }

    /// Unfolds [`Table::listed`].
    pub proof fn lemma_entries(&self)
        requires
            self.listed(),
        ensures
            self.names().len() == self.values().len(),
            self.names().no_duplicates(),
            self@.dom().finite(),
            self@.dom().len() == self.names().len(),
            forall|i: int|
                0 <= i < self.names().len() ==> self@.contains_key(#[trigger] self.names()[i])
                    && self@[self.names()[i]] == self.values()[i],
            forall|name: Seq<char>|
                self@.contains_key(name) ==> exists|i: int|
                    0 <= i < self.names().len() && #[trigger] self.names()[i] == name,
    {
    }

    /// An empty table.
    pub fn new() -> (table: Self)
        ensures
            table@ == Map::<Seq<char>, V>::empty(),
    {
        Table { columns: (Vec::new(), Vec::new()) }
    }

    /// The number of entries.
    pub fn len(&self) -> (n: usize)
        ensures
            self.listed(),
            n == self.names().len(),
    {
        proof {
            use_type_invariant(self);
            self.lemma_listed();
        }
        self.columns.0.len()
    }

    /// The name of the entry at `i`.
    pub fn name_at(&self, i: usize) -> (name: &String)
        requires
            i < self.names().len(),
        ensures
            name@ == self.names()[i as int],
    {
        proof {
            use_type_invariant(self);
        }
        &self.columns.0[i]
    }

    /// The value of the entry at `i`.
    pub fn value_at(&self, i: usize) -> (value: &V)
        requires
            i < self.names().len(),
        ensures
            *value == self.values()[i as int],
    {
        proof {
            use_type_invariant(self);
        }
        &self.columns.1[i]
    }

    /// The place of the entry named `name`, if there is one.
    fn find(&self, name: &str) -> (found: Option<usize>)
        ensures
            match found {
                Some(i) => i < self.columns.0.len() && self.columns.0[i as int]@ == name@,
                None => forall|j: int|
                    0 <= j < self.columns.0.len() ==> self.columns.0[j]@ != name@,
            },
    {
        let mut i: usize = 0;
        while i < self.columns.0.len()
            invariant
                i <= self.columns.0.len(),
                forall|j: int| 0 <= j < i ==> self.columns.0[j]@ != name@,
            decreases self.columns.0.len() - i,
        {
            if self.columns.0[i].as_str().eq(name) {
                return Some(i);
            }
            i += 1;
        }
        None
    }

    /// Whether the table has an entry named `name`.
    pub fn contains(&self, name: &str) -> (found: bool)
        ensures
            found == self@.contains_key(name@),
    {
        let found = self.find(name);
        proof {
            use_type_invariant(self);
            if let Some(i) = found {
                assert(self.names()[i as int] == name@);
            }
        }
        found.is_some()
    }

    /// The value under `name`, if there is one.
    pub fn get(&self, name: &str) -> (value: Option<&V>)
        ensures
            match value {
                Some(v) => self@.contains_key(name@) && *v == self@[name@],
                None => !self@.contains_key(name@),
            },
    {
        let found = self.find(name);
        proof {
            use_type_invariant(self);
            if let Some(i) = found {
                assert(self.names()[i as int] == name@);
            }
        }
        match found {
            Some(i) => Some(&self.columns.1[i]),
            None => None,
        }
    }

    /// The value under `name`, to be changed in place.
    pub fn get_mut(&mut self, name: &str) -> (value: &mut V)
        requires
            old(self)@.contains_key(name@),
        ensures
            *value == old(self)@[name@],
            final(self)@ == old(self)@.insert(name@, *final(value)),
    {
        let found = self.find(name);
        proof {
            use_type_invariant(&*self);
        }
        let i = found.unwrap();
        &mut self.columns.1[i]
    }

    /// Puts `value` under `name`, in place of the value that was there if
    /// there was one.
    pub fn insert(&mut self, name: String, value: V)
        ensures
            final(self)@ == old(self)@.insert(name@, value),
    {
        let found = self.find(name.as_str());
        proof {
            use_type_invariant(&*self);
        }
        match found {
            Some(i) => {
                self.columns.1[i] = value;
            },
            None => {
                let mut columns: (Vec<String>, Vec<V>) = (Vec::new(), Vec::new());
                core::mem::swap(&mut columns, &mut self.columns);
                columns.0.push(name);
                columns.1.push(value);
                self.columns = columns;
            },
        }
        proof {
            use_type_invariant(&*self);
            let before = old(self);
            let expected = before@.insert(name@, value);
            assert forall|k: Seq<char>| #[trigger]
                self@.contains_key(k) == expected.contains_key(k) && (self@.contains_key(k)
                    ==> self@[k] == expected[k]) by {
                if before@.contains_key(k) {
                    let j = before.names().index_of(k);
                    assert(self.names()[j] == k);
                }
                if k == name@ {
                    let j = if found is Some {
                        found->0 as int
                    } else {
                        before.names().len() as int
                    };
                    assert(self.names()[j] == k);
                }
                if self@.contains_key(k) {
                    let j = self.names().index_of(k);
                    if k != name@ {
                        assert(before.names()[j] == k);
                    }
                }
            }
        }
    }

    /// Whether the two tables have the same names.
    pub fn same_names(&self, other: &Table<V>) -> (same: bool)
        ensures
            same == (self@.dom() == other@.dom()),
    {
        proof {
            use_type_invariant(self);
            use_type_invariant(other);
            self.lemma_listed();
            other.lemma_listed();
        }
        if self.columns.0.len() != other.columns.0.len() {
            return false;
        }
        let mut i: usize = 0;
        while i < self.columns.0.len()
            invariant
                i <= self.columns.0.len(),
                self.listed(),
                other.listed(),
                forall|j: int| 0 <= j < i ==> other@.contains_key(self.names()[j]),
            decreases self.columns.0.len() - i,
        {
            if !other.contains(self.columns.0[i].as_str()) {
                assert(self@.contains_key(self.names()[i as int]));
                return false;
            }
            i += 1;
        }
        proof {
            vstd::set_lib::lemma_subset_equality(self@.dom(), other@.dom());
        }
        true
    }
}

} // verus!
