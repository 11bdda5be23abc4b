//! The document: sections by name, and in each section values by key.

use crate::error::Error;
use crate::model::document;
use crate::parser::Parser;
use crate::table::Table;
use vstd::prelude::*;

verus! {

/// INI section: a map from key names to values.
#[derive(Debug)]
pub struct Section {
    /// Config keys, indexed by name.
    keys: Table<String>,
}

impl View for Section {
    type V = Map<Seq<char>, Seq<char>>;

    closed spec fn view(&self) -> Map<Seq<char>, Seq<char>> {
        self.keys@.map_values(|value: String| value@)
    }
}

impl Section {
    /// Create a new Section, without keys.
    pub fn new() -> (section: Self)
        ensures
            section@ == Map::<Seq<char>, Seq<char>>::empty(),
    {
        Section { keys: Table::new() }
    }

    /// Insert a key.
    ///
    /// If a key exists with the same name, it is overwritten.
    pub fn insert(&mut self, name: String, value: String)
        ensures
            final(self)@ == old(self)@.insert(name@, value@),
            final(self)@[name@] == value@,
    {
        self.keys.insert(name, value);
    }

    /// Returns the value of the key with the specified name, or `None` if
    /// there is no such key.
    pub fn get(&self, name: &str) -> (value: Option<&String>)
        ensures
            match value {
                Some(v) => self@.contains_key(name@) && v@ == self@[name@],
                None => !self@.contains_key(name@),
            },
    {
        self.keys.get(name)
    }
}

impl Default for Section {
    fn default() -> (section: Self)
        ensures
            section@ == Map::<Seq<char>, Seq<char>>::empty(),
    {
        Section::new()
    }
}

impl PartialEq for Section {
    /// Two sections are equal if they hold the same keys with the same
    /// values.
    fn eq(&self, other: &Section) -> (equal: bool) {
        if !self.keys.same_names(&other.keys) {
            assert(self@.dom() =~= self.keys@.dom());
            assert(other@.dom() =~= other.keys@.dom());
            return false;
        }
        let n = self.keys.len();
        let mut i: usize = 0;
        while i < n
            invariant
                i <= n,
                n == self.keys.names().len(),
                self.keys.listed(),
                self.keys@.dom() == other.keys@.dom(),
                forall|j: int|
                    0 <= j < i ==> self.keys@[#[trigger] self.keys.names()[j]]@
                        == other.keys@[self.keys.names()[j]]@,
            decreases n - i,
        {
            proof {
                self.keys.lemma_entries();
            }
            let name = self.keys.name_at(i);
            let mine = self.keys.value_at(i);
            match other.keys.get(name.as_str()) {
                Some(theirs) => {
                    assert(self@[name@] == mine@ && other@[name@] == theirs@);
                    if !(*mine == *theirs) {
                        return false;
                    }
                },
                None => {
                    return false;
                },
            }
            i += 1;
        }
        proof {
            self.keys.lemma_entries();
            assert(self@ =~= other@);
        }
        true
    }
}

impl vstd::std_specs::cmp::PartialEqSpecImpl for Section {
    open spec fn obeys_eq_spec() -> bool {
        true
    }

    open spec fn eq_spec(&self, other: &Section) -> bool {
        self@ == other@
    }
}

impl core::ops::Index<&str> for Section {
    type Output = String;

    /// Returns a reference to the value of the key with the specified name.
    fn index(&self, name: &str) -> (value: &String)
        ensures
            value@ == self@[name@],
    {
        let found = self.get(name);
        found.unwrap()
    }
}

impl vstd::std_specs::core::IndexSpecImpl<&str> for Section {
    /// Indexing needs a key with the specified name.
    open spec fn index_req(&self, name: &&str) -> bool {
        self@.contains_key(name@)
    }
}

impl core::ops::IndexMut<&str> for Section {
    /// Returns a mutable reference to the value of the key with the
    /// specified name.
    fn index_mut(&mut self, name: &str) -> (value: &mut String)
        requires
            old(self)@.contains_key(name@),
        ensures
            value@ == old(self)@[name@],
            final(self)@ == old(self)@.insert(name@, final(value)@),
    {
        self.keys.get_mut(name)
    }
}

/// INI config: a map from section names to sections.
///
/// The section named `""` holds the keys that stand before any section
/// header. Every document has it.
#[derive(Debug)]
pub struct Ini {
    /// The section named `""`.
    global: Section,
    /// The other sections, indexed by name.
    sections: Table<Section>,
}

impl View for Ini {
    type V = Map<Seq<char>, Map<Seq<char>, Seq<char>>>;

    closed spec fn view(&self) -> Map<Seq<char>, Map<Seq<char>, Seq<char>>> {
        Map::new(
            |name: Seq<char>| name.len() == 0 || self.sections@.contains_key(name),
            |name: Seq<char>|
                if name.len() == 0 {
                    self.global@
                } else {
                    self.sections@[name]@
                },
        )
    }
}

/// The only string without characters is the empty one.
proof fn lemma_no_chars()
    ensures
        forall|name: Seq<char>| #[trigger] name.len() == 0 ==> name == Seq::<char>::empty(),
{
}

impl Ini {
    /// Every document has the section named `""`.
    pub proof fn lemma_default_section(&self)
        ensures
            self@.contains_key(Seq::<char>::empty()),
    {
    }

    /// Create an Ini with a default section.
    pub fn new() -> (ini: Ini)
        ensures
            ini@ == Map::<Seq<char>, Map<Seq<char>, Seq<char>>>::empty().insert(
                Seq::<char>::empty(),
                Map::<Seq<char>, Seq<char>>::empty(),
            ),
    {
        proof {
            lemma_no_chars();
        }
        Ini { global: Section::new(), sections: Table::new() }
    }

    /// Parse an Ini from an input string.
    ///
    /// Returns the document that the text stands for, and an error if the
    /// text is not well-formed.
    pub fn from_str(text: &str) -> (r: Result<Ini, Error>)
        ensures
            match document(text@) {
                Some(doc) => r matches Ok(ini) && ini@ == doc,
                None => r matches Err(Error::Parse),
            },
    {
        Parser::from_str(text)
    }

    /// Add an empty section.
    ///
    /// If a section with the specified name already exists, it is discarded
    /// with its keys.
    pub fn add_section(&mut self, name: &str)
        ensures
            final(self)@ == old(self)@.insert(name@, Map::<Seq<char>, Seq<char>>::empty()),
            final(self)@[name@] == Map::<Seq<char>, Seq<char>>::empty(),
    {
        proof {
            lemma_no_chars();
        }
        if name.is_empty() {
            self.global = Section::new();
        } else {
            self.sections.insert(name.to_owned(), Section::new());
        }
    }

    /// Returns the section with the specified name, or `None` if there is
    /// no such section.
    pub fn get(&self, name: &str) -> (section: Option<&Section>)
        ensures
            match section {
                Some(s) => self@.contains_key(name@) && s@ == self@[name@],
                None => !self@.contains_key(name@),
            },
    {
        if name.is_empty() {
            Some(&self.global)
        } else {
            self.sections.get(name)
        }
    }

    /// Get a mutable section.
    ///
    /// The section must exist. What the caller does to it is done to the
    /// document, and to no other section of it.
    pub fn section_mut(&mut self, name: &str) -> (section: &mut Section)
        requires
            old(self)@.contains_key(name@),
        ensures
            section@ == old(self)@[name@],
            final(self)@ == old(self)@.insert(name@, final(section)@),
    {
        proof {
            lemma_no_chars();
        }
        if name.is_empty() {
            &mut self.global
        } else {
            self.sections.get_mut(name)
        }
    }
}

impl PartialEq for Ini {
    /// Two documents are equal if they hold the same sections under the
    /// same names.
    fn eq(&self, other: &Ini) -> (equal: bool) {
        if !(self.global == other.global) {
            assert(self@[Seq::<char>::empty()] != other@[Seq::<char>::empty()]);
            return false;
        }
        let n = self.sections.len();
        let mut i: usize = 0;
        while i < n
            invariant
                i <= n,
                n == self.sections.names().len(),
                self.sections.listed(),
                forall|j: int|
                    0 <= j < i ==> other@.contains_key(#[trigger] self.sections.names()[j])
                        && self@[self.sections.names()[j]] == other@[self.sections.names()[j]],
            decreases n - i,
        {
            proof {
                self.sections.lemma_entries();
            }
            let name = self.sections.name_at(i);
            match (self.get(name.as_str()), other.get(name.as_str())) {
                (Some(mine), Some(theirs)) => {
                    if !(*mine == *theirs) {
                        return false;
                    }
                },
                _ => {
                    return false;
                },
            }
            i += 1;
        }
        let m = other.sections.len();
        let mut k: usize = 0;
        while k < m
            invariant
                k <= m,
                m == other.sections.names().len(),
                other.sections.listed(),
                forall|j: int|
                    0 <= j < k ==> self@.contains_key(#[trigger] other.sections.names()[j]),
            decreases m - k,
        {
            proof {
                other.sections.lemma_entries();
            }
            let name = other.sections.name_at(k);
            if self.get(name.as_str()).is_none() {
                return false;
            }
            k += 1;
        }
        proof {
            self.sections.lemma_entries();
            other.sections.lemma_entries();
            assert(self@ =~= other@);
        }
        true
    }
}

impl vstd::std_specs::cmp::PartialEqSpecImpl for Ini {
    open spec fn obeys_eq_spec() -> bool {
        true
    }

    open spec fn eq_spec(&self, other: &Ini) -> bool {
        self@ == other@
    }
}

impl core::ops::Index<&str> for Ini {
    type Output = Section;

    /// Returns a reference to the section with the specified name.
    fn index(&self, name: &str) -> (section: &Section)
        ensures
            section@ == self@[name@],
    {
        let found = self.get(name);
        found.unwrap()
    }
}

impl vstd::std_specs::core::IndexSpecImpl<&str> for Ini {
    /// Indexing needs a section with the specified name.
    open spec fn index_req(&self, name: &&str) -> bool {
        self@.contains_key(name@)
    }
}

impl core::ops::IndexMut<&str> for Ini {
    /// Returns a mutable reference to the section with the specified name.
    fn index_mut(&mut self, name: &str) -> (section: &mut Section)
        requires
            old(self)@.contains_key(name@),
        ensures
            section@ == old(self)@[name@],
            final(self)@ == old(self)@.insert(name@, final(section)@),
    {
        self.section_mut(name)
    }
}

} // verus!
