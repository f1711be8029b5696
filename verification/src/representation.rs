//! The scheme as the search sees it: integer handles for keys and elements,
//! and the tables that turn names into them.

use crate::config::{AtomicConstraint, ConstraintsConfig, Mapped, MappedKey};
use vstd::prelude::*;

verus! {

/// Handle of one physical key.
pub type Key = usize;

/// Handle of one placeable element slot.
pub type Element = usize;

/// A layout: the key of every element, indexed by element handle.
pub type KeyMap = Vec<Key>;

/// One row of the key table: the key's name and its handle.
#[derive(Debug, Clone, PartialEq, Eq)]
pub struct KeyEntry {
    pub name: char,
    pub key: Key,
}

/// One row of the element table: an element's name, a position in its code,
/// and the handle of that slot.
#[derive(Debug, Clone, PartialEq, Eq)]
pub struct ElementEntry {
    pub name: String,
    pub index: usize,
    pub element: Element,
}

/// One row of the scheme's mapping: an element's name and its code.
#[derive(Debug, Clone, PartialEq, Eq)]
pub struct MappingEntry {
    pub name: String,
    pub code: Mapped,
}

/// The key that the first `n` rows of `table` give to `name`: that of the
/// first row with this name.
pub open spec fn key_in(table: Seq<KeyEntry>, n: int, name: char) -> Option<Key>
    decreases n,
{
    if n <= 0 {
        None
    } else {
        match key_in(table, n - 1, name) {
            Some(k) => Some(k),
            None => if table[n - 1].name == name {
                Some(table[n - 1].key)
            } else {
                None
            },
        }
    }
}

/// A hit among the first `n` rows is still the answer when more rows are read.
pub proof fn lemma_key_in_stable(table: Seq<KeyEntry>, n: int, m: int, name: char)
    requires
        n <= m,
        key_in(table, n, name) is Some,
    ensures
        key_in(table, m, name) == key_in(table, n, name),
    decreases m - n,
{
    if n < m {
        lemma_key_in_stable(table, n, m - 1, name);
    }
}

/// Looks `name` up in the key table.
pub fn find_key(table: &Vec<KeyEntry>, name: char) -> (r: Option<Key>)
    ensures
        r == key_in(table@, table@.len() as int, name),
{
    let mut i: usize = 0;
    while i < table.len()
        invariant
            i <= table.len(),
            key_in(table@, i as int, name) is None,
        decreases table.len() - i,
    {
        if table[i].name == name {
            proof {
                lemma_key_in_stable(table@, i + 1, table@.len() as int, name);
            }
            return Some(table[i].key);
        }
        i += 1;
    }
    None
}

/// The handle that the first `n` rows of `table` give to position `index` of
/// the element `name`: that of the first row with this name and position.
pub open spec fn element_in(table: Seq<ElementEntry>, n: int, name: Seq<char>, index: usize)
    -> Option<Element>
    decreases n,
{
    if n <= 0 {
        None
    } else {
        match element_in(table, n - 1, name, index) {
            Some(e) => Some(e),
            None => if table[n - 1].name@ == name && table[n - 1].index == index {
                Some(table[n - 1].element)
            } else {
                None
            },
        }
    }
}

/// A hit among the first `n` rows is still the answer when more rows are read.
pub proof fn lemma_element_in_stable(
    table: Seq<ElementEntry>,
    n: int,
    m: int,
    name: Seq<char>,
    index: usize,
)
    requires
        n <= m,
        element_in(table, n, name, index) is Some,
    ensures
        element_in(table, m, name, index) == element_in(table, n, name, index),
    decreases m - n,
{
    if n < m {
        lemma_element_in_stable(table, n, m - 1, name, index);
    }
}

/// Every handle that a lookup returns stands in some row of the table.
pub proof fn lemma_element_in_row(table: Seq<ElementEntry>, n: int, name: Seq<char>, index: usize)
    requires
        n <= table.len(),
        element_in(table, n, name, index) is Some,
    ensures
        exists|i: int|
            0 <= i < n && (#[trigger] table[i]).element == element_in(
                table,
                n,
                name,
                index,
            )->Some_0,
    decreases n,
{
    if element_in(table, n - 1, name, index) is Some {
        lemma_element_in_row(table, n - 1, name, index);
    } else {
        assert(table[n - 1].element == element_in(table, n, name, index)->Some_0);
    }
}

/// Looks position `index` of the element `name` up in the element table.
pub fn find_element(table: &Vec<ElementEntry>, name: &String, index: usize) -> (r: Option<Element>)
    ensures
        r == element_in(table@, table@.len() as int, name@, index),
{
    let mut i: usize = 0;
    while i < table.len()
        invariant
            i <= table.len(),
            element_in(table@, i as int, name@, index) is None,
        decreases table.len() - i,
    {
        if table[i].index == index && table[i].name == *name {
            proof {
                lemma_element_in_stable(table@, i + 1, table@.len() as int, name@, index);
            }
            return Some(table[i].element);
        }
        i += 1;
    }
    None
}

/// The first of the first `n` rows of `mapping` that is about the element `name`.
pub open spec fn row_in(mapping: Seq<MappingEntry>, n: int, name: Seq<char>) -> Option<int>
    decreases n,
{
    if n <= 0 {
        None
    } else {
        match row_in(mapping, n - 1, name) {
            Some(i) => Some(i),
            None => if mapping[n - 1].name@ == name {
                Some(n - 1)
            } else {
                None
            },
        }
    }
}

/// A row found among the first `n` is a row below `n`, carries the name, and
/// is still the answer when more rows are read.
pub proof fn lemma_row_in(mapping: Seq<MappingEntry>, n: int, m: int, name: Seq<char>)
    requires
        n <= m,
        row_in(mapping, n, name) is Some,
    ensures
        row_in(mapping, m, name) == row_in(mapping, n, name),
        0 <= row_in(mapping, n, name)->Some_0 < n,
        mapping[row_in(mapping, n, name)->Some_0].name@ == name,
    decreases m,
{
    if n < m {
        lemma_row_in(mapping, n, m - 1, name);
    } else if row_in(mapping, n - 1, name) is Some {
        lemma_row_in(mapping, n - 1, n - 1, name);
    }
}

/// Looks the row of the element `name` up in the mapping.
pub fn find_row(mapping: &Vec<MappingEntry>, name: &String) -> (r: Option<usize>)
    ensures
        match r {
            Some(i) => row_in(mapping@, mapping@.len() as int, name@) == Some(i as int)
                && i < mapping@.len(),
            None => row_in(mapping@, mapping@.len() as int, name@) is None,
        },
{
    let mut i: usize = 0;
    while i < mapping.len()
        invariant
            i <= mapping.len(),
            row_in(mapping@, i as int, name@) is None,
        decreases mapping.len() - i,
    {
        if mapping[i].name == *name {
            proof {
                lemma_row_in(mapping@, i + 1, mapping@.len() as int, name@);
            }
            return Some(i);
        }
        i += 1;
    }
    None
}

/// The rules of a list that may be left out.
pub open spec fn rule_list(list: Option<Vec<AtomicConstraint>>) -> Seq<AtomicConstraint> {
    match list {
        Some(rules) => rules@,
        None => Seq::empty(),
    }
}

/// What the search is given about a scheme.
#[derive(Debug, Clone)]
pub struct Representation {
    /// The names of the keys that elements may be placed on, in order.
    pub alphabet: String,
    /// The code of every element, in the order in which the scheme lists them.
    pub mapping: Vec<MappingEntry>,
    /// The placement rules, if the scheme has any.
    pub constraints: Option<ConstraintsConfig>,
    /// The layout that the scheme starts from; its length is the number of elements.
    pub initial: KeyMap,
    /// The handle of every element slot.
    pub element_repr: Vec<ElementEntry>,
    /// The handle of every key.
    pub key_repr: Vec<KeyEntry>,
}

impl Representation {
    /// The handle of the key called `name`, if the scheme has such a key.
    pub open spec fn key_of(&self, name: char) -> Option<Key> {
        key_in(self.key_repr@, self.key_repr@.len() as int, name)
    }

    /// The handle of position `index` of the element `name`, if the scheme has such a slot.
    pub open spec fn element_of(&self, name: Seq<char>, index: usize) -> Option<Element> {
        element_in(self.element_repr@, self.element_repr@.len() as int, name, index)
    }

    /// The code of the element `name`, slot by slot, if the mapping lists it.
    pub open spec fn code_of(&self, name: Seq<char>) -> Option<Seq<MappedKey>> {
        match row_in(self.mapping@, self.mapping@.len() as int, name) {
            Some(i) => Some(self.mapping@[i].code.normalized()),
            None => None,
        }
    }

    /// The handles of the keys of the alphabet, in its order.
    pub open spec fn alphabet_keys(&self) -> Seq<Key> {
        Seq::new(self.alphabet@.len(), |i: int| self.key_of(self.alphabet@[i])->Some_0)
    }

    /// All placement rules in the order in which they take effect: those by
    /// element, then those by index, then those by element and index.
    pub open spec fn rules(&self) -> Seq<AtomicConstraint> {
        match self.constraints {
            Some(lists) => rule_list(lists.elements) + rule_list(lists.indices) + rule_list(
                lists.element_indices,
            ),
            None => Seq::empty(),
        }
    }

    /// The number of elements of the scheme.
    pub open spec fn element_count(&self) -> nat {
        self.initial@.len()
    }

    /// The tables fit together: every key of the alphabet has a handle, and
    /// every element handle is below the number of elements.
    pub open spec fn wf(&self) -> bool {
        &&& forall|i: int|
            0 <= i < self.alphabet@.len() ==> (#[trigger] self.key_of(self.alphabet@[i])) is Some
        &&& forall|i: int|
            0 <= i < self.element_repr@.len() ==> (#[trigger] self.element_repr@[i]).element
                < self.element_count()
    }

    /// Under `wf`, a looked-up element handle is below the number of elements.
    pub proof fn lemma_element_of_in_range(&self, name: Seq<char>, index: usize)
        requires
            self.wf(),
            self.element_of(name, index) is Some,
        ensures
            self.element_of(name, index)->Some_0 < self.element_count(),
    {
        lemma_element_in_row(self.element_repr@, self.element_repr@.len() as int, name, index);
    }

    /// Tests whether the tables fit together.
    pub fn is_well_formed(&self) -> (r: bool)
        ensures
            r == self.wf(),
    {
        let letters = self.alphabet.as_str();
        let count = letters.unicode_len();
        let mut i: usize = 0;
        while i < count
            invariant
                i <= count,
                count == self.alphabet@.len(),
                letters@ == self.alphabet@,
                forall|j: int| 0 <= j < i ==> (#[trigger] self.key_of(self.alphabet@[j])) is Some,
            decreases count - i,
        {
            let c = letters.get_char(i);
            if find_key(&self.key_repr, c).is_none() {
                assert(self.key_of(self.alphabet@[i as int]) is None);
                return false;
            }
            i += 1;
        }
        let mut k: usize = 0;
        while k < self.element_repr.len()
            invariant
                k <= self.element_repr.len(),
                forall|j: int|
                    0 <= j < k ==> (#[trigger] self.element_repr@[j]).element
                        < self.element_count(),
            decreases self.element_repr.len() - k,
        {
            if self.element_repr[k].element >= self.initial.len() {
                assert(!(self.element_repr@[k as int].element < self.element_count()));
                return false;
            }
            k += 1;
        }
        true
    }
}

} // verus!
