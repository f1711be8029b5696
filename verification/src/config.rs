//! The parts of a scheme's configuration that placement rules are written in.

use vstd::prelude::*;

verus! {

/// One slot of an element's code.
#[derive(Debug, Clone, PartialEq, Eq)]
pub enum MappedKey {
    /// The slot is assigned to the key with this name.
    Ascii(char),
    /// The slot repeats a slot of another element's code.
    Reference { element: String, index: usize },
}

impl MappedKey {
    /// Whether the slot is a key assignment of its own, and so can be placed.
    pub open spec fn is_literal(&self) -> bool {
        self is Ascii
    }

    /// A slot equal to this one.
    pub fn duplicate(&self) -> (r: MappedKey)
        ensures
            r == *self,
    {
        match self {
            MappedKey::Ascii(key) => MappedKey::Ascii(*key),
            MappedKey::Reference { element, index } => MappedKey::Reference {
                element: element.clone(),
                index: *index,
            },
        }
    }

    /// Tests whether the slot is a key assignment of its own.
    pub fn is_ascii(&self) -> (r: bool)
        ensures
            r == self.is_literal(),
    {
        match self {
            MappedKey::Ascii(_) => true,
            MappedKey::Reference { .. } => false,
        }
    }
}

/// The slot that position `i` of a string of key names stands for.
pub open spec fn key_slot(keys: Seq<char>, i: int) -> MappedKey {
    MappedKey::Ascii(keys[i])
}

/// The slots that a string of key names stands for: one key assignment for
/// each character.
pub open spec fn key_slots(keys: Seq<char>) -> Seq<MappedKey> {
    Seq::new(keys.len(), |i: int| key_slot(keys, i))
}

/// The code of an element as the scheme writes it.
#[derive(Debug, Clone, PartialEq, Eq)]
pub enum Mapped {
    /// A string of key names, one for each slot.
    Basic(String),
    /// The slots one by one.
    Advanced(Vec<MappedKey>),
}

impl Mapped {
    /// The code slot by slot: every character of a string of key names is
    /// a key assignment.
    pub open spec fn normalized(&self) -> Seq<MappedKey> {
        match self {
            Mapped::Basic(keys) => key_slots(keys@),
            Mapped::Advanced(slots) => slots@,
        }
    }

    /// The code slot by slot.
    #[verifier::loop_isolation(false)]
    pub fn normalize(&self) -> (r: Vec<MappedKey>)
        ensures
            r@ == self.normalized(),
    {
        let mut r: Vec<MappedKey> = Vec::new();
        match self {
            Mapped::Basic(keys) => {
                let names = keys.as_str();
                let count = names.unicode_len();
                let mut i: usize = 0;
                while i < count
                    invariant
                        i <= count,
                        count == names@.len(),
                        r@.len() == i,
                        forall|j: int| 0 <= j < i ==> #[trigger] r@[j] == MappedKey::Ascii(names@[j]),
                    decreases count - i,
                {
                    r.push(MappedKey::Ascii(names.get_char(i)));
                    i += 1;
                }
            },
            Mapped::Advanced(slots) => {
                let mut i: usize = 0;
                while i < slots.len()
                    invariant
                        i <= slots@.len(),
                        r@.len() == i,
                        forall|j: int| 0 <= j < i ==> r@[j] == slots@[j],
                    decreases slots@.len() - i,
                {
                    r.push(slots[i].duplicate());
                    i += 1;
                }
            },
        }
        r
    }
}

/// A placement rule as the user writes it.
///
/// `element` and `index` select the element slots that the rule is about; at
/// least one of them has to be given.  Without `keys` the selected slots are
/// fixed in place, with `keys` they may only be placed on the listed keys.
#[derive(Debug, Clone, PartialEq, Eq)]
pub struct AtomicConstraint {
    pub element: Option<String>,
    pub index: Option<usize>,
    pub keys: Option<Vec<char>>,
}

/// The three rule lists of a scheme, each of which may be left out.
#[derive(Debug, Clone, PartialEq, Eq)]
pub struct ConstraintsConfig {
    pub elements: Option<Vec<AtomicConstraint>>,
    pub indices: Option<Vec<AtomicConstraint>>,
    pub element_indices: Option<Vec<AtomicConstraint>>,
}

} // verus!
