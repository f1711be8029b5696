//! What one placement rule means: the element slots that it selects and the
//! keys that it leaves to them.

use crate::config::{AtomicConstraint, MappedKey};
use crate::error::{Error, ErrorView};
use crate::representation::{find_element, find_key, find_row, Element, Key, Representation};
use vstd::prelude::*;

verus! {

/// Whether position `index` of `code` is a key assignment of its own, not a
/// reference to another element's code.
pub open spec fn literal_at(code: Seq<MappedKey>, index: usize) -> bool {
    index < code.len() && code[index as int].is_literal()
}

/// The slots that a rule for position `index` selects among the first `n`
/// rows of the mapping: the slot of every element whose code has a key
/// assignment of its own at that position, in the order of the rows.  The
/// first such slot that has no handle is an error.
pub open spec fn slots_at_index(repr: &Representation, index: usize, n: int) -> Result<
    Seq<Element>,
    ErrorView,
>
    decreases n,
{
    if n <= 0 {
        Ok(Seq::empty())
    } else {
        match slots_at_index(repr, index, n - 1) {
            Err(e) => Err(e),
            Ok(slots) => {
                let row = repr.mapping@[n - 1];
                if literal_at(row.code.normalized(), index) {
                    match repr.element_of(row.name@, index) {
                        Some(element) => Ok(slots.push(element)),
                        None => Err(ErrorView::UnknownElement { name: row.name@, index }),
                    }
                } else {
                    Ok(slots)
                }
            },
        }
    }
}

/// The slots that a rule for the element `name` selects among the first `n`
/// positions of its `code`: every position that holds a key assignment of
/// its own.  The first such slot that has no handle is an error.
pub open spec fn slots_of_element(
    repr: &Representation,
    name: Seq<char>,
    code: Seq<MappedKey>,
    n: int,
) -> Result<Seq<Element>, ErrorView>
    decreases n,
{
    if n <= 0 {
        Ok(Seq::empty())
    } else {
        match slots_of_element(repr, name, code, n - 1) {
            Err(e) => Err(e),
            Ok(slots) => {
                let index = (n - 1) as usize;
                if literal_at(code, index) {
                    match repr.element_of(name, index) {
                        Some(element) => Ok(slots.push(element)),
                        None => Err(ErrorView::UnknownElement { name, index }),
                    }
                } else {
                    Ok(slots)
                }
            },
        }
    }
}

/// The element slots that `rule` selects.
///
/// With an element and an index it is that one slot; with an index alone,
/// that position of every element; with an element alone, every position of
/// that element.  Only positions that hold a key assignment of their own are
/// selected in the last two cases.
pub open spec fn rule_targets(repr: &Representation, rule: &AtomicConstraint) -> Result<
    Seq<Element>,
    ErrorView,
> {
    match (rule.element, rule.index) {
        (Some(name), Some(index)) => match repr.element_of(name@, index) {
            Some(element) => Ok(seq![element]),
            None => Err(ErrorView::UnknownElement { name: name@, index }),
        },
        (None, Some(index)) => slots_at_index(repr, index, repr.mapping@.len() as int),
        (Some(name), None) => match repr.code_of(name@) {
            Some(code) => slots_of_element(repr, name@, code, code.len() as int),
            None => Err(ErrorView::UnmappedElement { name: name@ }),
        },
        (None, None) => Err(ErrorView::MissingTarget),
    }
}

/// The handles of the first `n` of the key `names`, in their order.  The
/// first name that has no handle is an error.
pub open spec fn keys_named(repr: &Representation, names: Seq<char>, n: int) -> Result<
    Seq<Key>,
    ErrorView,
>
    decreases n,
{
    if n <= 0 {
        Ok(Seq::empty())
    } else {
        match keys_named(repr, names, n - 1) {
            Err(e) => Err(e),
            Ok(keys) => match repr.key_of(names[n - 1]) {
                Some(key) => Ok(keys.push(key)),
                None => Err(ErrorView::UnknownKey { key: names[n - 1] }),
            },
        }
    }
}

/// The keys that `rule` leaves to the slots it selects: `None` if it fixes
/// them in place, otherwise the handles of the listed keys, of which there
/// has to be at least one.
pub open spec fn rule_keys(repr: &Representation, rule: &AtomicConstraint) -> Result<
    Option<Seq<Key>>,
    ErrorView,
> {
    match rule.keys {
        None => Ok(None),
        Some(names) => match keys_named(repr, names@, names@.len() as int) {
            Err(e) => Err(e),
            Ok(keys) => if keys.len() == 0 {
                Err(ErrorView::EmptyKeys)
            } else {
                Ok(Some(keys))
            },
        },
    }
}

/// What a rule does once it is resolved.
pub struct Effect {
    /// The element slots that the rule is about.
    pub targets: Seq<Element>,
    /// `None` if the slots are fixed, otherwise the keys left to them.
    pub keys: Option<Seq<Key>>,
}

/// The effect of `rule`, or the reason why it cannot be resolved.
///
/// The slots are resolved first.  The keys are looked at only if the rule
/// selects a slot at all: a rule without slots has no effect and no error.
pub open spec fn rule_effect(repr: &Representation, rule: &AtomicConstraint) -> Result<
    Effect,
    ErrorView,
> {
    match rule_targets(repr, rule) {
        Err(e) => Err(e),
        Ok(targets) => if targets.len() == 0 {
            Ok(Effect { targets, keys: None })
        } else {
            match rule_keys(repr, rule) {
                Err(e) => Err(e),
                Ok(keys) => Ok(Effect { targets, keys }),
            }
        },
    }
}

/// Once a scan of the mapping has failed, reading more rows does not change the error.
pub proof fn lemma_slots_at_index_failed(repr: &Representation, index: usize, n: int, m: int)
    requires
        n <= m,
        slots_at_index(repr, index, n) is Err,
    ensures
        slots_at_index(repr, index, m) == slots_at_index(repr, index, n),
    decreases m - n,
{
    if n < m {
        lemma_slots_at_index_failed(repr, index, n, m - 1);
    }
}

/// Once a scan of a code has failed, reading more positions does not change the error.
pub proof fn lemma_slots_of_element_failed(
    repr: &Representation,
    name: Seq<char>,
    code: Seq<MappedKey>,
    n: int,
    m: int,
)
    requires
        n <= m,
        slots_of_element(repr, name, code, n) is Err,
    ensures
        slots_of_element(repr, name, code, m) == slots_of_element(repr, name, code, n),
    decreases m - n,
{
    if n < m {
        lemma_slots_of_element_failed(repr, name, code, n, m - 1);
    }
}

/// Once a key name has failed to resolve, reading more names does not change the error.
pub proof fn lemma_keys_named_failed(repr: &Representation, names: Seq<char>, n: int, m: int)
    requires
        n <= m,
        keys_named(repr, names, n) is Err,
    ensures
        keys_named(repr, names, m) == keys_named(repr, names, n),
    decreases m - n,
{
    if n < m {
        lemma_keys_named_failed(repr, names, n, m - 1);
    }
}

/// Resolves the element slots that `rule` selects.
#[verifier::loop_isolation(false)]
pub fn resolve_targets(repr: &Representation, rule: &AtomicConstraint) -> (r: Result<
    Vec<Element>,
    Error,
>)
    requires
        repr.wf(),
    ensures
        match r {
            Ok(targets) => rule_targets(repr, rule) matches Ok(t) && t == targets@,
            Err(e) => rule_targets(repr, rule) matches Err(x) && x == e@,
        },
        r matches Ok(targets) ==> forall|j: int|
            0 <= j < targets@.len() ==> #[trigger] targets@[j] < repr.element_count(),
{
    match &rule.element {
        Some(name) => match rule.index {
            Some(index) => match find_element(&repr.element_repr, name, index) {
                Some(element) => {
                    proof {
                        repr.lemma_element_of_in_range(name@, index);
                    }
                    let mut targets: Vec<Element> = Vec::new();
                    targets.push(element);
                    Ok(targets)
                },
                None => Err(Error::UnknownElement { name: name.clone(), index }),
            },
            None => match find_row(&repr.mapping, name) {
                Some(row) => {
                    let code = repr.mapping[row].code.normalize();
                    let mut targets: Vec<Element> = Vec::new();
                    let mut index: usize = 0;
                    while index < code.len()
                        invariant
                            index <= code@.len(),
                            slots_of_element(repr, name@, code@, index as int) matches Ok(t) && t
                                == targets@,
                            forall|j: int|
                                0 <= j < targets@.len() ==> #[trigger] targets@[j]
                                    < repr.element_count(),
                        decreases code@.len() - index,
                    {
                        if code[index].is_ascii() {
                            match find_element(&repr.element_repr, name, index) {
                                Some(element) => {
                                    proof {
                                        repr.lemma_element_of_in_range(name@, index);
                                    }
                                    targets.push(element);
                                },
                                None => {
                                    proof {
                                        lemma_slots_of_element_failed(
                                            repr,
                                            name@,
                                            code@,
                                            index + 1,
                                            code@.len() as int,
                                        );
                                    }
                                    return Err(Error::UnknownElement { name: name.clone(), index });
                                },
                            }
                        }
                        index += 1;
                    }
                    Ok(targets)
                },
                None => Err(Error::UnmappedElement { name: name.clone() }),
            },
        },
        None => match rule.index {
            Some(index) => {
                let mut targets: Vec<Element> = Vec::new();
                let mut row: usize = 0;
                while row < repr.mapping.len()
                    invariant
                        row <= repr.mapping@.len(),
                        slots_at_index(repr, index, row as int) matches Ok(t) && t == targets@,
                        forall|j: int|
                            0 <= j < targets@.len() ==> #[trigger] targets@[j]
                                < repr.element_count(),
                    decreases repr.mapping@.len() - row,
                {
                    let entry = &repr.mapping[row];
                    let code = entry.code.normalize();
                    if index < code.len() && code[index].is_ascii() {
                        match find_element(&repr.element_repr, &entry.name, index) {
                            Some(element) => {
                                proof {
                                    repr.lemma_element_of_in_range(entry.name@, index);
                                }
                                targets.push(element);
                            },
                            None => {
                                proof {
                                    lemma_slots_at_index_failed(
                                        repr,
                                        index,
                                        row + 1,
                                        repr.mapping@.len() as int,
                                    );
                                }
                                return Err(
                                    Error::UnknownElement { name: entry.name.clone(), index },
                                );
                            },
                        }
                    }
                    row += 1;
                }
                Ok(targets)
            },
            None => Err(Error::MissingTarget),
        },
    }
}

/// Resolves the keys that `rule` leaves to its slots.
#[verifier::loop_isolation(false)]
pub fn resolve_keys(repr: &Representation, rule: &AtomicConstraint) -> (r: Result<
    Option<Vec<Key>>,
    Error,
>)
    ensures
        match r {
            Ok(Some(keys)) => rule_keys(repr, rule) matches Ok(Some(k)) && k == keys@,
            Ok(None) => rule_keys(repr, rule) matches Ok(None),
            Err(e) => rule_keys(repr, rule) matches Err(x) && x == e@,
        },
{
    match &rule.keys {
        None => Ok(None),
        Some(names) => {
            let mut keys: Vec<Key> = Vec::new();
            let mut i: usize = 0;
            while i < names.len()
                invariant
                    i <= names@.len(),
                    keys_named(repr, names@, i as int) matches Ok(k) && k == keys@,
                decreases names@.len() - i,
            {
                match find_key(&repr.key_repr, names[i]) {
                    Some(key) => keys.push(key),
                    None => {
                        proof {
                            lemma_keys_named_failed(repr, names@, i + 1, names@.len() as int);
                        }
                        return Err(Error::UnknownKey { key: names[i] });
                    },
                }
                i += 1;
            }
            if keys.len() == 0 {
                Err(Error::EmptyKeys)
            } else {
                Ok(Some(keys))
            }
        },
    }
}

} // verus!
