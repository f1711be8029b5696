//! Errors reported while compiling placement rules.

use vstd::prelude::*;

verus! {

/// Why a set of placement rules could not be compiled.
#[derive(Debug, Clone, PartialEq, Eq)]
pub enum Error {
    /// A rule names an element slot that the scheme does not know.
    UnknownElement { name: String, index: usize },
    /// A rule names an element that has no code in the scheme's mapping.
    UnmappedElement { name: String },
    /// A rule lists a key that the scheme does not know.
    UnknownKey { key: char },
    /// A rule gives neither an element nor an index.
    MissingTarget,
    /// A rule restricts its elements to an empty list of keys.
    EmptyKeys,
    /// Every element is fixed, so no layout other than the current one can be proposed.
    NoMovableElement,
}

/// The mathematical content of an [`Error`]: names are sequences of characters.
pub enum ErrorView {
    UnknownElement { name: Seq<char>, index: usize },
    UnmappedElement { name: Seq<char> },
    UnknownKey { key: char },
    MissingTarget,
    EmptyKeys,
    NoMovableElement,
}

impl View for Error {
    type V = ErrorView;

    open spec fn view(&self) -> ErrorView {
        match self {
            Error::UnknownElement { name, index } => ErrorView::UnknownElement {
                name: name@,
                index: *index,
            },
            Error::UnmappedElement { name } => ErrorView::UnmappedElement { name: name@ },
            Error::UnknownKey { key } => ErrorView::UnknownKey { key: *key },
            Error::MissingTarget => ErrorView::MissingTarget,
            Error::EmptyKeys => ErrorView::EmptyKeys,
            Error::NoMovableElement => ErrorView::NoMovableElement,
        }
    }
}

} // verus!
