//! Constraint-aware layout search for typing schemes.
//!
//! A scheme assigns every decomposition element to one key.  This crate
//! compiles the placement rules of a scheme into a [`constraints::Constraints`]
//! value and offers mutation operators that respect those rules: every
//! candidate layout they produce keeps fixed elements in place and moves the
//! others only onto keys that their rules allow.  On top of them stands the
//! controller of a simulated-annealing search, [`annealing::Controller`],
//! which decides everything of a search but the scores of the layouts.
//!
//! - [`config`] and [`representation`]: the scheme, as it is written and as
//!   the search reads it.
//! - [`rules`] and [`constraints`]: what a placement rule means, and the
//!   compiled form of all rules of a scheme.
//! - [`mutation`]: the three operators.  Their random draws come from
//!   [`random`], the only module whose contracts are believed, not proved.
//! - [`annealing`]: the phases, counters and layouts of a search.
//! - [`laws`]: what follows from the contracts of the others.
//! - [`cli`] and [`export`]: which files a run reads and writes.

pub mod config;
pub mod error;
pub mod representation;
pub mod rules;
pub mod random;
pub mod constraints;
pub mod mutation;
pub mod laws;
pub mod annealing;
pub mod cli;
pub mod export;
