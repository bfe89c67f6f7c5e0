//! Compiles a table of typed, tunable parameters into constant declarations
//! and a companion hyperparameter-search script.
//!
//! `decl` reads the declaration grammar from a token sequence, `kind` holds
//! the numeric kinds and the override policy, `emit` produces the constants
//! in default or override mode, and `script` produces the search script.
use vstd::prelude::*;

pub mod decl;
pub mod emit;
pub mod kind;
pub mod script;
pub mod syntax;

verus! {

} // verus!
