//! Recursive-descent parser for a small imperative scripting language.
//!
//! The grammar is stated as spec functions in [`grammar`]; the executable
//! rules in [`parse`] are proved to compute exactly what those spec
//! functions describe.

pub mod token;
pub mod ast;
pub mod grammar;
pub mod parse;
pub mod diagnostic;
pub mod laws;
