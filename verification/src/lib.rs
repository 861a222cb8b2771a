//! A tiny propositional-logic evaluator.  An input string of the form
//! `formula;atom=value,atom=value,...` is split into a formula and an
//! assignment list, parsed into a syntax tree, and folded to a single
//! truth value.  Atoms are the identifiers `P Q R S T`, truth tokens
//! are `T` and `F`, connectives are `∧ ∨ → ↔ ¬` with grouping by
//! parentheses only, and whitespace is never significant.  Malformed
//! input is reported as a structured error, never as a panic.

use vstd::prelude::*;

pub mod ast;
pub mod atoms;
pub mod error;
pub mod eval;
pub mod parser;
pub mod scan;

pub use ast::Atom;
pub use ast::Connective;
pub use ast::Proposition;
pub use ast::prop_eq;
pub use atoms::AtomMap;
pub use error::ParseError;
pub use eval::evaluate;
pub use eval::spec_eval;
pub use parser::parse_proposition;
pub use parser::parse_proposition_string;

verus! {

/// Parses a raw `formula;assignments` input and computes its truth
/// value: the result of evaluating the tree that
/// `parse_proposition_string` builds, or that parse's error.
pub fn evaluate_propositional_string(prop: &str) -> (r: Result<bool, ParseError>)
    ensures
        r == parser::spec_evaluate_input(prop@),
{
    match parser::parse_proposition_string(prop) {
        Ok(proposition) => Ok(eval::evaluate(proposition)),
        Err(e) => Err(e),
    }
}

} // verus!
