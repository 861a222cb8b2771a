use vstd::prelude::*;

use crate::ast::Atom;
use crate::ast::Connective;
use crate::ast::Proposition;

verus! {

/// The meaning of a formula: a pure structural fold over the tree,
/// using the standard two-valued truth tables.  `IfThen` is material
/// implication, `Iff` the biconditional.  The modal operators
/// `Possibly` and `Necessarily` carry placeholder semantics and
/// evaluate to the truth value of their operand; a grouped sub-formula
/// evaluates to the truth value of what it wraps.
pub open spec fn spec_eval(p: Proposition) -> bool
    decreases p,
{
    match p {
        Proposition::Atom(Atom::True) => true,
        Proposition::Atom(Atom::False) => false,
        Proposition::Connective(Connective::And(left, right)) => spec_eval(*left) && spec_eval(
            *right,
        ),
        Proposition::Connective(Connective::Or(left, right)) => spec_eval(*left) || spec_eval(
            *right,
        ),
        Proposition::Connective(Connective::IfThen(left, right)) => !spec_eval(*left) || spec_eval(
            *right,
        ),
        Proposition::Connective(Connective::Iff(left, right)) => spec_eval(*left) == spec_eval(
            *right,
        ),
        Proposition::Connective(Connective::Not(prop)) => !spec_eval(*prop),
        Proposition::Connective(Connective::Possibly(prop)) => spec_eval(*prop),
        Proposition::Connective(Connective::Necessarily(prop)) => spec_eval(*prop),
        Proposition::Parenthesised(prop) => spec_eval(*prop),
    }
}

/// Computes the truth value of a fully built formula.  The result is
/// exactly `spec_eval` of the tree, so two evaluations of equal trees
/// always agree.
pub fn evaluate(expression: Proposition) -> (value: bool)
    ensures
        value == spec_eval(expression),
    decreases expression,
{
    match expression {
        Proposition::Atom(Atom::True) => true,
        Proposition::Atom(Atom::False) => false,
        Proposition::Connective(Connective::And(left, right)) => evaluate(*left) && evaluate(
            *right,
        ),
        Proposition::Connective(Connective::Or(left, right)) => evaluate(*left) || evaluate(*right),
        Proposition::Connective(Connective::IfThen(left, right)) => !evaluate(*left) || evaluate(
            *right,
        ),
        Proposition::Connective(Connective::Iff(left, right)) => evaluate(*left) == evaluate(
            *right,
        ),
        Proposition::Connective(Connective::Not(prop)) => !evaluate(*prop),
        Proposition::Connective(Connective::Possibly(prop)) => evaluate(*prop),
        Proposition::Connective(Connective::Necessarily(prop)) => evaluate(*prop),
        Proposition::Parenthesised(prop) => evaluate(*prop),
    }
}

/// Law: every connective matches its two-valued truth table.  For all
/// operand trees `l` and `r`, an `And` node evaluates to the
/// conjunction of the operands' values, `Or` to the disjunction,
/// `IfThen` to material implication, `Iff` to equality of the two
/// values, and `Not` to the negation of its operand's value.
pub proof fn lemma_truth_tables(l: Proposition, r: Proposition)
    ensures
        spec_eval(Proposition::Connective(Connective::And(Box::new(l), Box::new(r)))) == (spec_eval(
            l,
        ) && spec_eval(r)),
        spec_eval(Proposition::Connective(Connective::Or(Box::new(l), Box::new(r)))) == (spec_eval(
            l,
        ) || spec_eval(r)),
        spec_eval(Proposition::Connective(Connective::IfThen(Box::new(l), Box::new(r)))) == (
        !spec_eval(l) || spec_eval(r)),
        spec_eval(Proposition::Connective(Connective::Iff(Box::new(l), Box::new(r)))) == (spec_eval(
            l,
        ) == spec_eval(r)),
        spec_eval(Proposition::Connective(Connective::Not(Box::new(l)))) == !spec_eval(l),
{
}

/// Law: grouping is transparent.  Wrapping any formula in an explicit
/// parenthesis node leaves its truth value unchanged.
pub proof fn lemma_parenthesis_transparent(x: Proposition)
    ensures
        spec_eval(Proposition::Parenthesised(Box::new(x))) == spec_eval(x),
{
}

} // verus!
