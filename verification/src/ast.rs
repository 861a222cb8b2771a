use vstd::prelude::*;

verus! {

/// A resolved truth value standing at a leaf of a formula.
#[derive(Clone, Copy, Debug)]
pub enum Atom {
    True,
    False,
}

/// A unary or binary operator applied to exclusively owned sub-formulas.
#[derive(Debug)]
pub enum Connective {
    And(Box<Proposition>, Box<Proposition>),
    Or(Box<Proposition>, Box<Proposition>),
    IfThen(Box<Proposition>, Box<Proposition>),
    Iff(Box<Proposition>, Box<Proposition>),
    Not(Box<Proposition>),
    Possibly(Box<Proposition>),
    Necessarily(Box<Proposition>),
}

/// The abstract syntax tree of a propositional formula: a boolean leaf,
/// an operator node, or an explicitly grouped sub-formula.  Grouping is
/// kept as its own node so that a parsed tree mirrors the parentheses
/// that the input wrote.
#[derive(Debug)]
pub enum Proposition {
    Atom(Atom),
    Connective(Connective),
    Parenthesised(Box<Proposition>),
}

impl Clone for Connective {
    /// A clone is structurally equal to the original tree.
    fn clone(&self) -> (res: Self)
        ensures
            res == *self,
        decreases *self,
    {
        match self {
            Connective::And(l, r) => Connective::And(Box::new((**l).clone()), Box::new((**r).clone())),
            Connective::Or(l, r) => Connective::Or(Box::new((**l).clone()), Box::new((**r).clone())),
            Connective::IfThen(l, r) => Connective::IfThen(
                Box::new((**l).clone()),
                Box::new((**r).clone()),
            ),
            Connective::Iff(l, r) => Connective::Iff(Box::new((**l).clone()), Box::new((**r).clone())),
            Connective::Not(p) => Connective::Not(Box::new((**p).clone())),
            Connective::Possibly(p) => Connective::Possibly(Box::new((**p).clone())),
            Connective::Necessarily(p) => Connective::Necessarily(Box::new((**p).clone())),
        }
    }
}

impl Clone for Proposition {
    /// A clone is structurally equal to the original tree.
    fn clone(&self) -> (res: Self)
        ensures
            res == *self,
        decreases *self,
    {
        match self {
            Proposition::Atom(a) => Proposition::Atom(*a),
            Proposition::Connective(c) => Proposition::Connective(c.clone()),
            Proposition::Parenthesised(p) => Proposition::Parenthesised(Box::new((**p).clone())),
        }
    }
}

/// Decides structural equality of two syntax trees: same shape, same
/// operators, same truth values at the leaves.
pub fn prop_eq(a: &Proposition, b: &Proposition) -> (r: bool)
    ensures
        r == (*a == *b),
    decreases *a,
{
    match (a, b) {
        (Proposition::Atom(Atom::True), Proposition::Atom(Atom::True)) => true,
        (Proposition::Atom(Atom::False), Proposition::Atom(Atom::False)) => true,
        (Proposition::Parenthesised(x), Proposition::Parenthesised(y)) => prop_eq(x, y),
        (Proposition::Connective(x), Proposition::Connective(y)) => match (x, y) {
            (Connective::And(l1, r1), Connective::And(l2, r2)) => {
                prop_eq(l1, l2) && prop_eq(r1, r2)
            },
            (Connective::Or(l1, r1), Connective::Or(l2, r2)) => {
                prop_eq(l1, l2) && prop_eq(r1, r2)
            },
            (Connective::IfThen(l1, r1), Connective::IfThen(l2, r2)) => {
                prop_eq(l1, l2) && prop_eq(r1, r2)
            },
            (Connective::Iff(l1, r1), Connective::Iff(l2, r2)) => {
                prop_eq(l1, l2) && prop_eq(r1, r2)
            },
            (Connective::Not(p1), Connective::Not(p2)) => prop_eq(p1, p2),
            (Connective::Possibly(p1), Connective::Possibly(p2)) => prop_eq(p1, p2),
            (Connective::Necessarily(p1), Connective::Necessarily(p2)) => prop_eq(p1, p2),
            _ => false,
        },
        _ => false,
    }
}

} // verus!
