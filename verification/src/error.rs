use vstd::prelude::*;

verus! {

/// The ways an input can be malformed.  Every failure is detected at
/// the offending character and reported to the caller; no input makes
/// the library panic.  Variants that concern one character carry it.
#[derive(Clone, Copy, Debug, PartialEq, Eq, Structural)]
pub enum ParseError {
    /// No `;` separates the formula from the assignment list.
    MissingSeparator,
    /// An assignment pair lacks `=`, or its atom or value token is
    /// empty.
    MalformedAssignment,
    /// The formula references an atom identifier that the assignment
    /// list never bound.
    UnknownAtom(char),
    /// An atom was bound to a token other than `T` or `F`.
    InvalidTruthToken(char),
    /// A binary connective appeared with no left operand before it.
    UnexpectedOperator(char),
    /// An opening parenthesis whose group never closes.
    UnmatchedParenthesis,
    /// A character outside the recognized alphabet appeared in the
    /// formula.
    InvalidCharacter(char),
    /// The end of a formula was reached with nothing parsed.
    EmptyExpression,
}

} // verus!
