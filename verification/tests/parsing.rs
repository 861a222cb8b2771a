use prop_logic::{
    evaluate, evaluate_propositional_string, parse_proposition, parse_proposition_string, prop_eq,
    AtomMap, ParseError,
};

#[test]
fn parses_proposition_strings() {
    let test_str = "P ∧ Q;P=T,Q=F";
    let another_test_str = "¬(P ∨ Q);P=F,Q=F";
    let parsed = parse_proposition_string(test_str).unwrap();
    let also_parsed = parse_proposition_string(another_test_str).unwrap();
    assert_eq!(evaluate(parsed), false);
    assert_eq!(evaluate(also_parsed), true);
}

#[test]
fn parses_complex_propositions() {
    let test_str = "P ∨ (Q ∧ R) ↔ (P ∨ Q) ∧ (P ∨ R);P=F,Q=T,R=T";
    let another_test_str = "P ∨ (Q ∧ R);P=F,Q=F,R=T";
    let parsed = parse_proposition_string(test_str).unwrap();
    let also_parsed = parse_proposition_string(another_test_str).unwrap();
    assert_eq!(evaluate(parsed), true);
    assert_eq!(evaluate(also_parsed), false);
}

#[test]
fn parses_propositions() {
    let mut atom_map = AtomMap::new();
    atom_map.insert('P', 'T');
    atom_map.insert('Q', 'F');
    let proposition = "P∧Q";
    let parsed = parse_proposition(proposition, &atom_map).unwrap();
    assert_eq!(evaluate(parsed), false);
}

#[test]
fn evaluates_a_full_input_string() {
    assert_eq!(evaluate_propositional_string("P ∧ Q;P=T,Q=F"), Ok(false));
    assert_eq!(evaluate_propositional_string("¬(P ∨ Q);P=F,Q=F"), Ok(true));
}

#[test]
fn whitespace_is_not_significant() {
    let dense = parse_proposition_string("P∧Q;P=T,Q=F").unwrap();
    let spaced = parse_proposition_string("P ∧ Q ; P = T , Q = F").unwrap();
    assert!(prop_eq(&dense, &spaced));
    assert_eq!(evaluate(dense), evaluate(spaced));
}

#[test]
fn chains_without_parentheses_associate_right() {
    // With conventional precedence `(P ∧ Q) ∨ R` this would be true;
    // the right-recursive scan reads it as `P ∧ (Q ∨ R)`.
    assert_eq!(
        evaluate_propositional_string("P ∧ Q ∨ R;P=F,Q=T,R=T"),
        Ok(false)
    );
}

#[test]
fn later_assignments_overwrite_earlier_ones() {
    assert_eq!(evaluate_propositional_string("P;P=F,P=T"), Ok(true));
}

#[test]
fn unreferenced_atoms_are_never_validated() {
    // `Q` carries a bad truth token, but the formula never reads it.
    assert_eq!(evaluate_propositional_string("P;P=T,Q=X"), Ok(true));
}

#[test]
fn missing_separator_is_reported() {
    assert_eq!(
        evaluate_propositional_string("P ∧ Q"),
        Err(ParseError::MissingSeparator)
    );
}

#[test]
fn malformed_assignments_are_reported() {
    assert_eq!(
        evaluate_propositional_string("P;P"),
        Err(ParseError::MalformedAssignment)
    );
    assert_eq!(
        evaluate_propositional_string("P;=T"),
        Err(ParseError::MalformedAssignment)
    );
    assert_eq!(
        evaluate_propositional_string("P;P="),
        Err(ParseError::MalformedAssignment)
    );
    assert_eq!(
        evaluate_propositional_string("P;P=T,"),
        Err(ParseError::MalformedAssignment)
    );
}

#[test]
fn unknown_atoms_are_reported() {
    assert_eq!(
        evaluate_propositional_string("R;P=T"),
        Err(ParseError::UnknownAtom('R'))
    );
    assert_eq!(
        evaluate_propositional_string("P ∧ S;P=T,Q=F"),
        Err(ParseError::UnknownAtom('S'))
    );
}

#[test]
fn invalid_truth_tokens_are_reported() {
    assert_eq!(
        evaluate_propositional_string("P;P=X"),
        Err(ParseError::InvalidTruthToken('X'))
    );
}

#[test]
fn leading_operators_are_reported() {
    assert_eq!(
        evaluate_propositional_string("∧ P;P=T"),
        Err(ParseError::UnexpectedOperator('∧'))
    );
}

#[test]
fn unmatched_parentheses_are_reported() {
    assert_eq!(
        evaluate_propositional_string("(P ∧ Q;P=T,Q=F"),
        Err(ParseError::UnmatchedParenthesis)
    );
}

#[test]
fn invalid_characters_are_reported() {
    assert_eq!(
        evaluate_propositional_string("x;P=T"),
        Err(ParseError::InvalidCharacter('x'))
    );
}

#[test]
fn empty_expressions_are_reported() {
    assert_eq!(
        evaluate_propositional_string(";P=T"),
        Err(ParseError::EmptyExpression)
    );
    assert_eq!(
        evaluate_propositional_string("P ∧;P=T"),
        Err(ParseError::EmptyExpression)
    );
}

#[test]
fn empty_groups_are_reported() {
    assert_eq!(
        evaluate_propositional_string("();P=T"),
        Err(ParseError::EmptyExpression)
    );
}
