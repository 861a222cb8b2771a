use prop_logic::{evaluate, Atom, Connective, Proposition};

fn atom(value: bool) -> Proposition {
    if value {
        Proposition::Atom(Atom::True)
    } else {
        Proposition::Atom(Atom::False)
    }
}

#[test]
fn evaluates_propositional_atoms() {
    let true_atom = Proposition::Atom(Atom::True);
    let false_atom = Proposition::Atom(Atom::False);
    assert_eq!(evaluate(true_atom), true);
    assert_eq!(evaluate(false_atom), false);
}

#[test]
fn evaluates_propositional_connectives() {
    let true_atom = Proposition::Atom(Atom::True);
    let false_atom = Proposition::Atom(Atom::False);
    let and = Proposition::Connective(Connective::And(
        Box::new(true_atom.clone()),
        Box::new(false_atom.clone()),
    ));
    let or = Proposition::Connective(Connective::Or(
        Box::new(true_atom.clone()),
        Box::new(false_atom.clone()),
    ));
    let if_then = Proposition::Connective(Connective::IfThen(
        Box::new(true_atom.clone()),
        Box::new(false_atom.clone()),
    ));
    let iff = Proposition::Connective(Connective::Iff(
        Box::new(true_atom.clone()),
        Box::new(false_atom.clone()),
    ));
    let not = Proposition::Connective(Connective::Not(Box::new(true_atom.clone())));
    assert_eq!(evaluate(and), false);
    assert_eq!(evaluate(or), true);
    assert_eq!(evaluate(if_then), false);
    assert_eq!(evaluate(iff), false);
    assert_eq!(evaluate(not), false);
}

#[test]
fn evaluates_parenthesised_propositions() {
    let true_atom = Proposition::Atom(Atom::True);
    let false_atom = Proposition::Atom(Atom::False);
    let and = Proposition::Connective(Connective::And(Box::new(true_atom), Box::new(false_atom)));
    let parenthesised = Proposition::Parenthesised(Box::new(and));
    assert_eq!(evaluate(parenthesised), false);
}

#[test]
fn and_truth_table() {
    for a in [false, true] {
        for b in [false, true] {
            let node =
                Proposition::Connective(Connective::And(Box::new(atom(a)), Box::new(atom(b))));
            assert_eq!(evaluate(node), a && b);
        }
    }
}

#[test]
fn or_truth_table() {
    for a in [false, true] {
        for b in [false, true] {
            let node =
                Proposition::Connective(Connective::Or(Box::new(atom(a)), Box::new(atom(b))));
            assert_eq!(evaluate(node), a || b);
        }
    }
}

#[test]
fn if_then_truth_table() {
    for a in [false, true] {
        for b in [false, true] {
            let node =
                Proposition::Connective(Connective::IfThen(Box::new(atom(a)), Box::new(atom(b))));
            assert_eq!(evaluate(node), !a || b);
        }
    }
}

#[test]
fn iff_truth_table() {
    for a in [false, true] {
        for b in [false, true] {
            let node =
                Proposition::Connective(Connective::Iff(Box::new(atom(a)), Box::new(atom(b))));
            assert_eq!(evaluate(node), a == b);
        }
    }
}

#[test]
fn not_truth_table() {
    for a in [false, true] {
        let node = Proposition::Connective(Connective::Not(Box::new(atom(a))));
        assert_eq!(evaluate(node), !a);
    }
}

#[test]
fn modal_operators_pass_through() {
    for a in [false, true] {
        let possibly = Proposition::Connective(Connective::Possibly(Box::new(atom(a))));
        let necessarily = Proposition::Connective(Connective::Necessarily(Box::new(atom(a))));
        assert_eq!(evaluate(possibly), a);
        assert_eq!(evaluate(necessarily), a);
    }
}

#[test]
fn evaluation_is_idempotent() {
    let tree = Proposition::Connective(Connective::IfThen(
        Box::new(atom(true)),
        Box::new(Proposition::Parenthesised(Box::new(atom(false)))),
    ));
    let first = evaluate(tree.clone());
    let second = evaluate(tree);
    assert_eq!(first, second);
}
