use vstd::prelude::*;

use crate::ast::Atom;
use crate::ast::Connective;
use crate::ast::Proposition;
use crate::atoms::AtomMap;
use crate::error::ParseError;
use crate::scan::find_char;
use crate::scan::find_char_from;
use crate::scan::find_matching_close;
use crate::scan::is_atom_char;
use crate::scan::is_binary_char;
use crate::scan::lemma_find_char_props;
use crate::scan::lemma_matching_close_props;
use crate::scan::matching_close;
use crate::scan::split_on;
use crate::scan::strip_whitespace;
use crate::scan::strip_ws_chars;

verus! {

/// The node a binary connective symbol builds from its two operands.
pub open spec fn binary_node(c: char, left: Proposition, right: Proposition) -> Proposition {
    if c == '∧' {
        Proposition::Connective(Connective::And(Box::new(left), Box::new(right)))
    } else if c == '∨' {
        Proposition::Connective(Connective::Or(Box::new(left), Box::new(right)))
    } else if c == '→' {
        Proposition::Connective(Connective::IfThen(Box::new(left), Box::new(right)))
    } else {
        Proposition::Connective(Connective::Iff(Box::new(left), Box::new(right)))
    }
}

/// One left-to-right scan of a whitespace-free formula against the
/// atom bindings `m`, carrying the partial result `acc`.
///
/// An atom identifier must be bound to `T` or `F` and becomes the new
/// partial result.  A binary connective symbol requires a partial
/// result as its left operand and takes the whole remainder of the
/// input as its right operand, so chains without parentheses associate
/// to the right and no connective binds tighter than another.
/// Negation likewise takes the whole remainder as its operand.  An
/// opening parenthesis captures the characters up to the parenthesis
/// that balances it, parses them as a group, and scanning continues
/// after the group.  The scan fails on a character outside the
/// alphabet, and an exhausted input must have produced a result.
pub open spec fn spec_parse_formula(
    s: Seq<char>,
    m: Map<char, char>,
    acc: Option<Proposition>,
) -> Result<Proposition, ParseError>
    decreases s.len(),
    via spec_parse_formula_decreases
{
    if s.len() == 0 {
        match acc {
            Some(p) => Ok(p),
            None => Err(ParseError::EmptyExpression),
        }
    } else {
        let c = s[0];
        if is_atom_char(c) {
            if !m.contains_key(c) {
                Err(ParseError::UnknownAtom(c))
            } else if m[c] == 'T' {
                spec_parse_formula(s.skip(1), m, Some(Proposition::Atom(Atom::True)))
            } else if m[c] == 'F' {
                spec_parse_formula(s.skip(1), m, Some(Proposition::Atom(Atom::False)))
            } else {
                Err(ParseError::InvalidTruthToken(m[c]))
            }
        } else if is_binary_char(c) {
            match acc {
                None => Err(ParseError::UnexpectedOperator(c)),
                Some(left) => match spec_parse_formula(s.skip(1), m, None) {
                    Ok(right) => Ok(binary_node(c, left, right)),
                    Err(e) => Err(e),
                },
            }
        } else if c == '¬' {
            match spec_parse_formula(s.skip(1), m, None) {
                Ok(operand) => Ok(Proposition::Connective(Connective::Not(Box::new(operand)))),
                Err(e) => Err(e),
            }
        } else if c == '(' {
            match matching_close(s.skip(1), 1) {
                None => Err(ParseError::UnmatchedParenthesis),
                Some(j) => match spec_parse_formula(s.skip(1).take(j), m, None) {
                    Ok(inner) => spec_parse_formula(
                        s.skip(1).skip(j + 1),
                        m,
                        Some(Proposition::Parenthesised(Box::new(inner))),
                    ),
                    Err(e) => Err(e),
                },
            }
        } else {
            Err(ParseError::InvalidCharacter(c))
        }
    }
}

#[via_fn]
proof fn spec_parse_formula_decreases(s: Seq<char>, m: Map<char, char>, acc: Option<Proposition>) {
    if s.len() > 0 && !is_atom_char(s[0]) && !is_binary_char(s[0]) && s[0] != '¬' && s[0] == '(' {
        lemma_matching_close_props(s.skip(1), 1);
    }
}

/// One assignment pair, cut at its `=` signs: the pair must have at
/// least two sides and each of the first two sides must be non-empty;
/// the atom identifier and its truth token are the first characters of
/// those sides.
pub open spec fn spec_parse_pair(pair: Seq<char>) -> Result<(char, char), ParseError> {
    let sides = split_on(pair, '=');
    if sides.len() < 2 {
        Err(ParseError::MalformedAssignment)
    } else if sides[0].len() == 0 || sides[1].len() == 0 {
        Err(ParseError::MalformedAssignment)
    } else {
        Ok((sides[0][0], sides[1][0]))
    }
}

/// Folds assignment pairs into `m` from left to right, stopping at the
/// first malformed pair; a later pair for the same atom overwrites an
/// earlier one.
pub open spec fn spec_fill_map(m: Map<char, char>, pairs: Seq<Seq<char>>) -> Result<
    Map<char, char>,
    ParseError,
>
    decreases pairs.len(),
{
    if pairs.len() == 0 {
        Ok(m)
    } else {
        match spec_parse_pair(pairs[0]) {
            Err(e) => Err(e),
            Ok((name, value)) => spec_fill_map(m.insert(name, value), pairs.skip(1)),
        }
    }
}

/// The whole pipeline on a raw input, after whitespace is stripped:
/// the first `;` separates the formula from the assignment list and
/// must be present; the assignment list, cut at every `,`, builds the
/// atom bindings; the formula is then parsed against them.
pub open spec fn spec_parse_input(s: Seq<char>) -> Result<Proposition, ParseError> {
    let t = strip_whitespace(s);
    match find_char(t, ';') {
        None => Err(ParseError::MissingSeparator),
        Some(i) => {
            let formula = t.take(i);
            let assignments = t.skip(i + 1);
            match spec_fill_map(Map::empty(), split_on(assignments, ',')) {
                Err(e) => Err(e),
                Ok(m) => spec_parse_formula(formula, m, None),
            }
        },
    }
}

/// The truth value the whole pipeline produces for a raw input.
pub open spec fn spec_evaluate_input(s: Seq<char>) -> Result<bool, ParseError> {
    match spec_parse_input(s) {
        Ok(p) => Ok(crate::eval::spec_eval(p)),
        Err(e) => Err(e),
    }
}

/// Law: a formula whose scan sits on an unbound atom identifier fails
/// with `UnknownAtom` naming that identifier, whatever follows it and
/// whatever was parsed so far.
pub proof fn lemma_unknown_atom_fails(s: Seq<char>, m: Map<char, char>, acc: Option<Proposition>)
    requires
        s.len() > 0,
        is_atom_char(s[0]),
        !m.contains_key(s[0]),
    ensures
        spec_parse_formula(s, m, acc) == Err::<Proposition, ParseError>(
            ParseError::UnknownAtom(s[0]),
        ),
{
}

/// Law: no atom is silently defaulted.  A successful parse means that
/// every atom identifier occurring anywhere in the formula was bound
/// in the atom map.
pub proof fn lemma_parse_binds_every_atom(
    s: Seq<char>,
    m: Map<char, char>,
    acc: Option<Proposition>,
)
    requires
        spec_parse_formula(s, m, acc) is Ok,
    ensures
        forall|i: int| 0 <= i < s.len() && is_atom_char(s[i]) ==> m.contains_key(s[i]),
    decreases s.len(),
{
    if s.len() == 0 {
    } else {
        let c = s[0];
        let t = s.skip(1);
        if is_atom_char(c) {
            if m[c] == 'T' {
                lemma_parse_binds_every_atom(t, m, Some(Proposition::Atom(Atom::True)));
            } else {
                lemma_parse_binds_every_atom(t, m, Some(Proposition::Atom(Atom::False)));
            }
            assert forall|i: int| 0 <= i < s.len() && is_atom_char(s[i]) implies m.contains_key(
                s[i],
            ) by {
                if i >= 1 {
                    assert(t[i - 1] == s[i]);
                    assert(is_atom_char(t[i - 1]));
                }
            }
        } else if is_binary_char(c) || c == '¬' {
            lemma_parse_binds_every_atom(t, m, None);
            assert forall|i: int| 0 <= i < s.len() && is_atom_char(s[i]) implies m.contains_key(
                s[i],
            ) by {
                if i >= 1 {
                    assert(t[i - 1] == s[i]);
                    assert(is_atom_char(t[i - 1]));
                }
            }
        } else if c == '(' {
            lemma_matching_close_props(t, 1);
            let j: int = matching_close(t, 1)->Some_0;
            let inner = t.take(j);
            let outer = t.skip(j + 1);
            lemma_parse_binds_every_atom(inner, m, None);
            let inner_tree = spec_parse_formula(inner, m, None)->Ok_0;
            lemma_parse_binds_every_atom(
                outer,
                m,
                Some(Proposition::Parenthesised(Box::new(inner_tree))),
            );
            assert forall|i: int| 0 <= i < s.len() && is_atom_char(s[i]) implies m.contains_key(
                s[i],
            ) by {
                if 1 <= i <= j {
                    assert(inner[i - 1] == t[i - 1]);
                    assert(t[i - 1] == s[i]);
                    assert(is_atom_char(inner[i - 1]));
                } else if i == j + 1 {
                    assert(s[i] == t[j]);
                } else if i >= j + 2 {
                    assert(outer[i - j - 2] == t[i - j - 2 + j + 1]);
                    assert(t[i - 2 - j + j + 1] == s[i]);
                    assert(is_atom_char(outer[i - j - 2]));
                }
            }
        }
    }
}

/// Law: whitespace is never significant.  Two inputs that agree once
/// whitespace is stripped parse to the same tree, or fail with the
/// same error, and evaluate alike.
pub proof fn lemma_whitespace_insensitive(s1: Seq<char>, s2: Seq<char>)
    requires
        strip_whitespace(s1) == strip_whitespace(s2),
    ensures
        spec_parse_input(s1) == spec_parse_input(s2),
        spec_evaluate_input(s1) == spec_evaluate_input(s2),
{
}

/// Reads one assignment pair out of `chars[lo..hi]`.
fn parse_pair(chars: &Vec<char>, lo: usize, hi: usize) -> (r: Result<(char, char), ParseError>)
    requires
        lo <= hi <= chars@.len(),
    ensures
        r == spec_parse_pair(chars@.subrange(lo as int, hi as int)),
{
    let ghost pair = chars@.subrange(lo as int, hi as int);
    match find_char_from(chars, lo, hi, '=') {
        None => Err(ParseError::MalformedAssignment),
        Some(k) => {
            let ghost k0: int = k - lo;
            let ghost rest = pair.skip(k0 + 1);
            let ghost sides = split_on(pair, '=');
            proof {
                lemma_find_char_props(rest, '=');
                assert(sides == seq![pair.take(k0)] + split_on(rest, '='));
                assert(sides[0] == pair.take(k0));
                assert(sides[1] == split_on(rest, '=')[0]);
            }
            if k == lo {
                Err(ParseError::MalformedAssignment)
            } else if k + 1 == hi {
                proof {
                    assert(rest.len() == 0);
                    assert(sides[1] == rest);
                }
                Err(ParseError::MalformedAssignment)
            } else if chars[k + 1] == '=' {
                proof {
                    assert(rest[0] == chars@[k + 1]);
                    match find_char(rest, '=') {
                        None => {
                            assert(rest[0] != '=');
                        },
                        Some(k2) => {
                            if k2 > 0 {
                                assert(rest[0] != '=');
                            }
                            assert(k2 == 0);
                            assert(sides[1] == rest.take(0));
                        },
                    }
                }
                Err(ParseError::MalformedAssignment)
            } else {
                proof {
                    assert(sides[0][0] == pair[0]);
                    assert(pair[0] == chars@[lo as int]);
                    assert(rest[0] == chars@[k + 1]);
                    match find_char(rest, '=') {
                        None => {
                            assert(sides[1] == rest);
                        },
                        Some(k2) => {
                            assert(rest[k2] == '=');
                            assert(k2 != 0);
                            assert(sides[1] == rest.take(k2));
                            assert(sides[1][0] == rest[0]);
                        },
                    }
                    assert(sides[1][0] == chars@[k + 1]);
                }
                Ok((chars[lo], chars[k + 1]))
            }
        },
    }
}

/// Folds the assignment pairs of `chars[lo..hi]` into `m`, stopping at
/// the first malformed pair.
fn fill_atom_map(chars: &Vec<char>, lo: usize, hi: usize, m: AtomMap) -> (r: Result<
    AtomMap,
    ParseError,
>)
    requires
        lo <= hi <= chars@.len(),
    ensures
        (match r {
            Ok(out) => spec_fill_map(m@, split_on(chars@.subrange(lo as int, hi as int), ','))
                == Ok::<Map<char, char>, ParseError>(out@),
            Err(e) => spec_fill_map(m@, split_on(chars@.subrange(lo as int, hi as int), ','))
                == Err::<Map<char, char>, ParseError>(e),
        }),
    decreases hi - lo,
{
    let ghost sub = chars@.subrange(lo as int, hi as int);
    let ghost pairs = split_on(sub, ',');
    match find_char_from(chars, lo, hi, ',') {
        None => {
            proof {
                assert(pairs == seq![sub]);
                assert(pairs[0] == sub);
                assert(pairs.skip(1) =~= Seq::<Seq<char>>::empty());
            }
            match parse_pair(chars, lo, hi) {
                Err(e) => Err(e),
                Ok((name, value)) => {
                    let mut m2 = m;
                    m2.insert(name, value);
                    proof {
                        assert(spec_fill_map(m2@, pairs.skip(1)) == Ok::<
                            Map<char, char>,
                            ParseError,
                        >(m2@));
                    }
                    Ok(m2)
                },
            }
        },
        Some(k) => {
            let ghost k0: int = k - lo;
            proof {
                assert(sub.take(k0) =~= chars@.subrange(lo as int, k as int));
                assert(sub.skip(k0 + 1) =~= chars@.subrange(k + 1, hi as int));
                assert(pairs == seq![sub.take(k0)] + split_on(sub.skip(k0 + 1), ','));
                assert(pairs[0] == sub.take(k0));
                assert(pairs.skip(1) =~= split_on(sub.skip(k0 + 1), ','));
            }
            match parse_pair(chars, lo, k) {
                Err(e) => Err(e),
                Ok((name, value)) => {
                    let mut m2 = m;
                    m2.insert(name, value);
                    fill_atom_map(chars, k + 1, hi, m2)
                },
            }
        },
    }
}

/// The left-to-right scan over `chars[lo..hi]`, the executable twin of
/// `spec_parse_formula`.
fn parse_formula(
    chars: &Vec<char>,
    lo: usize,
    hi: usize,
    acc: Option<Proposition>,
    map: &AtomMap,
) -> (r: Result<Proposition, ParseError>)
    requires
        lo <= hi <= chars@.len(),
    ensures
        r == spec_parse_formula(chars@.subrange(lo as int, hi as int), map@, acc),
    decreases hi - lo,
{
    let ghost sub = chars@.subrange(lo as int, hi as int);
    if lo == hi {
        match acc {
            Some(p) => Ok(p),
            None => Err(ParseError::EmptyExpression),
        }
    } else {
        let c = chars[lo];
        proof {
            assert(sub[0] == chars@[lo as int]);
            assert(sub.skip(1) =~= chars@.subrange(lo + 1, hi as int));
        }
        if c == 'P' || c == 'Q' || c == 'R' || c == 'S' || c == 'T' {
            match map.get(c) {
                None => Err(ParseError::UnknownAtom(c)),
                Some(value) => {
                    if value == 'T' {
                        parse_formula(chars, lo + 1, hi, Some(Proposition::Atom(Atom::True)), map)
                    } else if value == 'F' {
                        parse_formula(chars, lo + 1, hi, Some(Proposition::Atom(Atom::False)), map)
                    } else {
                        Err(ParseError::InvalidTruthToken(value))
                    }
                },
            }
        } else if c == '∧' || c == '∨' || c == '→' || c == '↔' {
            match acc {
                None => Err(ParseError::UnexpectedOperator(c)),
                Some(left) => match parse_formula(chars, lo + 1, hi, None, map) {
                    Err(e) => Err(e),
                    Ok(right) => {
                        if c == '∧' {
                            Ok(
                                Proposition::Connective(
                                    Connective::And(Box::new(left), Box::new(right)),
                                ),
                            )
                        } else if c == '∨' {
                            Ok(
                                Proposition::Connective(
                                    Connective::Or(Box::new(left), Box::new(right)),
                                ),
                            )
                        } else if c == '→' {
                            Ok(
                                Proposition::Connective(
                                    Connective::IfThen(Box::new(left), Box::new(right)),
                                ),
                            )
                        } else {
                            Ok(
                                Proposition::Connective(
                                    Connective::Iff(Box::new(left), Box::new(right)),
                                ),
                            )
                        }
                    },
                },
            }
        } else if c == '¬' {
            match parse_formula(chars, lo + 1, hi, None, map) {
                Err(e) => Err(e),
                Ok(operand) => Ok(Proposition::Connective(Connective::Not(Box::new(operand)))),
            }
        } else if c == '(' {
            match find_matching_close(chars, lo + 1, hi) {
                None => Err(ParseError::UnmatchedParenthesis),
                Some(j) => {
                    proof {
                        assert(sub.skip(1).take(j - (lo + 1)) =~= chars@.subrange(
                            lo + 1,
                            j as int,
                        ));
                        assert(sub.skip(1).skip(j - (lo + 1) + 1) =~= chars@.subrange(
                            j + 1,
                            hi as int,
                        ));
                    }
                    match parse_formula(chars, lo + 1, j, None, map) {
                        Err(e) => Err(e),
                        Ok(inner) => parse_formula(
                            chars,
                            j + 1,
                            hi,
                            Some(Proposition::Parenthesised(Box::new(inner))),
                            map,
                        ),
                    }
                },
            }
        } else {
            Err(ParseError::InvalidCharacter(c))
        }
    }
}

/// Parses a whitespace-insensitive formula against already resolved
/// atom bindings and returns its syntax tree, or the error naming what
/// was malformed.
pub fn parse_proposition(prop: &str, atom_map: &AtomMap) -> (r: Result<Proposition, ParseError>)
    ensures
        r == spec_parse_formula(strip_whitespace(prop@), atom_map@, None),
{
    let chars = strip_ws_chars(prop);
    proof {
        assert(chars@.subrange(0, chars@.len() as int) =~= chars@);
    }
    parse_formula(&chars, 0, chars.len(), None, atom_map)
}

/// Splits a raw input of the form `formula;atom=value,atom=value,...`
/// at its first `;`, builds the atom bindings from the assignment
/// list, and parses the formula against them.  Whitespace anywhere is
/// ignored.  The result is the syntax tree, or the error naming what
/// was malformed.
pub fn parse_proposition_string(prop: &str) -> (r: Result<Proposition, ParseError>)
    ensures
        r == spec_parse_input(prop@),
{
    let chars = strip_ws_chars(prop);
    let ghost t = strip_whitespace(prop@);
    proof {
        assert(chars@.subrange(0, chars@.len() as int) =~= chars@);
    }
    match find_char_from(&chars, 0, chars.len(), ';') {
        None => Err(ParseError::MissingSeparator),
        Some(i) => {
            proof {
                assert(t.take(i as int) =~= chars@.subrange(0, i as int));
                assert(t.skip(i + 1) =~= chars@.subrange(i + 1, chars@.len() as int));
            }
            match fill_atom_map(&chars, i + 1, chars.len(), AtomMap::new()) {
                Err(e) => Err(e),
                Ok(map) => parse_formula(&chars, 0, i, None, &map),
            }
        },
    }
}

} // verus!
