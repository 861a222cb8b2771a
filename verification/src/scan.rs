use vstd::prelude::*;
use vstd::string::StrSliceExecFns;

verus! {

/// The atom identifiers the formula alphabet admits.
pub open spec fn is_atom_char(c: char) -> bool {
    c == 'P' || c == 'Q' || c == 'R' || c == 'S' || c == 'T'
}

/// The binary connective symbols: conjunction, disjunction, material
/// implication, biconditional.
pub open spec fn is_binary_char(c: char) -> bool {
    c == '∧' || c == '∨' || c == '→' || c == '↔'
}

/// The characters that count as whitespace and are never significant:
/// the Unicode `White_Space` set.
pub open spec fn is_whitespace_char(c: char) -> bool {
    c == '\t' || c == '\n' || c == '\u{000B}' || c == '\u{000C}' || c == '\r' || c == ' ' || c
        == '\u{0085}' || c == '\u{00A0}' || c == '\u{1680}' || c == '\u{2000}' || c == '\u{2001}'
        || c == '\u{2002}' || c == '\u{2003}' || c == '\u{2004}' || c == '\u{2005}' || c
        == '\u{2006}' || c == '\u{2007}' || c == '\u{2008}' || c == '\u{2009}' || c == '\u{200A}'
        || c == '\u{2028}' || c == '\u{2029}' || c == '\u{202F}' || c == '\u{205F}' || c
        == '\u{3000}'
}

/// Decides `is_whitespace_char`.
fn check_whitespace_char(c: char) -> (r: bool)
    ensures
        r == is_whitespace_char(c),
{
    c == '\t' || c == '\n' || c == '\u{000B}' || c == '\u{000C}' || c == '\r' || c == ' ' || c
        == '\u{0085}' || c == '\u{00A0}' || c == '\u{1680}' || c == '\u{2000}' || c == '\u{2001}'
        || c == '\u{2002}' || c == '\u{2003}' || c == '\u{2004}' || c == '\u{2005}' || c
        == '\u{2006}' || c == '\u{2007}' || c == '\u{2008}' || c == '\u{2009}' || c == '\u{200A}'
        || c == '\u{2028}' || c == '\u{2029}' || c == '\u{202F}' || c == '\u{205F}' || c
        == '\u{3000}'
}

/// `s` with every whitespace character removed, in order.
pub open spec fn strip_whitespace(s: Seq<char>) -> Seq<char>
    decreases s.len(),
{
    if s.len() == 0 {
        Seq::empty()
    } else if is_whitespace_char(s[0]) {
        strip_whitespace(s.skip(1))
    } else {
        seq![s[0]] + strip_whitespace(s.skip(1))
    }
}

/// The index of the first occurrence of `c` in `s`, if any.
pub open spec fn find_char(s: Seq<char>, c: char) -> Option<int>
    decreases s.len(),
{
    if s.len() == 0 {
        None
    } else if s[0] == c {
        Some(0)
    } else {
        match find_char(s.skip(1), c) {
            Some(i) => Some(i + 1),
            None => None,
        }
    }
}

/// What `find_char` finds: an in-range index holding `c` with no
/// earlier occurrence, or a guarantee that `c` does not occur at all.
pub(crate) proof fn lemma_find_char_props(s: Seq<char>, c: char)
    ensures
        match find_char(s, c) {
            Some(i) => 0 <= i < s.len() && s[i] == c && (forall|j: int| 0 <= j < i ==> s[j] != c),
            None => forall|j: int| 0 <= j < s.len() ==> s[j] != c,
        },
    decreases s.len(),
{
    if s.len() == 0 {
    } else if s[0] == c {
    } else {
        let t = s.skip(1);
        lemma_find_char_props(t, c);
        match find_char(t, c) {
            Some(i) => {
                assert(s[i + 1] == t[i]);
                assert forall|j: int| 0 <= j < i + 1 implies s[j] != c by {
                    if j >= 1 {
                        assert(s[j] == t[j - 1]);
                    }
                }
            },
            None => {
                assert forall|j: int| 0 <= j < s.len() implies s[j] != c by {
                    if j >= 1 {
                        assert(s[j] == t[j - 1]);
                    }
                }
            },
        }
    }
}

/// `s` cut at every occurrence of `c`: the pieces between the
/// occurrences, in order, without the occurrences themselves.  A string
/// free of `c` yields itself as the one piece, so the result is never
/// empty.
pub open spec fn split_on(s: Seq<char>, c: char) -> Seq<Seq<char>>
    decreases s.len(),
    via split_on_decreases
{
    match find_char(s, c) {
        None => seq![s],
        Some(i) => seq![s.take(i)] + split_on(s.skip(i + 1), c),
    }
}

#[via_fn]
proof fn split_on_decreases(s: Seq<char>, c: char) {
    lemma_find_char_props(s, c);
}

/// Collects the non-whitespace characters of `s`, in order.
pub(crate) fn strip_ws_chars(s: &str) -> (v: Vec<char>)
    ensures
        v@ == strip_whitespace(s@),
{
    let n = s.unicode_len();
    let mut v: Vec<char> = Vec::new();
    let mut i: usize = 0;
    proof {
        assert(s@.skip(0) =~= s@);
        assert(v@ + strip_whitespace(s@) =~= strip_whitespace(s@));
    }
    while i < n
        invariant
            i <= n,
            n == s@.len(),
            strip_whitespace(s@) == v@ + strip_whitespace(s@.skip(i as int)),
        decreases n - i,
    {
        let c = s.get_char(i);
        proof {
            let rest = s@.skip(i as int);
            assert(rest[0] == s@[i as int]);
            assert(rest.skip(1) =~= s@.skip(i + 1));
        }
        if !check_whitespace_char(c) {
            proof {
                let tail = strip_whitespace(s@.skip(i + 1));
                assert(v@.push(c) + tail =~= v@ + (seq![c] + tail));
            }
            v.push(c);
        }
        i = i + 1;
    }
    proof {
        assert(s@.skip(n as int) =~= Seq::<char>::empty());
        assert(v@ + Seq::<char>::empty() =~= v@);
    }
    v
}

/// The number of characters up to and including the parenthesis that
/// closes a group: scanning `s` with a nesting count that starts at
/// `count`, the index where the count first returns to zero, or `None`
/// where it never does.
pub open spec fn matching_close(s: Seq<char>, count: int) -> Option<int>
    decreases s.len(),
{
    if s.len() == 0 {
        None
    } else {
        let next = if s[0] == '(' {
            count + 1
        } else if s[0] == ')' {
            count - 1
        } else {
            count
        };
        if next == 0 {
            Some(0)
        } else {
            match matching_close(s.skip(1), next) {
                Some(j) => Some(j + 1),
                None => None,
            }
        }
    }
}

/// An `Option` index moved right by `d` places.
spec fn opt_shift(o: Option<int>, d: int) -> Option<int> {
    match o {
        Some(j) => Some(j + d),
        None => None,
    }
}

/// Finds the first occurrence of `c` in `chars[lo..hi]`, reported as
/// an absolute index.
pub(crate) fn find_char_from(chars: &Vec<char>, lo: usize, hi: usize, c: char) -> (r: Option<usize>)
    requires
        lo <= hi <= chars@.len(),
    ensures
        match r {
            Some(i) => lo <= i < hi && find_char(chars@.subrange(lo as int, hi as int), c) == Some(
                i - lo,
            ),
            None => find_char(chars@.subrange(lo as int, hi as int), c) is None,
        },
{
    let ghost sub = chars@.subrange(lo as int, hi as int);
    let mut i: usize = lo;
    while i < hi
        invariant
            lo <= i <= hi <= chars@.len(),
            sub == chars@.subrange(lo as int, hi as int),
            forall|j: int| lo <= j < i ==> chars@[j] != c,
        decreases hi - i,
    {
        if chars[i] == c {
            proof {
                lemma_find_char_props(sub, c);
                assert(sub[i - lo] == chars@[i as int]);
                assert forall|j: int| 0 <= j < i - lo implies sub[j] != c by {
                    assert(sub[j] == chars@[lo + j]);
                }
                match find_char(sub, c) {
                    Some(k) => {
                        if k < i - lo {
                            assert(sub[k] != c);
                        }
                        if k > i - lo {
                            assert(sub[i - lo] != c);
                        }
                    },
                    None => {
                        assert(sub[i - lo] != c);
                    },
                }
            }
            return Some(i);
        }
        i = i + 1;
    }
    proof {
        lemma_find_char_props(sub, c);
        match find_char(sub, c) {
            Some(k) => {
                assert(sub[k] == chars@[lo + k]);
            },
            None => {},
        }
    }
    None
}

/// Finds the parenthesis that closes a group: the first absolute index
/// in `chars[lo..hi]` where a nesting count that starts at one returns
/// to zero.
pub(crate) fn find_matching_close(chars: &Vec<char>, lo: usize, hi: usize) -> (r: Option<usize>)
    requires
        lo <= hi <= chars@.len(),
    ensures
        match r {
            Some(j) => lo <= j < hi && matching_close(chars@.subrange(lo as int, hi as int), 1)
                == Some(j - lo),
            None => matching_close(chars@.subrange(lo as int, hi as int), 1) is None,
        },
{
    let ghost sub = chars@.subrange(lo as int, hi as int);
    let mut i: usize = lo;
    let mut count: u128 = 1;
    proof {
        assert(sub.skip(0) =~= sub);
    }
    while i < hi
        invariant
            lo <= i <= hi <= chars@.len(),
            sub == chars@.subrange(lo as int, hi as int),
            1 <= count <= 1 + (i - lo),
            matching_close(sub, 1) == opt_shift(
                matching_close(sub.skip(i - lo), count as int),
                i - lo,
            ),
        decreases hi - i,
    {
        let c = chars[i];
        let ghost rest = sub.skip(i - lo);
        proof {
            assert(rest[0] == chars@[i as int]);
            assert(rest.skip(1) =~= sub.skip(i + 1 - lo));
        }
        let next: u128 = if c == '(' {
            count + 1
        } else if c == ')' {
            count - 1
        } else {
            count
        };
        if next == 0 {
            proof {
                assert(matching_close(rest, count as int) == Some(0int));
            }
            return Some(i);
        }
        count = next;
        i = i + 1;
    }
    proof {
        assert(sub.skip(hi - lo) =~= Seq::<char>::empty());
    }
    None
}

/// A found closing parenthesis lies in range and is a `)` whenever the
/// count started positive.
pub(crate) proof fn lemma_matching_close_props(s: Seq<char>, count: int)
    ensures
        matching_close(s, count) matches Some(j) ==> 0 <= j < s.len() && (count > 0 ==> s[j]
            == ')'),
    decreases s.len(),
{
    if s.len() > 0 {
        let next = if s[0] == '(' {
            count + 1
        } else if s[0] == ')' {
            count - 1
        } else {
            count
        };
        if next != 0 {
            lemma_matching_close_props(s.skip(1), next);
        }
    }
}

} // verus!
