//! The tag pattern engine.
//!
//! A tag may carry a pattern that classifies documents by name (the seeded
//! tags use patterns such as `.*\.(png|gif|svg)`). The supported syntax is
//! a regular-expression core: literals, `.`, escapes, grouping, `|`, and
//! the postfix operators `*`, `+` and `?`. A document name matches when
//! some contiguous run of its characters belongs to the pattern's
//! language, as with an unanchored regular-expression search. A string
//! that is not a well-formed pattern matches nothing.

use vstd::prelude::*;

verus! {

/// The abstract syntax of a pattern.
#[derive(Debug)]
pub enum Pat {
    /// The empty word.
    Epsilon,
    /// Any single character.
    Any,
    /// One given character.
    Lit(char),
    /// A word of the first language followed by a word of the second.
    Concat(Box<Pat>, Box<Pat>),
    /// A word of either language.
    Alt(Box<Pat>, Box<Pat>),
    /// Zero or more words of the language, concatenated.
    Star(Box<Pat>),
}

/// A copy of the pattern.
pub fn pat_dup(p: &Pat) -> (r: Pat)
    ensures
        r == *p,
    decreases *p,
{
    match p {
        Pat::Epsilon => Pat::Epsilon,
        Pat::Any => Pat::Any,
        Pat::Lit(c) => Pat::Lit(*c),
        Pat::Concat(a, b) => Pat::Concat(Box::new(pat_dup(a)), Box::new(pat_dup(b))),
        Pat::Alt(a, b) => Pat::Alt(Box::new(pat_dup(a)), Box::new(pat_dup(b))),
        Pat::Star(a) => Pat::Star(Box::new(pat_dup(a))),
    }
}

/// Language membership: `s` belongs to the language of `p`.
pub open spec fn pat_matches(p: Pat, s: Seq<char>) -> bool
    decreases p, s.len(),
{
    match p {
        Pat::Epsilon => s.len() == 0,
        Pat::Any => s.len() == 1,
        Pat::Lit(c) => s.len() == 1 && s[0] == c,
        Pat::Concat(a, b) => exists|i: int|
            0 <= i <= s.len() && pat_matches(*a, #[trigger] s.take(i)) && pat_matches(
                *b,
                s.skip(i),
            ),
        Pat::Alt(a, b) => pat_matches(*a, s) || pat_matches(*b, s),
        Pat::Star(a) => s.len() == 0 || exists|i: int|
            1 <= i <= s.len() && pat_matches(*a, #[trigger] s.take(i)) && pat_matches(
                p,
                s.skip(i),
            ),
    }
}

/// Some contiguous run of `s` belongs to the language of `p`.
pub open spec fn pat_found(p: Pat, s: Seq<char>) -> bool {
    exists|i: int, j: int| 0 <= i <= j <= s.len() && pat_matches(p, #[trigger] s.subrange(i, j))
}

/// Whether the characters of `s` in `[lo, hi)` belong to the language of
/// `p`.
pub fn pat_match_range(p: &Pat, s: &Vec<char>, lo: usize, hi: usize) -> (r: bool)
    requires
        lo <= hi <= s@.len(),
    ensures
        r == pat_matches(*p, s@.subrange(lo as int, hi as int)),
    decreases *p, hi - lo,
{
    let ghost t = s@.subrange(lo as int, hi as int);
    match p {
        Pat::Epsilon => lo == hi,
        Pat::Any => hi - lo == 1,
        Pat::Lit(c) => {
            if hi - lo == 1 {
                proof {
                    assert(lo < s@.len());
                }
                s[lo] == *c
            } else {
                false
            }
        },
        Pat::Alt(a, b) => {
            let ra = pat_match_range(a, s, lo, hi);
            if ra {
                true
            } else {
                pat_match_range(b, s, lo, hi)
            }
        },
        Pat::Concat(a, b) => {
            let mut i = lo;
            loop
                invariant
                    *p == Pat::Concat(*a, *b),
                    lo <= i <= hi,
                    lo <= hi <= s@.len(),
                    t == s@.subrange(lo as int, hi as int),
                    forall|k: int|
                        0 <= k < i - lo ==> !(pat_matches(**a, #[trigger] t.take(k)) && pat_matches(
                            **b,
                            t.skip(k),
                        )),
                decreases hi - i,
            {
                proof {
                    assert(decreases_to!(*p => (*p)->Concat_0));
                    assert(decreases_to!(*p => (*p)->Concat_1));
                    assert(**a == *(*p)->Concat_0);
                    assert(**b == *(*p)->Concat_1);
                }
                let ra = pat_match_range(a, s, lo, i);
                let rb = pat_match_range(b, s, i, hi);
                proof {
                    assert(s@.subrange(lo as int, i as int) =~= t.take(i - lo));
                    assert(s@.subrange(i as int, hi as int) =~= t.skip(i - lo));
                }
                if ra && rb {
                    proof {
                        assert(0 <= i - lo <= t.len() && pat_matches(**a, t.take(i - lo))
                            && pat_matches(**b, t.skip(i - lo)));
                    }
                    return true;
                }
                if i == hi {
                    proof {
                        if pat_matches(*p, t) {
                            let j = choose|j: int|
                                0 <= j <= t.len() && pat_matches(**a, #[trigger] t.take(j))
                                    && pat_matches(**b, t.skip(j));
                            if j < i - lo {
                                assert(!(pat_matches(**a, t.take(j)) && pat_matches(
                                    **b,
                                    t.skip(j),
                                )));
                            }
                        }
                    }
                    return false;
                }
                i += 1;
            }
        },
        Pat::Star(a) => {
            if lo == hi {
                return true;
            }
            let mut i = lo + 1;
            loop
                invariant
                    *p == Pat::Star(*a),
                    lo + 1 <= i <= hi,
                    lo < hi <= s@.len(),
                    t == s@.subrange(lo as int, hi as int),
                    forall|k: int|
                        1 <= k < i - lo ==> !(pat_matches(**a, #[trigger] t.take(k)) && pat_matches(
                            *p,
                            t.skip(k),
                        )),
                decreases hi - i,
            {
                proof {
                    assert(decreases_to!(*p => (*p)->Star_0));
                    assert(**a == *(*p)->Star_0);
                }
                let ra = pat_match_range(a, s, lo, i);
                let rs = pat_match_range(p, s, i, hi);
                proof {
                    assert(s@.subrange(lo as int, i as int) =~= t.take(i - lo));
                    assert(s@.subrange(i as int, hi as int) =~= t.skip(i - lo));
                }
                if ra && rs {
                    proof {
                        assert(1 <= i - lo <= t.len() && pat_matches(**a, t.take(i - lo))
                            && pat_matches(*p, t.skip(i - lo)));
                    }
                    return true;
                }
                if i == hi {
                    proof {
                        if pat_matches(*p, t) {
                            assert(t.len() > 0);
                            let j = choose|j: int|
                                1 <= j <= t.len() && pat_matches(**a, #[trigger] t.take(j))
                                    && pat_matches(*p, t.skip(j));
                            if j < i - lo {
                                assert(!(pat_matches(**a, t.take(j)) && pat_matches(
                                    *p,
                                    t.skip(j),
                                )));
                            }
                        }
                    }
                    return false;
                }
                i += 1;
            }
        },
    }
}

/// Whether some run of `s` starting at `start` belongs to the language of
/// `p`.
fn pat_search_from(p: &Pat, s: &Vec<char>, start: usize) -> (r: bool)
    requires
        start <= s@.len(),
    ensures
        r == exists|b: int|
            start <= b <= s@.len() && pat_matches(*p, #[trigger] s@.subrange(start as int, b)),
{
    let n = s.len();
    let mut j: usize = start;
    loop
        invariant
            start <= j <= n,
            n == s@.len(),
            forall|b: int|
                start <= b < j ==> !pat_matches(*p, #[trigger] s@.subrange(start as int, b)),
        decreases n - j,
    {
        if pat_match_range(p, s, start, j) {
            return true;
        }
        if j == n {
            return false;
        }
        j += 1;
    }
}

/// Whether some contiguous run of `s` belongs to the language of `p`.
pub fn pat_search(p: &Pat, s: &Vec<char>) -> (r: bool)
    ensures
        r == pat_found(*p, s@),
{
    let n = s.len();
    let mut i: usize = 0;
    loop
        invariant
            i <= n,
            n == s@.len(),
            forall|a: int, b: int|
                0 <= a < i && a <= b <= s@.len() ==> !pat_matches(*p, #[trigger] s@.subrange(a, b)),
        decreases n - i,
    {
        if pat_search_from(p, s, i) {
            proof {
                let b = choose|b: int|
                    i <= b <= s@.len() && pat_matches(*p, #[trigger] s@.subrange(i as int, b));
                assert(0 <= i <= b <= s@.len() && pat_matches(*p, s@.subrange(i as int, b)));
            }
            return true;
        }
        if i == n {
            proof {
                if pat_found(*p, s@) {
                    let (a, b) = choose|a: int, b: int|
                        0 <= a <= b <= s@.len() && pat_matches(*p, #[trigger] s@.subrange(a, b));
                    if a < i {
                        assert(!pat_matches(*p, s@.subrange(a, b)));
                    } else {
                        assert(!pat_matches(*p, s@.subrange(i as int, b)));
                    }
                }
            }
            return false;
        }
        i += 1;
    }
}

/// The characters that have a syntactic role and cannot stand for
/// themselves outside an escape.
pub open spec fn is_meta(c: char) -> bool {
    c == '|' || c == '*' || c == '+' || c == '?' || c == '(' || c == ')' || c == '\\' || c == '.'
        || c == '[' || c == ']' || c == '^' || c == '$' || c == '{' || c == '}'
}

/// Parses one atom at `pos`: a group, `.`, an escape, or a literal.
/// Returns the pattern and the position after it.
pub open spec fn spec_parse_atom(s: Seq<char>, pos: int) -> Option<(Pat, int)>
    decreases s.len() - pos, 0int,
{
    if !(0 <= pos < s.len()) {
        None
    } else {
        let c = s[pos];
        if c == '(' {
            match spec_parse_alt(s, pos + 1) {
                None => None,
                Some((p, pos2)) => if pos + 1 <= pos2 <= s.len() && pos2 < s.len() && s[pos2]
                    == ')' {
                    Some((p, pos2 + 1))
                } else {
                    None
                },
            }
        } else if c == '.' {
            Some((Pat::Any, pos + 1))
        } else if c == '\\' {
            if pos + 1 < s.len() {
                Some((Pat::Lit(s[pos + 1]), pos + 2))
            } else {
                None
            }
        } else if is_meta(c) {
            None
        } else {
            Some((Pat::Lit(c), pos + 1))
        }
    }
}

/// Parses one atom with an optional postfix `*`, `+` or `?` at `pos`.
pub open spec fn spec_parse_rep(s: Seq<char>, pos: int) -> Option<(Pat, int)>
    decreases s.len() - pos, 1int,
{
    match spec_parse_atom(s, pos) {
        None => None,
        Some((p, pos2)) => if pos2 < s.len() && s[pos2] == '*' {
            Some((Pat::Star(Box::new(p)), pos2 + 1))
        } else if pos2 < s.len() && s[pos2] == '+' {
            Some((Pat::Concat(Box::new(p), Box::new(Pat::Star(Box::new(p)))), pos2 + 1))
        } else if pos2 < s.len() && s[pos2] == '?' {
            Some((Pat::Alt(Box::new(p), Box::new(Pat::Epsilon)), pos2 + 1))
        } else {
            Some((p, pos2))
        },
    }
}

/// Parses a possibly empty run of repetitions at `pos`, stopping before
/// `|`, `)` or the end.
pub open spec fn spec_parse_cat(s: Seq<char>, pos: int) -> Option<(Pat, int)>
    decreases s.len() - pos, 2int,
{
    if !(0 <= pos <= s.len()) {
        None
    } else if pos == s.len() || s[pos] == ')' || s[pos] == '|' {
        Some((Pat::Epsilon, pos))
    } else {
        match spec_parse_rep(s, pos) {
            None => None,
            Some((p, pos2)) => if pos < pos2 <= s.len() {
                match spec_parse_cat(s, pos2) {
                    None => None,
                    Some((q, pos3)) => Some((Pat::Concat(Box::new(p), Box::new(q)), pos3)),
                }
            } else {
                None
            },
        }
    }
}

/// Parses an alternation of concatenations at `pos`.
pub open spec fn spec_parse_alt(s: Seq<char>, pos: int) -> Option<(Pat, int)>
    decreases s.len() - pos, 3int,
{
    if !(0 <= pos <= s.len()) {
        None
    } else {
        match spec_parse_cat(s, pos) {
            None => None,
            Some((p, pos2)) => if !(pos <= pos2 <= s.len()) {
                None
            } else if pos2 < s.len() && s[pos2] == '|' {
                match spec_parse_alt(s, pos2 + 1) {
                    None => None,
                    Some((q, pos3)) => Some((Pat::Alt(Box::new(p), Box::new(q)), pos3)),
                }
            } else {
                Some((p, pos2))
            },
        }
    }
}

/// The pattern a string denotes, if it is well-formed.
pub open spec fn spec_parse(s: Seq<char>) -> Option<Pat> {
    match spec_parse_alt(s, 0) {
        None => None,
        Some((p, pos)) => if pos == s.len() {
            Some(p)
        } else {
            None
        },
    }
}

/// An exec parse step agrees with a spec parse step.
pub open spec fn step_matches(r: Option<(Pat, usize)>, sp: Option<(Pat, int)>) -> bool {
    match r {
        None => sp is None,
        Some((p, q)) => sp == Some((p, q as int)),
    }
}

/// Parses one atom at `pos`.
fn parse_atom(s: &Vec<char>, pos: usize) -> (r: Option<(Pat, usize)>)
    ensures
        step_matches(r, spec_parse_atom(s@, pos as int)),
    decreases s@.len() - pos, 0int,
{
    if pos >= s.len() {
        return None;
    }
    let c = s[pos];
    if c == '(' {
        match parse_alt(s, pos + 1) {
            None => None,
            Some((p, pos2)) => {
                if pos + 1 <= pos2 && pos2 < s.len() && s[pos2] == ')' {
                    Some((p, pos2 + 1))
                } else {
                    None
                }
            },
        }
    } else if c == '.' {
        Some((Pat::Any, pos + 1))
    } else if c == '\\' {
        if pos + 1 < s.len() {
            Some((Pat::Lit(s[pos + 1]), pos + 2))
        } else {
            None
        }
    } else if c == '|' || c == '*' || c == '+' || c == '?' || c == ')' || c == '[' || c == ']' || c
        == '^' || c == '$' || c == '{' || c == '}' {
        None
    } else {
        Some((Pat::Lit(c), pos + 1))
    }
}

/// Parses one atom with an optional postfix operator at `pos`.
fn parse_rep(s: &Vec<char>, pos: usize) -> (r: Option<(Pat, usize)>)
    ensures
        step_matches(r, spec_parse_rep(s@, pos as int)),
    decreases s@.len() - pos, 1int,
{
    match parse_atom(s, pos) {
        None => None,
        Some((p, pos2)) => {
            if pos2 < s.len() && s[pos2] == '*' {
                Some((Pat::Star(Box::new(p)), pos2 + 1))
            } else if pos2 < s.len() && s[pos2] == '+' {
                let q = pat_dup(&p);
                Some((Pat::Concat(Box::new(p), Box::new(Pat::Star(Box::new(q)))), pos2 + 1))
            } else if pos2 < s.len() && s[pos2] == '?' {
                Some((Pat::Alt(Box::new(p), Box::new(Pat::Epsilon)), pos2 + 1))
            } else {
                Some((p, pos2))
            }
        },
    }
}

/// Parses a run of repetitions at `pos`.
fn parse_cat(s: &Vec<char>, pos: usize) -> (r: Option<(Pat, usize)>)
    ensures
        step_matches(r, spec_parse_cat(s@, pos as int)),
    decreases s@.len() - pos, 2int,
{
    if pos >= s.len() {
        if pos == s.len() {
            return Some((Pat::Epsilon, pos));
        }
        return None;
    }
    if s[pos] == ')' || s[pos] == '|' {
        return Some((Pat::Epsilon, pos));
    }
    match parse_rep(s, pos) {
        None => None,
        Some((p, pos2)) => {
            if pos < pos2 && pos2 <= s.len() {
                match parse_cat(s, pos2) {
                    None => None,
                    Some((q, pos3)) => Some((Pat::Concat(Box::new(p), Box::new(q)), pos3)),
                }
            } else {
                None
            }
        },
    }
}

/// Parses an alternation at `pos`.
fn parse_alt(s: &Vec<char>, pos: usize) -> (r: Option<(Pat, usize)>)
    ensures
        step_matches(r, spec_parse_alt(s@, pos as int)),
    decreases s@.len() - pos, 3int,
{
    match parse_cat(s, pos) {
        None => None,
        Some((p, pos2)) => {
            if pos <= pos2 && pos2 < s.len() && s[pos2] == '|' {
                match parse_alt(s, pos2 + 1) {
                    None => None,
                    Some((q, pos3)) => Some((Pat::Alt(Box::new(p), Box::new(q)), pos3)),
                }
            } else if pos <= pos2 && pos2 <= s.len() {
                Some((p, pos2))
            } else {
                None
            }
        },
    }
}

/// The pattern the string denotes, if it is well-formed.
pub fn parse_pattern(s: &Vec<char>) -> (r: Option<Pat>)
    ensures
        match r {
            None => spec_parse(s@) is None,
            Some(p) => spec_parse(s@) == Some(p),
        },
{
    match parse_alt(s, 0) {
        None => None,
        Some((p, pos)) => {
            if pos == s.len() {
                Some(p)
            } else {
                None
            }
        },
    }
}

/// A name matches a pattern string: the string is well-formed and some
/// contiguous run of the name belongs to its language.
pub open spec fn spec_pattern_found(pattern: Seq<char>, name: Seq<char>) -> bool {
    match spec_parse(pattern) {
        None => false,
        Some(p) => pat_found(p, name),
    }
}

/// Whether `name` matches the pattern string `pattern`. A string that is
/// not a well-formed pattern matches nothing.
pub fn pattern_found(pattern: &str, name: &str) -> (r: bool)
    ensures
        r == spec_pattern_found(pattern@, name@),
{
    let pv = crate::strutil::chars_of(pattern);
    let nv = crate::strutil::chars_of(name);
    match parse_pattern(&pv) {
        None => false,
        Some(p) => pat_search(&p, &nv),
    }
}

} // verus!
