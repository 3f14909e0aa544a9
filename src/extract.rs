use vstd::prelude::*;

use crate::chars::{chars_of, slice_chars, string_of};
use crate::grammar::{
    chain_at, chain_tok, fpl_at, fpl_end, fpl_grade_at, fpl_grade_tok, grade_at, grade_tok,
    lemma_grade_bounds, target_grade_at, target_grade_tok, tok_of,
};

verus! {

/// The two phrase families that a scan looks for.
#[derive(Clone, Copy)]
pub enum Family {
    /// "full performance level", "fpl" and their variants.
    Phrase,
    /// "target" and "targeted".
    Target,
}

/// One attempt of a family at position `i`: phrase, connective and grade chain.
pub open spec fn attempt(s: Seq<char>, i: int, f: Family) -> Option<(int, int, int)> {
    match f {
        Family::Phrase => fpl_grade_at(s, i),
        Family::Target => target_grade_at(s, i),
    }
}

/// The first position from `i` on (up to the end of the text, inclusive) at
/// which an attempt of family `f` succeeds, and what it found.
pub open spec fn scan(s: Seq<char>, i: int, f: Family) -> Option<(int, int, int)>
    decreases s.len() - i,
{
    if i < 0 || i > s.len() {
        None
    } else {
        match attempt(s, i, f) {
            Some(g) => Some(g),
            None => if i < s.len() {
                scan(s, i + 1, f)
            } else {
                None
            },
        }
    }
}

/// The grade token that extraction settles on: the first family's scan, else
/// the second's.
pub open spec fn extract(s: Seq<char>) -> Option<(int, int, int)> {
    match scan(s, 0, Family::Phrase) {
        Some(g) => Some(g),
        None => scan(s, 0, Family::Target),
    }
}

/// The grade extracted from a text, if any.
pub open spec fn extract_grade(s: Seq<char>) -> Option<Seq<char>> {
    match extract(s) {
        Some(g) => Some(s.subrange(g.1, g.2)),
        None => None,
    }
}

/// A text cut around its extracted grade.
pub struct MatchSpan {
    /// The text before the grade.
    pub prefix: String,
    /// The grade itself.
    pub matched: String,
    /// The text after the grade.
    pub suffix: String,
}

fn attempt_tok(t: &Vec<char>, i: usize, f: Family) -> (r: Option<(usize, usize, usize)>)
    requires
        i <= t@.len(),
    ensures
        tok_of(r) == attempt(t@, i as int, f),
        r matches Some(g) ==> g.1 < g.2 <= g.0 <= t@.len(),
{
    match f {
        Family::Phrase => fpl_grade_tok(t, i),
        Family::Target => target_grade_tok(t, i),
    }
}

fn scan_tok(t: &Vec<char>, f: Family) -> (r: Option<(usize, usize, usize)>)
    ensures
        tok_of(r) == scan(t@, 0, f),
        r matches Some(g) ==> g.1 < g.2 <= g.0 <= t@.len(),
{
    let mut i: usize = 0;
    loop
        invariant
            i <= t@.len(),
            scan(t@, 0, f) == scan(t@, i as int, f),
        decreases t@.len() - i,
    {
        match attempt_tok(t, i, f) {
            Some(g) => {
                return Some(g);
            },
            None => {
                if i < t.len() {
                    i = i + 1;
                } else {
                    return None;
                }
            },
        }
    }
}

fn extract_tok(t: &Vec<char>) -> (r: Option<(usize, usize, usize)>)
    ensures
        tok_of(r) == extract(t@),
        r matches Some(g) ==> g.1 < g.2 <= g.0 <= t@.len(),
{
    match scan_tok(t, Family::Phrase) {
        Some(g) => Some(g),
        None => scan_tok(t, Family::Target),
    }
}

/// The full-performance-level grade of a text: the first place where the
/// phrase, an optional connective and a grade chain follow each other, or,
/// where there is none, the first place where "target" does; the last grade
/// of that chain.
pub fn get_fpl_grade(s: &str) -> (r: Option<String>)
    ensures
        r is Some <==> extract_grade(s@) is Some,
        r matches Some(g) ==> g@ == extract_grade(s@)->0,
{
    let t = chars_of(s);
    match extract_tok(&t) {
        None => None,
        Some(g) => Some(string_of(&slice_chars(&t, g.1, g.2))),
    }
}

/// The text cut around its extracted grade, for highlighting.
pub fn get_match_prefix_and_suffix(s: &str) -> (r: Option<MatchSpan>)
    ensures
        r is Some <==> extract(s@) is Some,
        r matches Some(m) ==> ({
            let g = extract(s@)->0;
            &&& m.prefix@ == s@.subrange(0, g.1)
            &&& m.matched@ == s@.subrange(g.1, g.2)
            &&& m.suffix@ == s@.subrange(g.2, s@.len() as int)
            &&& Some(m.matched@) == extract_grade(s@)
            &&& m.prefix@ + m.matched@ + m.suffix@ == s@
        }),
{
    let t = chars_of(s);
    match extract_tok(&t) {
        None => None,
        Some(g) => {
            let prefix = string_of(&slice_chars(&t, 0, g.1));
            let matched = string_of(&slice_chars(&t, g.1, g.2));
            let suffix = string_of(&slice_chars(&t, g.2, t.len()));
            assert(prefix@ + matched@ + suffix@ =~= s@);
            Some(MatchSpan { prefix, matched, suffix })
        },
    }
}

/// What is left of `t` from `rest` on, and what stands between `lo` and `hi`.
fn split_tok(t: &Vec<char>, rest: usize, lo: usize, hi: usize) -> (r: (String, String))
    requires
        rest <= t@.len(),
        lo <= hi <= t@.len(),
    ensures
        r.0@ == t@.subrange(rest as int, t@.len() as int),
        r.1@ == t@.subrange(lo as int, hi as int),
{
    (string_of(&slice_chars(t, rest, t.len())), string_of(&slice_chars(t, lo, hi)))
}

/// Matches the full-performance-level phrase at the start of `s`: the rest of
/// the text and the phrase as it stands there.
pub fn fpl(s: &str) -> (r: Option<(String, String)>)
    ensures
        r is Some <==> fpl_at(s@, 0) is Some,
        r matches Some(p) ==> ({
            let e = fpl_at(s@, 0)->0;
            &&& p.0@ == s@.subrange(e, s@.len() as int)
            &&& p.1@ == s@.subrange(0, e)
        }),
{
    let t = chars_of(s);
    match fpl_end(&t, 0) {
        None => None,
        Some(e) => Some(split_tok(&t, e, 0, e)),
    }
}

/// A token of the form `(rest, lo, hi)` at the start of `s`, as the rest of
/// the text and the grade.
pub open spec fn tok_parts(s: Seq<char>, g: (int, int, int)) -> (Seq<char>, Seq<char>) {
    (s.subrange(g.0, s.len() as int), s.subrange(g.1, g.2))
}

/// Parses a grade token at the start of `s`: the rest of the text and the grade.
pub fn grade(s: &str) -> (r: Option<(String, String)>)
    ensures
        r is Some <==> grade_at(s@, 0) is Some,
        r matches Some(p) ==> (p.0@, p.1@) == tok_parts(s@, grade_at(s@, 0)->0),
{
    let t = chars_of(s);
    proof {
        lemma_grade_bounds(t@, 0);
    }
    match grade_tok(&t, 0) {
        None => None,
        Some(g) => Some(split_tok(&t, g.0, g.1, g.2)),
    }
}

/// Parses a grade chain at the start of `s`: the rest of the text and the
/// last grade of the chain.
pub fn max_grade(s: &str) -> (r: Option<(String, String)>)
    ensures
        r is Some <==> chain_at(s@, 0) is Some,
        r matches Some(p) ==> (p.0@, p.1@) == tok_parts(s@, chain_at(s@, 0)->0),
{
    let t = chars_of(s);
    match chain_tok(&t, 0) {
        None => None,
        Some(g) => Some(split_tok(&t, g.0, g.1, g.2)),
    }
}

/// Parses the phrase, a connective and a grade chain at the start of `s`.
pub fn fpl_grade(s: &str) -> (r: Option<(String, String)>)
    ensures
        r is Some <==> fpl_grade_at(s@, 0) is Some,
        r matches Some(p) ==> (p.0@, p.1@) == tok_parts(s@, fpl_grade_at(s@, 0)->0),
{
    let t = chars_of(s);
    match fpl_grade_tok(&t, 0) {
        None => None,
        Some(g) => Some(split_tok(&t, g.0, g.1, g.2)),
    }
}

/// Parses "target" or "targeted", a connective and a grade chain at the start
/// of `s`.
pub fn target_grade(s: &str) -> (r: Option<(String, String)>)
    ensures
        r is Some <==> target_grade_at(s@, 0) is Some,
        r matches Some(p) ==> (p.0@, p.1@) == tok_parts(s@, target_grade_at(s@, 0)->0),
{
    let t = chars_of(s);
    match target_grade_tok(&t, 0) {
        None => None,
        Some(g) => Some(split_tok(&t, g.0, g.1, g.2)),
    }
}

} // verus!
