use vstd::prelude::*;

use crate::chars::chars_of;

verus! {

/// The classes of characters that the grammar reads runs of.
#[derive(Clone, Copy)]
pub enum CharClass {
    /// ASCII decimal digits.
    Digit,
    /// ASCII letters.
    Alpha,
    /// Space, tab, carriage return and line feed.
    Space,
}

pub open spec fn in_class(k: CharClass, c: char) -> bool {
    match k {
        CharClass::Digit => '0' <= c && c <= '9',
        CharClass::Alpha => ('a' <= c && c <= 'z') || ('A' <= c && c <= 'Z'),
        CharClass::Space => c == ' ' || c == '\t' || c == '\r' || c == '\n',
    }
}

/// The end of the longest run of characters of class `k` that starts at `i`.
pub open spec fn run_end(s: Seq<char>, i: int, k: CharClass) -> int
    decreases s.len() - i,
{
    if 0 <= i < s.len() && in_class(k, s[i]) {
        run_end(s, i + 1, k)
    } else {
        i
    }
}

/// Where a run of ASCII whitespace that starts at `i` ends.
pub open spec fn ws_end(s: Seq<char>, i: int) -> int {
    run_end(s, i, CharClass::Space)
}

/// A run of one to `n` digits at `i`, and not more: where it ends.
pub open spec fn max_digits(s: Seq<char>, i: int, n: int) -> Option<int> {
    let e = run_end(s, i, CharClass::Digit);
    if i < e && e - i <= n {
        Some(e)
    } else {
        None
    }
}

/// `c` read without regard to ASCII case equals `w`, a lower-case pattern character.
pub open spec fn ci_eq(c: char, w: char) -> bool {
    c == w || ('A' <= c && c <= 'Z' && (c as u32) + 32 == (w as u32))
}

/// Matches pattern `p` from its `k`-th character at `i`: a space in the pattern
/// skips any ASCII whitespace (possibly none); any other character matches
/// itself without regard to ASCII case. The end of the match, if any.
pub open spec fn pat_from(s: Seq<char>, i: int, p: Seq<char>, k: int) -> Option<int>
    decreases p.len() - k,
{
    if k < 0 || k >= p.len() {
        Some(i)
    } else if p[k] == ' ' {
        pat_from(s, ws_end(s, i), p, k + 1)
    } else if 0 <= i < s.len() && ci_eq(s[i], p[k]) {
        pat_from(s, i + 1, p, k + 1)
    } else {
        None
    }
}

/// Matches pattern `p` (see `pat_from`) at `i`: the end of the match.
pub open spec fn pat(s: Seq<char>, i: int, p: Seq<char>) -> Option<int> {
    pat_from(s, i, p, 0)
}

/// The first of the patterns `ps[k..]` that matches at `i`: the end of its match.
pub open spec fn alts_from(s: Seq<char>, i: int, ps: Seq<&str>, k: int) -> Option<int>
    decreases ps.len() - k,
{
    if k < 0 || k >= ps.len() {
        None
    } else {
        match pat(s, i, ps[k]@) {
            Some(e) => Some(e),
            None => alts_from(s, i, ps, k + 1),
        }
    }
}

/// The first of the patterns `ps` that matches at `i`: the end of its match.
pub open spec fn alts(s: Seq<char>, i: int, ps: Seq<&str>) -> Option<int> {
    alts_from(s, i, ps, 0)
}

pub proof fn lemma_run_end_bounds(s: Seq<char>, i: int, k: CharClass)
    requires
        0 <= i <= s.len(),
    ensures
        i <= run_end(s, i, k) <= s.len(),
        forall|j: int| i <= j < run_end(s, i, k) ==> in_class(k, #[trigger] s[j]),
        run_end(s, i, k) < s.len() ==> !in_class(k, s[run_end(s, i, k)]),
    decreases s.len() - i,
{
    if i < s.len() && in_class(k, s[i]) {
        lemma_run_end_bounds(s, i + 1, k);
    }
}

fn char_in(k: CharClass, c: char) -> (r: bool)
    ensures
        r == in_class(k, c),
{
    match k {
        CharClass::Digit => '0' <= c && c <= '9',
        CharClass::Alpha => ('a' <= c && c <= 'z') || ('A' <= c && c <= 'Z'),
        CharClass::Space => c == ' ' || c == '\t' || c == '\r' || c == '\n',
    }
}

fn ci_eq_exec(c: char, w: char) -> (r: bool)
    ensures
        r == ci_eq(c, w),
{
    c == w || ('A' <= c && c <= 'Z' && (c as u32) + 32 == (w as u32))
}

/// Skips the run of characters of class `k` that starts at `i`.
pub fn skip_run(t: &Vec<char>, i: usize, k: CharClass) -> (r: usize)
    requires
        i <= t@.len(),
    ensures
        r as int == run_end(t@, i as int, k),
        i <= r <= t@.len(),
{
    let mut j: usize = i;
    while j < t.len() && char_in(k, t[j])
        invariant
            i <= j <= t@.len(),
            run_end(t@, i as int, k) == run_end(t@, j as int, k),
        decreases t@.len() - j,
    {
        j = j + 1;
    }
    j
}

/// Matches pattern `p` (see `pat_from`) at `i`.
pub fn pat_at(t: &Vec<char>, i: usize, p: &str) -> (r: Option<usize>)
    requires
        i <= t@.len(),
    ensures
        r matches Some(e) ==> e as int == pat(t@, i as int, p@)->0,
        r is Some <==> pat(t@, i as int, p@) is Some,
        r matches Some(e) ==> i <= e <= t@.len(),
{
    let pc = chars_of(p);
    let mut j: usize = i;
    let mut k: usize = 0;
    while k < pc.len()
        invariant
            i <= j <= t@.len(),
            k <= pc@.len(),
            pc@ == p@,
            pat(t@, i as int, p@) == pat_from(t@, j as int, p@, k as int),
        decreases pc@.len() - k,
    {
        if pc[k] == ' ' {
            j = skip_run(t, j, CharClass::Space);
        } else if j < t.len() && ci_eq_exec(t[j], pc[k]) {
            j = j + 1;
        } else {
            return None;
        }
        k = k + 1;
    }
    Some(j)
}

/// The first of the patterns `ps` that matches at `i`: the end of its match.
pub fn alts_at(t: &Vec<char>, i: usize, ps: &[&str]) -> (r: Option<usize>)
    requires
        i <= t@.len(),
    ensures
        r matches Some(e) ==> e as int == alts(t@, i as int, ps@)->0,
        r is Some <==> alts(t@, i as int, ps@) is Some,
        r matches Some(e) ==> i <= e <= t@.len(),
{
    let mut k: usize = 0;
    while k < ps.len()
        invariant
            k <= ps@.len(),
            i <= t@.len(),
            alts(t@, i as int, ps@) == alts_from(t@, i as int, ps@, k as int),
        decreases ps@.len() - k,
    {
        let m = pat_at(t, i, ps[k]);
        if let Some(e) = m {
            return Some(e);
        }
        k = k + 1;
    }
    None
}


/// Lead words of the full-performance-level phrase.
pub open spec fn lead_words() -> Seq<&'static str> {
    seq!["full", "poll"]
}

/// What may follow the lead word: a leading space in a pattern lets whitespace
/// come first.
pub open spec fn level_words() -> Seq<&'static str> {
    seq![
        " career ladder grade",
        "grade",
        "peformance",
        "perf.",
        "perfformance",
        "performance",
        "performane",
        "perfromance",
        "perormance",
        "promotion",
    ]
}

/// Connective clauses that may stand between a phrase and its grade.
pub open spec fn connectives() -> Seq<&'static str> {
    seq![
        "-",
        ",",
        ":",
        "(fpl)",
        "(",
        "=",
        "at grade level",
        "at",
        "for this pd is",
        "for this position is",
        "is at the",
        "is at",
        "is level :",
        "is the",
        "management analyst",
        "is",
        "of a career ladder position",
        "of a",
        "of position is",
        "of position :",
        "of the position is",
        "of this pd is",
        "of this position is",
    ]
}

/// Connective clauses that may follow "target" or "targeted".
pub open spec fn target_words() -> Seq<&'static str> {
    seq!["to", "position ,", "position posted as at a"]
}

/// A grade token at `i`: `(rest, lo, hi)`, where the grade is `s[lo..hi]` and
/// the text after the token starts at `rest`.
///
/// Either one or two digits, or a two-letter pay plan, an optional separator
/// (space, hyphen or period) and an optional space, then: after no separator
/// or a space, one or two digits; after a hyphen or period, a run of at most
/// four digits that is the grade when the same separator and one or two
/// digits do not follow it (then those digits are the grade), and only if it
/// has at most two digits.
pub open spec fn grade_at(s: Seq<char>, i: int) -> Option<(int, int, int)> {
    match max_digits(s, i, 2) {
        Some(e) => Some((e, i, e)),
        None => {
            let a = run_end(s, i, CharClass::Alpha);
            if a - i != 2 {
                None
            } else {
                let has_sep = a < s.len() && (s[a] == ' ' || s[a] == '-' || s[a] == '.');
                let b = if has_sep {
                    a + 1
                } else {
                    a
                };
                let j = if b < s.len() && s[b] == ' ' {
                    b + 1
                } else {
                    b
                };
                if !has_sep || s[a] == ' ' {
                    match max_digits(s, j, 2) {
                        Some(e) => Some((e, j, e)),
                        None => None,
                    }
                } else {
                    match max_digits(s, j, 4) {
                        None => None,
                        Some(e) => if e < s.len() && s[e] == s[a] && max_digits(s, e + 1, 2) is Some {
                            let g = max_digits(s, e + 1, 2)->0;
                            Some((g, e + 1, g))
                        } else if e - j <= 2 {
                            Some((e, j, e))
                        } else {
                            None
                        },
                    }
                }
            }
        },
    }
}

/// Skips whitespace, at most one "," or "/", and whitespace again.
pub open spec fn skip_sep(s: Seq<char>, r: int) -> int {
    let a = ws_end(s, r);
    let b = if a < s.len() && (s[a] == ',' || s[a] == '/') {
        a + 1
    } else {
        a
    };
    ws_end(s, b)
}

/// Continues a grade chain whose last grade is `s[lo..hi]` and whose text goes
/// on at `r`: each further grade token replaces the one held.
pub open spec fn chain_from(s: Seq<char>, r: int, lo: int, hi: int) -> (int, int, int)
    decreases s.len() - r,
{
    let p = skip_sep(s, r);
    match grade_at(s, p) {
        Some(g) => if r < g.0 <= s.len() {
            chain_from(s, g.0, g.1, g.2)
        } else {
            (p, lo, hi)
        },
        None => (p, lo, hi),
    }
}

/// A grade chain at `i`: the last of its grades.
pub open spec fn chain_at(s: Seq<char>, i: int) -> Option<(int, int, int)> {
    match grade_at(s, i) {
        Some(g) => Some(chain_from(s, g.0, g.1, g.2)),
        None => None,
    }
}

/// The full-performance-level phrase at `i`: where it ends.
pub open spec fn fpl_at(s: Seq<char>, i: int) -> Option<int> {
    match pat(s, i, "fpl"@) {
        Some(e) => Some(e),
        None => match alts(s, i, lead_words()) {
            None => None,
            Some(a) => {
                let b = if a < s.len() && (s[a] == ' ' || s[a] == '-') {
                    a + 1
                } else {
                    a
                };
                match alts(s, b, level_words()) {
                    None => None,
                    Some(c) => {
                        let d = ws_end(s, c);
                        match pat(s, d, "level"@) {
                            Some(e) => Some(e),
                            None => Some(d),
                        }
                    },
                }
            },
        },
    }
}

/// The phrase, an optional connective, and a grade chain, at `i`.
pub open spec fn fpl_grade_at(s: Seq<char>, i: int) -> Option<(int, int, int)> {
    match fpl_at(s, i) {
        None => None,
        Some(a) => {
            let b = ws_end(s, a);
            let c = match alts(s, b, connectives()) {
                Some(x) => x,
                None => b,
            };
            chain_at(s, ws_end(s, c))
        },
    }
}

/// "target" or "targeted", an optional connective, and a grade chain, at `i`.
pub open spec fn target_grade_at(s: Seq<char>, i: int) -> Option<(int, int, int)> {
    match pat(s, i, "target"@) {
        None => None,
        Some(a) => {
            let b = match pat(s, a, "ed"@) {
                Some(x) => x,
                None => a,
            };
            let c = ws_end(s, b);
            let d = match alts(s, c, target_words()) {
                Some(x) => x,
                None => c,
            };
            chain_at(s, ws_end(s, d))
        },
    }
}

/// A position or a token found in exec code, read as integers.
pub open spec fn pos_of(r: Option<usize>) -> Option<int> {
    match r {
        Some(e) => Some(e as int),
        None => None,
    }
}

/// A grade token found in exec code, read as integers.
pub open spec fn tok_of(r: Option<(usize, usize, usize)>) -> Option<(int, int, int)> {
    match r {
        Some(g) => Some((g.0 as int, g.1 as int, g.2 as int)),
        None => None,
    }
}

pub proof fn lemma_grade_bounds(s: Seq<char>, i: int)
    requires
        0 <= i <= s.len(),
    ensures
        grade_at(s, i) matches Some(g) ==> i <= g.1 < g.2 <= g.0 <= s.len() && g.2 - g.1
            <= 2 && forall|j: int| g.1 <= j < g.2 ==> in_class(CharClass::Digit, #[trigger] s[j]),
{
    lemma_run_end_bounds(s, i, CharClass::Digit);
    lemma_run_end_bounds(s, i, CharClass::Alpha);
    let a = run_end(s, i, CharClass::Alpha);
    if a - i == 2 {
        if a < s.len() {
            lemma_run_end_bounds(s, a + 1, CharClass::Digit);
            if a + 1 < s.len() {
                lemma_run_end_bounds(s, a + 2, CharClass::Digit);
            }
        }
        lemma_run_end_bounds(s, a, CharClass::Digit);
        if a + 1 <= s.len() {
            lemma_run_end_bounds(s, a + 1, CharClass::Digit);
        }
        let has_sep = a < s.len() && (s[a] == ' ' || s[a] == '-' || s[a] == '.');
        let b = if has_sep {
            a + 1
        } else {
            a
        };
        let j = if b < s.len() && s[b] == ' ' {
            b + 1
        } else {
            b
        };
        lemma_run_end_bounds(s, j, CharClass::Digit);
        let e = run_end(s, j, CharClass::Digit);
        if e < s.len() {
            lemma_run_end_bounds(s, e + 1, CharClass::Digit);
        }
    }
}

pub proof fn lemma_skip_sep_bounds(s: Seq<char>, r: int)
    requires
        0 <= r <= s.len(),
    ensures
        r <= skip_sep(s, r) <= s.len(),
{
    lemma_run_end_bounds(s, r, CharClass::Space);
    let a = ws_end(s, r);
    lemma_run_end_bounds(s, a, CharClass::Space);
    if a < s.len() {
        lemma_run_end_bounds(s, a + 1, CharClass::Space);
    }
}

fn max_digits_exec(t: &Vec<char>, i: usize, n: usize) -> (r: Option<usize>)
    requires
        i <= t@.len(),
    ensures
        pos_of(r) == max_digits(t@, i as int, n as int),
{
    let e = skip_run(t, i, CharClass::Digit);
    if i < e && e - i <= n {
        Some(e)
    } else {
        None
    }
}

/// Parses a grade token (see `grade_at`) at `i`.
pub fn grade_tok(t: &Vec<char>, i: usize) -> (r: Option<(usize, usize, usize)>)
    requires
        i <= t@.len(),
    ensures
        tok_of(r) == grade_at(t@, i as int),
{
    proof {
        lemma_grade_bounds(t@, i as int);
    }
    if let Some(e) = max_digits_exec(t, i, 2) {
        return Some((e, i, e));
    }
    let a = skip_run(t, i, CharClass::Alpha);
    if a - i != 2 {
        return None;
    }
    let has_sep = a < t.len() && (t[a] == ' ' || t[a] == '-' || t[a] == '.');
    let b = if has_sep {
        a + 1
    } else {
        a
    };
    let j = if b < t.len() && t[b] == ' ' {
        b + 1
    } else {
        b
    };
    if !has_sep || t[a] == ' ' {
        match max_digits_exec(t, j, 2) {
            Some(e) => Some((e, j, e)),
            None => None,
        }
    } else {
        match max_digits_exec(t, j, 4) {
            None => None,
            Some(e) => {
                if e < t.len() && t[e] == t[a] {
                    if let Some(g) = max_digits_exec(t, e + 1, 2) {
                        return Some((g, e + 1, g));
                    }
                }
                if e - j <= 2 {
                    Some((e, j, e))
                } else {
                    None
                }
            },
        }
    }
}

fn skip_sep_exec(t: &Vec<char>, r: usize) -> (p: usize)
    requires
        r <= t@.len(),
    ensures
        p as int == skip_sep(t@, r as int),
{
    let a = skip_run(t, r, CharClass::Space);
    let b = if a < t.len() && (t[a] == ',' || t[a] == '/') {
        a + 1
    } else {
        a
    };
    skip_run(t, b, CharClass::Space)
}

/// Parses a grade chain (see `chain_at`) at `i`, keeping its last grade.
pub fn chain_tok(t: &Vec<char>, i: usize) -> (r: Option<(usize, usize, usize)>)
    requires
        i <= t@.len(),
    ensures
        tok_of(r) == chain_at(t@, i as int),
        r matches Some(g) ==> g.1 < g.2 <= g.0 <= t@.len(),
{
    let first = grade_tok(t, i);
    match first {
        None => None,
        Some(g0) => {
            proof {
                lemma_grade_bounds(t@, i as int);
            }
            let mut cur = g0;
            loop
                invariant
                    0 <= cur.1 < cur.2 <= cur.0 <= t@.len(),
                    chain_at(t@, i as int) == Some(
                        chain_from(t@, cur.0 as int, cur.1 as int, cur.2 as int),
                    ),
                decreases t@.len() - cur.0,
            {
                let p = skip_sep_exec(t, cur.0);
                proof {
                    lemma_skip_sep_bounds(t@, cur.0 as int);
                    lemma_grade_bounds(t@, p as int);
                }
                match grade_tok(t, p) {
                    Some(g) => {
                        cur = g;
                    },
                    None => {
                        return Some((p, cur.1, cur.2));
                    },
                }
            }
        },
    }
}

fn lead_words_exec() -> (r: [&'static str; 2])
    ensures
        r@ == lead_words(),
{
    let r = ["full", "poll"];
    assert(r@ =~= lead_words());
    r
}

fn level_words_exec() -> (r: [&'static str; 10])
    ensures
        r@ == level_words(),
{
    let r = [
        " career ladder grade",
        "grade",
        "peformance",
        "perf.",
        "perfformance",
        "performance",
        "performane",
        "perfromance",
        "perormance",
        "promotion",
    ];
    assert(r@ =~= level_words());
    r
}

fn connectives_exec() -> (r: [&'static str; 23])
    ensures
        r@ == connectives(),
{
    let r = [
        "-",
        ",",
        ":",
        "(fpl)",
        "(",
        "=",
        "at grade level",
        "at",
        "for this pd is",
        "for this position is",
        "is at the",
        "is at",
        "is level :",
        "is the",
        "management analyst",
        "is",
        "of a career ladder position",
        "of a",
        "of position is",
        "of position :",
        "of the position is",
        "of this pd is",
        "of this position is",
    ];
    assert(r@ =~= connectives());
    r
}

fn target_words_exec() -> (r: [&'static str; 3])
    ensures
        r@ == target_words(),
{
    let r = ["to", "position ,", "position posted as at a"];
    assert(r@ =~= target_words());
    r
}

/// Matches the full-performance-level phrase (see `fpl_at`) at `i`.
pub fn fpl_end(t: &Vec<char>, i: usize) -> (r: Option<usize>)
    requires
        i <= t@.len(),
    ensures
        pos_of(r) == fpl_at(t@, i as int),
        r matches Some(e) ==> i <= e <= t@.len(),
{
    if let Some(e) = pat_at(t, i, "fpl") {
        return Some(e);
    }
    let lead = lead_words_exec();
    let a = match alts_at(t, i, &lead) {
        None => {
            return None;
        },
        Some(a) => a,
    };
    let b = if a < t.len() && (t[a] == ' ' || t[a] == '-') {
        a + 1
    } else {
        a
    };
    let level = level_words_exec();
    let c = match alts_at(t, b, &level) {
        None => {
            return None;
        },
        Some(c) => c,
    };
    let d = skip_run(t, c, CharClass::Space);
    match pat_at(t, d, "level") {
        Some(e) => Some(e),
        None => Some(d),
    }
}

/// Parses the phrase, an optional connective and a grade chain (see
/// `fpl_grade_at`) at `i`.
pub fn fpl_grade_tok(t: &Vec<char>, i: usize) -> (r: Option<(usize, usize, usize)>)
    requires
        i <= t@.len(),
    ensures
        tok_of(r) == fpl_grade_at(t@, i as int),
        r matches Some(g) ==> g.1 < g.2 <= g.0 <= t@.len(),
{
    let a = match fpl_end(t, i) {
        None => {
            return None;
        },
        Some(a) => a,
    };
    let b = skip_run(t, a, CharClass::Space);
    let conn = connectives_exec();
    let c = match alts_at(t, b, &conn) {
        Some(x) => x,
        None => b,
    };
    let d = skip_run(t, c, CharClass::Space);
    chain_tok(t, d)
}

/// Parses "target" or "targeted", an optional connective and a grade chain
/// (see `target_grade_at`) at `i`.
pub fn target_grade_tok(t: &Vec<char>, i: usize) -> (r: Option<(usize, usize, usize)>)
    requires
        i <= t@.len(),
    ensures
        tok_of(r) == target_grade_at(t@, i as int),
        r matches Some(g) ==> g.1 < g.2 <= g.0 <= t@.len(),
{
    let a = match pat_at(t, i, "target") {
        None => {
            return None;
        },
        Some(a) => a,
    };
    let b = match pat_at(t, a, "ed") {
        Some(x) => x,
        None => a,
    };
    let c = skip_run(t, b, CharClass::Space);
    let words = target_words_exec();
    let d = match alts_at(t, c, &words) {
        Some(x) => x,
        None => c,
    };
    let e = skip_run(t, d, CharClass::Space);
    chain_tok(t, e)
}

} // verus!
