use vstd::prelude::*;

use crate::extract::{attempt, extract, extract_grade, scan, Family};
use crate::grammar::{
    alts, alts_from, ci_eq, fpl_at, fpl_grade_at, lead_words, level_words, pat, pat_from,
    target_grade_at,
};

verus! {

/// `w` stands in `s` at `i`, read without regard to ASCII case.
pub open spec fn occurs_at(s: Seq<char>, i: int, w: Seq<char>) -> bool {
    &&& 0 <= i
    &&& i + w.len() <= s.len()
    &&& forall|m: int| 0 <= m < w.len() ==> ci_eq(#[trigger] s[i + m], w[m])
}

/// The keywords that every phrase family starts with.
pub open spec fn keyword_at(s: Seq<char>, i: int) -> bool {
    occurs_at(s, i, "fpl"@) || occurs_at(s, i, "full"@) || occurs_at(s, i, "poll"@) || occurs_at(
        s,
        i,
        "target"@,
    )
}

/// No phrase-family keyword stands anywhere in `s`.
pub open spec fn has_no_keyword(s: Seq<char>) -> bool {
    forall|i: int| 0 <= i <= s.len() ==> !#[trigger] keyword_at(s, i)
}

/// The spellings of "performance" that the phrase accepts.
pub open spec fn performance_spellings() -> Seq<&'static str> {
    seq!["peformance", "perf.", "perfformance", "performance", "performane", "perfromance", "perormance"]
}

/// `w` holds no space, so that as a pattern it matches itself alone.
pub open spec fn no_space(w: Seq<char>) -> bool {
    forall|m: int| 0 <= m < w.len() ==> w[m] != ' '
}

proof fn lemma_pat_plain(s: Seq<char>, i: int, w: Seq<char>, k: int)
    requires
        0 <= k <= w.len(),
        0 <= i <= s.len(),
        no_space(w),
    ensures
        pat_from(s, i, w, k) is Some ==> i + (w.len() - k) <= s.len() && forall|m: int|
            k <= m < w.len() ==> ci_eq(#[trigger] s[i + m - k], w[m]),
        pat_from(s, i, w, k) is Some <== i + (w.len() - k) <= s.len() && forall|m: int|
            k <= m < w.len() ==> ci_eq(#[trigger] s[i + m - k], w[m]),
    decreases w.len() - k,
{
    if k < w.len() && i < s.len() {
        lemma_pat_plain(s, i + 1, w, k + 1);
        if pat_from(s, i, w, k) is Some {
            assert forall|m: int| k <= m < w.len() implies ci_eq(#[trigger] s[i + m - k], w[m]) by {
                if m > k {
                    assert(s[(i + 1) + m - (k + 1)] == s[i + m - k]);
                }
            }
        }
        if i + (w.len() - k) <= s.len() && forall|m: int|
            k <= m < w.len() ==> ci_eq(#[trigger] s[i + m - k], w[m]) {
            assert(ci_eq(s[i + k - k], w[k]));
            assert forall|m: int| k + 1 <= m < w.len() implies ci_eq(
                #[trigger] s[(i + 1) + m - (k + 1)],
                w[m],
            ) by {
                assert(s[(i + 1) + m - (k + 1)] == s[i + m - k]);
            }
        }
    }
}

/// A pattern without spaces matches exactly where it occurs.
proof fn lemma_pat_occurs(s: Seq<char>, i: int, w: Seq<char>)
    requires
        0 <= i <= s.len(),
        no_space(w),
    ensures
        pat(s, i, w) is Some <==> occurs_at(s, i, w),
{
    lemma_pat_plain(s, i, w, 0);
    if occurs_at(s, i, w) {
        assert forall|m: int| 0 <= m < w.len() implies ci_eq(#[trigger] s[i + m - 0], w[m]) by {
            assert(ci_eq(s[i + m], w[m]));
        }
    }
    if pat(s, i, w) is Some {
        assert forall|m: int| 0 <= m < w.len() implies ci_eq(#[trigger] s[i + m], w[m]) by {
            assert(ci_eq(s[i + m - 0], w[m]));
        }
    }
}

proof fn lemma_attempt_needs_keyword(s: Seq<char>, i: int, f: Family)
    requires
        0 <= i <= s.len(),
    ensures
        attempt(s, i, f) is Some ==> keyword_at(s, i),
{
    reveal_strlit("fpl");
    reveal_strlit("full");
    reveal_strlit("poll");
    reveal_strlit("target");
    lemma_pat_occurs(s, i, "fpl"@);
    lemma_pat_occurs(s, i, "full"@);
    lemma_pat_occurs(s, i, "poll"@);
    lemma_pat_occurs(s, i, "target"@);
    assert(lead_words()[0]@ == "full"@);
    assert(lead_words()[1]@ == "poll"@);
    reveal_with_fuel(alts_from, 3);
    assert(alts(s, i, lead_words()) is Some ==> pat(s, i, "full"@) is Some || pat(s, i, "poll"@)
        is Some);
}

proof fn lemma_scan_none(s: Seq<char>, i: int, f: Family)
    requires
        0 <= i,
        has_no_keyword(s),
    ensures
        scan(s, i, f) is None,
    decreases s.len() - i,
{
    if i <= s.len() {
        lemma_attempt_needs_keyword(s, i, f);
        assert(!keyword_at(s, i));
        if i < s.len() {
            lemma_scan_none(s, i + 1, f);
        }
    }
}

/// A text in which no phrase-family keyword ("fpl", "full", "poll",
/// "target") stands, in any case, yields no grade.
pub proof fn lemma_no_keyword_no_grade(s: Seq<char>)
    requires
        has_no_keyword(s),
    ensures
        extract(s) is None,
        extract_grade(s) is None,
{
    lemma_scan_none(s, 0, Family::Phrase);
    lemma_scan_none(s, 0, Family::Target);
}

proof fn lemma_alts_some(s: Seq<char>, i: int, ps: Seq<&str>, k0: int, k: int)
    requires
        0 <= k0 <= k < ps.len(),
        pat(s, i, ps[k]@) is Some,
    ensures
        alts_from(s, i, ps, k0) is Some,
    decreases k - k0,
{
    if k0 < k {
        lemma_alts_some(s, i, ps, k0 + 1, k);
    }
}

/// "full", a space and any accepted spelling of "performance" make a
/// full-performance-level phrase.
pub proof fn lemma_performance_spelling_matches(s: Seq<char>, i: int, k: int)
    requires
        0 <= k < performance_spellings().len(),
        occurs_at(s, i, "full"@),
        i + 4 < s.len(),
        s[i + 4] == ' ',
        occurs_at(s, i + 5, performance_spellings()[k]@),
    ensures
        fpl_at(s, i) is Some,
{
    reveal_strlit("full");
    reveal_strlit("peformance");
    reveal_strlit("perf.");
    reveal_strlit("perfformance");
    reveal_strlit("performance");
    reveal_strlit("performane");
    reveal_strlit("perfromance");
    reveal_strlit("perormance");
    let w = performance_spellings()[k]@;
    assert(level_words()[k + 2] == performance_spellings()[k]);
    assert(no_space(w));
    lemma_pat_occurs(s, i, "full"@);
    lemma_pat_occurs(s, i + 5, w);
    lemma_pat_plain(s, i, "full"@, 0);
    assert(lead_words()[0]@ == "full"@);
    if pat(s, i, "fpl"@) is None {
        assert(pat(s, i, "full"@) == Some(i + 4)) by {
            reveal_with_fuel(pat_from, 5);
        }
        assert(alts(s, i, lead_words()) == Some(i + 4));
        lemma_alts_some(s, i + 5, level_words(), 0, k + 2);
    }
}

} // verus!
