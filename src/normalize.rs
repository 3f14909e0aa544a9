use vstd::prelude::*;

use crate::chars::{chars_of, string_of};

verus! {

/// Characters with the Unicode `White_Space` property.
pub open spec fn is_white_space(c: char) -> bool {
    ('\t' <= c && c <= '\r') || c == ' ' || c == '\u{85}' || c == '\u{a0}' || c == '\u{1680}'
        || ('\u{2000}' <= c && c <= '\u{200a}') || c == '\u{2028}' || c == '\u{2029}' || c
        == '\u{202f}' || c == '\u{205f}' || c == '\u{3000}'
}

/// Relies on `char::is_whitespace`: true of the characters with the Unicode
/// `White_Space` property.
#[verifier::external_body]
fn is_whitespace(c: char) -> (r: bool)
    ensures
        r == is_white_space(c),
{
    c.is_whitespace()
}

/// What `str::to_lowercase` makes of a sequence of characters.
pub uninterp spec fn lower_of(s: Seq<char>) -> Seq<char>;

/// Relies on `str::to_lowercase`: the lower-case form of the text, which
/// depends on its characters alone; an empty text stays empty.
#[verifier::external_body]
fn lowercase(s: &str) -> (r: String)
    ensures
        r@ == lower_of(s@),
        s@.len() == 0 ==> r@.len() == 0,
{
    s.to_lowercase()
}

/// Whitespace collapsing from position `i`, in state `st`: 0 before the first
/// word, 1 inside a word, 2 in a gap after a word. Runs of whitespace between
/// words become one space; whitespace before the first word or after the
/// last is dropped.
pub open spec fn collapse_from(s: Seq<char>, i: int, st: int) -> Seq<char>
    decreases s.len() - i,
{
    if i < 0 || i >= s.len() {
        Seq::empty()
    } else if is_white_space(s[i]) {
        collapse_from(s, i + 1, if st == 0 { 0 } else { 2 })
    } else {
        let lead = if st == 2 { seq![' '] } else { Seq::empty() };
        lead + seq![s[i]] + collapse_from(s, i + 1, 1)
    }
}

/// The words of `s` joined by single spaces.
pub open spec fn collapse(s: Seq<char>) -> Seq<char> {
    collapse_from(s, 0, 0)
}

/// The normalized form of a text: its words joined by single spaces, lower-cased.
pub open spec fn normalized(s: Seq<char>) -> Seq<char> {
    lower_of(collapse(s))
}

proof fn lemma_collapse_shift(p: Seq<char>, w: Seq<char>, i: int, st: int)
    requires
        p.len() <= i,
    ensures
        collapse_from(p + w, i, st) == collapse_from(w, i - p.len(), st),
    decreases (p + w).len() - i,
{
    if i < (p + w).len() {
        assert((p + w)[i] == w[i - p.len()]);
        lemma_collapse_shift(p, w, i + 1, if st == 0 { 0 } else { 2 });
        lemma_collapse_shift(p, w, i + 1, 1);
    }
}

proof fn lemma_collapse_from_stable(s: Seq<char>, i: int, st: int)
    requires
        0 <= i,
        0 <= st <= 2,
    ensures
        ({
            let u = collapse_from(s, i, st);
            collapse_from(u, 0, if st == 0 { 0 } else { 1 }) == u
        }),
    decreases s.len() - i,
{
    if i >= s.len() {
    } else if is_white_space(s[i]) {
        lemma_collapse_from_stable(s, i + 1, if st == 0 { 0 } else { 2 });
    } else {
        let c = s[i];
        let w = collapse_from(s, i + 1, 1);
        lemma_collapse_from_stable(s, i + 1, 1);
        if st == 2 {
            let u = seq![' ', c] + w;
            assert(seq![' '] + seq![c] + w =~= u);
            lemma_collapse_shift(seq![' ', c], w, 2, 1);
            assert(u[0] == ' ');
            assert(u[1] == c);
            assert(collapse_from(u, 2, 1) == w);
            assert(collapse_from(u, 1, 2) =~= seq![' '] + seq![c] + w);
        } else {
            let u = seq![c] + w;
            assert(Seq::<char>::empty() + seq![c] + w =~= u);
            lemma_collapse_shift(seq![c], w, 1, 1);
            assert(u[0] == c);
            assert(collapse_from(u, 0, if st == 0 { 0 } else { 1 }) =~= seq![c] + w);
        }
    }
}

/// Collapsing whitespace twice gives what collapsing it once gives.
pub proof fn lemma_collapse_idempotent(s: Seq<char>)
    ensures
        collapse(collapse(s)) == collapse(s),
{
    lemma_collapse_from_stable(s, 0, 0);
}

/// Collapses each run of whitespace to one space and drops it at both ends.
pub fn collapse_whitespace(s: &str) -> (r: String)
    ensures
        r@ == collapse(s@),
{
    let t = chars_of(s);
    let mut out: Vec<char> = Vec::new();
    let mut st: u8 = 0;
    let mut i: usize = 0;
    while i < t.len()
        invariant
            i <= t@.len(),
            t@ == s@,
            st <= 2,
            collapse(s@) == out@ + collapse_from(s@, i as int, st as int),
        decreases t@.len() - i,
    {
        let c = t[i];
        if is_whitespace(c) {
            if st != 0 {
                st = 2;
            }
        } else {
            let ghost old_out = out@;
            if st == 2 {
                out.push(' ');
            }
            out.push(c);
            proof {
                let lead = if st == 2 { seq![' '] } else { Seq::<char>::empty() };
                assert(out@ =~= old_out + lead + seq![c]);
                assert(old_out + (lead + seq![c] + collapse_from(s@, i + 1, 1)) =~= out@
                    + collapse_from(s@, i + 1, 1));
            }
            st = 1;
        }
        i = i + 1;
    }
    assert(out@ =~= out@ + Seq::<char>::empty());
    string_of(&out)
}

/// The text with its words joined by single spaces, lower-cased.
pub fn normalize(text: &str) -> (r: String)
    ensures
        r@ == normalized(text@),
{
    let collapsed = collapse_whitespace(text);
    lowercase(collapsed.as_str())
}

} // verus!
