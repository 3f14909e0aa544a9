use vstd::prelude::*;

use crate::chars::{chars_of, string_of};
use crate::extract::{extract, get_match_prefix_and_suffix};

verus! {

/// A character as it stands in HTML text: `&`, `<` and `>` become entities.
pub open spec fn escape_char(c: char) -> Seq<char> {
    if c == '&' {
        "&amp;"@
    } else if c == '<' {
        "&lt;"@
    } else if c == '>' {
        "&gt;"@
    } else {
        seq![c]
    }
}

/// A text as it stands in HTML text.
pub open spec fn escape_text(s: Seq<char>) -> Seq<char>
    decreases s.len(),
{
    if s.len() == 0 {
        Seq::empty()
    } else {
        escape_char(s[0]) + escape_text(s.drop_first())
    }
}

/// Relies on `html_escape::encode_text`: it replaces each `&`, `<` and `>`
/// by its entity and keeps every other character.
#[verifier::external_body]
fn encode_text(s: &str) -> (r: String)
    ensures
        r@ == escape_text(s@),
{
    html_escape::encode_text(s).into_owned()
}

/// The markup that opens a highlighted grade.
pub open spec fn span_open() -> Seq<char> {
    "<span class='fpl'>"@
}

/// The markup that closes a highlighted grade.
pub open spec fn span_close() -> Seq<char> {
    "</span>"@
}

/// The content of the HTML cell that shows a text: escaped, with its
/// extracted grade, if any, wrapped in a highlighting span.
pub open spec fn text_cell(s: Seq<char>) -> Seq<char> {
    match extract(s) {
        Some(g) => escape_text(s.subrange(0, g.1)) + span_open() + escape_text(
            s.subrange(g.1, g.2),
        ) + span_close() + escape_text(s.subrange(g.2, s.len() as int)),
        None => escape_text(s),
    }
}

fn push_str(v: &mut Vec<char>, s: &str)
    ensures
        final(v)@ == old(v)@ + s@,
{
    let c = chars_of(s);
    let mut k: usize = 0;
    while k < c.len()
        invariant
            k <= c@.len(),
            c@ == s@,
            v@ == old(v)@ + c@.subrange(0, k as int),
        decreases c@.len() - k,
    {
        v.push(c[k]);
        k = k + 1;
        assert(v@ =~= old(v)@ + c@.subrange(0, k as int));
    }
    assert(c@.subrange(0, k as int) =~= c@);
}

/// The HTML cell content for a text (see `text_cell`).
pub fn html_text_cell(text: &str) -> (r: String)
    ensures
        r@ == text_cell(text@),
{
    let mut out: Vec<char> = Vec::new();
    match get_match_prefix_and_suffix(text) {
        Some(m) => {
            push_str(&mut out, encode_text(m.prefix.as_str()).as_str());
            push_str(&mut out, "<span class='fpl'>");
            push_str(&mut out, encode_text(m.matched.as_str()).as_str());
            push_str(&mut out, "</span>");
            push_str(&mut out, encode_text(m.suffix.as_str()).as_str());
        },
        None => {
            push_str(&mut out, encode_text(text).as_str());
        },
    }
    assert(out@ =~= text_cell(text@));
    string_of(&out)
}

} // verus!
