use vstd::prelude::*;

use crate::chars::chars_of;
use crate::normalize::{normalize, normalized};

verus! {

/// One input record: an identifier and its text.
pub struct Record {
    pub id: usize,
    pub text: String,
}

/// `a` comes before `b` in lexicographic order of code points, judged from
/// position `k` on, the characters before it being equal.
pub open spec fn lex_lt_from(a: Seq<char>, b: Seq<char>, k: int) -> bool
    decreases a.len() - k,
{
    if k < 0 {
        false
    } else if k >= a.len() {
        k < b.len()
    } else if k >= b.len() {
        false
    } else if a[k] != b[k] {
        a[k] < b[k]
    } else {
        lex_lt_from(a, b, k + 1)
    }
}

/// `a` comes strictly before `b` in lexicographic order of code points.
pub open spec fn lex_lt(a: Seq<char>, b: Seq<char>) -> bool {
    lex_lt_from(a, b, 0)
}

proof fn lemma_lex_total(a: Seq<char>, b: Seq<char>, k: int)
    requires
        0 <= k <= a.len(),
        k <= b.len(),
        a != b,
        forall|m: int| 0 <= m < k ==> a[m] == b[m],
    ensures
        lex_lt_from(a, b, k) || lex_lt_from(b, a, k),
    decreases a.len() - k,
{
    if k == a.len() && k == b.len() {
        assert(a =~= b);
    } else if k < a.len() && k < b.len() && a[k] == b[k] {
        lemma_lex_total(a, b, k + 1);
    }
}

fn lex_less(a: &Vec<char>, b: &Vec<char>) -> (r: bool)
    ensures
        r == lex_lt(a@, b@),
{
    let mut k: usize = 0;
    while k < a.len() && k < b.len() && a[k] == b[k]
        invariant
            k <= a@.len(),
            k <= b@.len(),
            lex_lt(a@, b@) == lex_lt_from(a@, b@, k as int),
        decreases a@.len() - k,
    {
        k = k + 1;
    }
    if k >= a.len() {
        k < b.len()
    } else if k >= b.len() {
        false
    } else {
        a[k] < b[k]
    }
}

/// The texts of `rs`, sorted strictly by `lex_lt`.
pub open spec fn strictly_sorted(rs: Seq<Record>) -> bool {
    &&& forall|j: int| 0 <= j < rs.len() - 1 ==> lex_lt(#[trigger] rs[j].text@, rs[j + 1].text@)
    &&& forall|j: int, k: int|
        0 <= j < k < rs.len() ==> #[trigger] rs[j].text@ != #[trigger] rs[k].text@
}

/// The identifiers of `rs`.
pub open spec fn ids_of(rs: Seq<Record>) -> Seq<usize> {
    rs.map_values(|r: Record| r.id)
}

/// The texts of `rs`.
pub open spec fn texts_of(rs: Seq<Record>) -> Seq<Seq<char>> {
    rs.map_values(|r: Record| r.text@)
}

/// The normalized texts of `rs`.
pub open spec fn normalized_texts(rs: Seq<Record>) -> Seq<Seq<char>> {
    rs.map_values(|r: Record| normalized(r.text@))
}

#[verifier::opaque]
/// Key `i` is the first of `keys` with its value.
pub open spec fn first_of_its_key(keys: Seq<Seq<char>>, i: int) -> bool {
    forall|m: int| 0 <= m < i ==> #[trigger] keys[m] != keys[i]
}

/// `r` stands for input `m`: the first input with its key, with that input's
/// identifier and its key as text.
#[verifier::opaque]
pub open spec fn represents(ids: Seq<usize>, keys: Seq<Seq<char>>, m: int, r: Record) -> bool {
    &&& 0 <= m < keys.len()
    &&& first_of_its_key(keys, m)
    &&& r.id == ids[m]
    &&& r.text@ == keys[m]
}

/// `r` stands for one of the first `i` inputs.
pub open spec fn rep_among(ids: Seq<usize>, keys: Seq<Seq<char>>, i: int, r: Record) -> bool {
    exists|m: int| m < i && #[trigger] represents(ids, keys, m, r)
}

/// Some record of `out` has text `t`.
pub open spec fn text_in(out: Seq<Record>, t: Seq<char>) -> bool {
    exists|j: int| 0 <= j < out.len() && #[trigger] out[j].text@ == t
}

/// Each record of `out` stands for one of the first `i` inputs.
pub open spec fn covers_reps(out: Seq<Record>, ids: Seq<usize>, keys: Seq<Seq<char>>, i: int) -> bool {
    forall|j: int| 0 <= j < out.len() ==> rep_among(ids, keys, i, #[trigger] out[j])
}

/// The key of each of the first `i` inputs is the text of a record of `out`.
pub open spec fn covers_texts(out: Seq<Record>, keys: Seq<Seq<char>>, i: int) -> bool {
    forall|m: int| 0 <= m < i ==> text_in(out, #[trigger] keys[m])
}

/// What deduplication of inputs with identifiers `ids` and keys `keys` must
/// give: one record for each distinct key, made of the identifier of the first
/// input with that key and the key as text, in increasing order of text.
pub open spec fn is_dedup_of(out: Seq<Record>, ids: Seq<usize>, keys: Seq<Seq<char>>) -> bool {
    &&& strictly_sorted(out)
    &&& covers_reps(out, ids, keys, keys.len() as int)
    &&& covers_texts(out, keys, keys.len() as int)
}

proof fn lemma_insert_step(
    before: Seq<Record>,
    after: Seq<Record>,
    j: int,
    r: Record,
    ids: Seq<usize>,
    keys: Seq<Seq<char>>,
    i: int,
)
    requires
        0 <= j <= before.len(),
        after == before.insert(j, r),
        0 <= i < keys.len(),
        strictly_sorted(before),
        forall|m: int| 0 <= m < j ==> lex_lt(#[trigger] before[m].text@, r.text@),
        j < before.len() ==> lex_lt(r.text@, before[j].text@),
        forall|q: int| 0 <= q < before.len() ==> #[trigger] before[q].text@ != r.text@,
        covers_reps(before, ids, keys, i),
        covers_texts(before, keys, i),
        represents(ids, keys, i, r),
    ensures
        strictly_sorted(after),
        covers_reps(after, ids, keys, i + 1),
        covers_texts(after, keys, i + 1),
{
    assert forall|q: int| 0 <= q < after.len() - 1 implies lex_lt(
        #[trigger] after[q].text@,
        after[q + 1].text@,
    ) by {
        if q < j - 1 {
            assert(after[q] == before[q] && after[q + 1] == before[q + 1]);
        } else if q == j - 1 {
            assert(after[q] == before[q] && after[q + 1] == r);
        } else if q == j {
            assert(after[q + 1] == before[q]);
        } else {
            assert(after[q] == before[q - 1] && after[q + 1] == before[q]);
        }
    }
    assert forall|a: int, b: int| 0 <= a < b < after.len() implies #[trigger] after[a].text@
        != #[trigger] after[b].text@ by {
        let pa = if a < j {
            a
        } else {
            a - 1
        };
        let pb = if b < j {
            b
        } else {
            b - 1
        };
        if a != j && b != j {
            assert(after[a] == before[pa] && after[b] == before[pb]);
        } else if a == j {
            assert(after[b] == before[pb]);
        } else {
            assert(after[a] == before[pa]);
        }
    }
    assert forall|q: int| 0 <= q < after.len() implies rep_among(
        ids,
        keys,
        i + 1,
        #[trigger] after[q],
    ) by {
        if q == j {
            assert(after[q] == r);
            assert(represents(ids, keys, i, after[q]));
        } else {
            let p = if q < j {
                q
            } else {
                q - 1
            };
            assert(after[q] == before[p]);
            assert(rep_among(ids, keys, i, before[p]));
            let m = choose|m: int| m < i && #[trigger] represents(ids, keys, m, before[p]);
            assert(represents(ids, keys, m, after[q]));
        }
    }
    assert forall|m: int| 0 <= m < i + 1 implies text_in(after, #[trigger] keys[m]) by {
        if m < i {
            assert(text_in(before, keys[m]));
            let q = choose|q: int| 0 <= q < before.len() && #[trigger] before[q].text@ == keys[m];
            if q < j {
                assert(after[q] == before[q]);
                assert(after[q].text@ == keys[m]);
            } else {
                assert(after[q + 1] == before[q]);
                assert(after[q + 1].text@ == keys[m]);
            }
        } else {
            reveal(represents);
            assert(after[j] == r);
            assert(after[j].text@ == keys[m]);
        }
    }
}

proof fn lemma_skip_step(out: Seq<Record>, ids: Seq<usize>, keys: Seq<Seq<char>>, i: int, q: int)
    requires
        0 <= i < keys.len(),
        0 <= q < out.len(),
        out[q].text@ == keys[i],
        covers_reps(out, ids, keys, i),
        covers_texts(out, keys, i),
    ensures
        covers_reps(out, ids, keys, i + 1),
        covers_texts(out, keys, i + 1),
{
    assert forall|p: int| 0 <= p < out.len() implies rep_among(
        ids,
        keys,
        i + 1,
        #[trigger] out[p],
    ) by {
        assert(rep_among(ids, keys, i, out[p]));
        let m = choose|m: int| m < i && #[trigger] represents(ids, keys, m, out[p]);
        assert(represents(ids, keys, m, out[p]));
    }
    assert forall|m: int| 0 <= m < i + 1 implies text_in(out, #[trigger] keys[m]) by {
        if m == i {
            assert(out[q].text@ == keys[m]);
        }
    }
}

/// Where `n` stands among the texts of `out`, if it is there.
fn find_text(out: &Vec<Record>, n: &String) -> (r: Option<usize>)
    ensures
        r matches Some(q) ==> q < out@.len() && out@[q as int].text@ == n@,
        r is None ==> forall|q: int| 0 <= q < out@.len() ==> #[trigger] out@[q].text@ != n@,
{
    let mut k: usize = 0;
    while k < out.len()
        invariant
            k <= out@.len(),
            forall|q: int| 0 <= q < k ==> #[trigger] out@[q].text@ != n@,
        decreases out@.len() - k,
    {
        if out[k].text == *n {
            return Some(k);
        }
        k = k + 1;
    }
    None
}

/// The number of texts of `out` that come before `n`, `out` being sorted.
fn insert_pos(out: &Vec<Record>, n: &String) -> (j: usize)
    ensures
        j <= out@.len(),
        forall|m: int| 0 <= m < j ==> lex_lt(#[trigger] out@[m].text@, n@),
        j < out@.len() ==> !lex_lt(out@[j as int].text@, n@),
{
    let nc = chars_of(n.as_str());
    let mut j: usize = 0;
    while j < out.len() && lex_less(&chars_of(out[j].text.as_str()), &nc)
        invariant
            j <= out@.len(),
            nc@ == n@,
            forall|m: int| 0 <= m < j ==> lex_lt(#[trigger] out@[m].text@, n@),
        decreases out@.len() - j,
    {
        j = j + 1;
    }
    j
}

/// Keeps one record for each distinct text, the first that had it, sorted
/// by text.
pub fn dedup_by_text(records: &mut Vec<Record>)
    ensures
        is_dedup_of(final(records)@, ids_of(old(records)@), texts_of(old(records)@)),
{
    let ghost ids = ids_of(records@);
    let ghost keys = texts_of(records@);
    let mut out: Vec<Record> = Vec::new();
    let mut i: usize = 0;
    while i < records.len()
        invariant
            ids == ids_of(old(records)@),
            keys == texts_of(old(records)@),
            records@ == old(records)@,
            i <= keys.len(),
            strictly_sorted(out@),
            covers_reps(out@, ids, keys, i as int),
            covers_texts(out@, keys, i as int),
        decreases keys.len() - i,
    {
        let n = records[i].text.clone();
        assert(n@ == keys[i as int]);
        match find_text(&out, &n) {
            Some(q) => {
                proof {
                    lemma_skip_step(out@, ids, keys, i as int, q as int);
                }
            },
            None => {
                let j = insert_pos(&out, &n);
                proof {
                    if j < out@.len() {
                        lemma_lex_total(out@[j as int].text@, n@, 0);
                    }
                    assert forall|m: int| 0 <= m < i implies #[trigger] keys[m] != n@ by {
                        if keys[m] == n@ {
                            assert(text_in(out@, keys[m]));
                            let q = choose|q: int|
                                0 <= q < out@.len() && #[trigger] out@[q].text@ == keys[m];
                            assert(out@[q].text@ == n@);
                        }
                    }
                }
                let ghost before = out@;
                let rec = Record { id: records[i].id, text: n };
                proof {
                    reveal(represents);
                    reveal(first_of_its_key);
                    assert(represents(ids, keys, i as int, rec));
                }
                out.insert(j, rec);
                proof {
                    lemma_insert_step(before, out@, j as int, rec, ids, keys, i as int);
                }
            },
        }
        i = i + 1;
    }
    *records = out;
}

/// Replaces each record's text by its normalized form, then keeps one record
/// for each distinct text, the first that had it, sorted by text.
pub fn dedup_records(records: &mut Vec<Record>)
    ensures
        is_dedup_of(final(records)@, ids_of(old(records)@), normalized_texts(old(records)@)),
{
    let mut i: usize = 0;
    while i < records.len()
        invariant
            i <= records@.len(),
            records@.len() == old(records)@.len(),
            ids_of(records@) == ids_of(old(records)@),
            forall|m: int| 0 <= m < i ==> #[trigger] records@[m].text@ == normalized(old(records)@[m].text@),
            forall|m: int| i <= m < records@.len() ==> #[trigger] records@[m] == old(records)@[m],
        decreases records@.len() - i,
    {
        let n = normalize(records[i].text.as_str());
        let id = records[i].id;
        let ghost before = records@;
        records.set(i, Record { id, text: n });
        proof {
            assert(ids_of(records@) =~= ids_of(before));
        }
        i = i + 1;
    }
    proof {
        assert(texts_of(records@) =~= normalized_texts(old(records)@));
    }
    dedup_by_text(records);
}

} // verus!
