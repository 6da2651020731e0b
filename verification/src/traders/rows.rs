//! Rows of text columns as the storage clients hand them over, and a stable sort
//! of rows by one or two columns.
use vstd::prelude::*;
use vstd::hash_map::StringHashMap;
use crate::text::chars_of;
use crate::textorder::{text_lt, text_order, lemma_text_lt_irreflexive, lemma_text_lt_total, lemma_text_lt_trans};

verus! {

/// What a list of rows holds.
pub open spec fn row_views(v: Seq<StringHashMap<String>>) -> Seq<Map<Seq<char>, String>> {
    v.map_values(|m: StringHashMap<String>| m@)
}

/// The texts of an optional string.
pub open spec fn opt_str(value: Option<&str>) -> Option<Seq<char>> {
    match value {
        Some(v) => Some(v@),
        None => None,
    }
}

/// The text in column `c` of a row, or the empty text.
pub open spec fn col(m: Map<Seq<char>, String>, c: Seq<char>) -> Seq<char> {
    if m.contains_key(c) {
        m[c]@
    } else {
        Seq::empty()
    }
}

/// The sort key of a row: its column `c1`, then its column `c2` if one is named.
pub open spec fn row_key(m: Map<Seq<char>, String>, c1: Seq<char>, c2: Option<Seq<char>>) -> (Seq<char>, Seq<char>) {
    (
        col(m, c1),
        match c2 {
            Some(c) => col(m, c),
            None => Seq::empty(),
        },
    )
}

/// Key `a` sorts strictly before key `b`: by the first text, then by the second.
pub open spec fn key_lt(a: (Seq<char>, Seq<char>), b: (Seq<char>, Seq<char>)) -> bool {
    text_lt(a.0, b.0) || (a.0 == b.0 && text_lt(a.1, b.1))
}

/// Whether rows are in key order: no row's key sorts before an earlier one's.
pub open spec fn sorted_by(s: Seq<Map<Seq<char>, String>>, c1: Seq<char>, c2: Option<Seq<char>>) -> bool {
    forall|i: int, j: int| 0 <= i < j < s.len() ==> !key_lt(#[trigger] row_key(s[j], c1, c2), #[trigger] row_key(s[i], c1, c2))
}

/// Whether a row has the key `k`.
pub open spec fn key_is(c1: Seq<char>, c2: Option<Seq<char>>, k: (Seq<char>, Seq<char>)) -> spec_fn(Map<Seq<char>, String>) -> bool {
    |m: Map<Seq<char>, String>| row_key(m, c1, c2) == k
}

proof fn lemma_key_lt(a: (Seq<char>, Seq<char>), b: (Seq<char>, Seq<char>), c: (Seq<char>, Seq<char>))
    ensures
        !key_lt(a, a),
        key_lt(a, b) && key_lt(b, c) ==> key_lt(a, c),
        a != b ==> key_lt(a, b) || key_lt(b, a),
        key_lt(a, b) ==> !key_lt(b, a),
{
    lemma_text_lt_irreflexive(a.0);
    lemma_text_lt_irreflexive(a.1);
    lemma_text_lt_total(a.0, b.0);
    lemma_text_lt_total(a.1, b.1);
    lemma_text_lt_total(b.0, c.0);
    lemma_text_lt_total(a.0, c.0);
    if text_lt(a.0, b.0) && text_lt(b.0, c.0) {
        lemma_text_lt_trans(a.0, b.0, c.0);
    }
    if text_lt(a.1, b.1) && text_lt(b.1, c.1) {
        lemma_text_lt_trans(a.1, b.1, c.1);
    }
}

fn col_text(m: &StringHashMap<String>, c: &str) -> (r: String)
    ensures
        r@ == col(m@, c@),
{
    match m.get(c) {
        Some(v) => v.clone(),
        None => String::new(),
    }
}

fn key_less(a: &StringHashMap<String>, b: &StringHashMap<String>, c1: &str, c2: Option<&str>) -> (r: bool)
    ensures
        r == key_lt(row_key(a@, c1@, opt_str(c2)), row_key(b@, c1@, opt_str(c2))),
{
    let a1 = chars_of(col_text(a, c1).as_str());
    let b1 = chars_of(col_text(b, c1).as_str());
    let o = text_order(&a1, &b1);
    if o != 0 {
        return o < 0;
    }
    match c2 {
        None => {
            proof {
                lemma_text_lt_irreflexive(Seq::<char>::empty());
            }
            false
        },
        Some(c) => {
            let a2 = chars_of(col_text(a, c).as_str());
            let b2 = chars_of(col_text(b, c).as_str());
            text_order(&a2, &b2) < 0
        },
    }
}

/// Inserting a row after every row whose key does not sort after its own keeps
/// the rows sorted, and adds it at the end of the rows with its key.
proof fn lemma_insert_sorted(
    out: Seq<Map<Seq<char>, String>>,
    x: Map<Seq<char>, String>,
    p: int,
    c1: Seq<char>,
    c2: Option<Seq<char>>,
)
    requires
        0 <= p <= out.len(),
        sorted_by(out, c1, c2),
        forall|j: int| 0 <= j < p ==> !key_lt(row_key(x, c1, c2), #[trigger] row_key(out[j], c1, c2)),
        p < out.len() ==> key_lt(row_key(x, c1, c2), row_key(out[p], c1, c2)),
    ensures
        sorted_by(out.insert(p, x), c1, c2),
        forall|k: (Seq<char>, Seq<char>)| #[trigger] out.insert(p, x).filter(key_is(c1, c2, k)) == if row_key(x, c1, c2) == k {
            out.filter(key_is(c1, c2, k)).push(x)
        } else {
            out.filter(key_is(c1, c2, k))
        },
{
    let kx = row_key(x, c1, c2);
    let n = out.insert(p, x);
    assert forall|j: int| p <= j < out.len() implies key_lt(kx, #[trigger] row_key(out[j], c1, c2)) by {
        if j > p {
            lemma_key_lt(kx, row_key(out[p], c1, c2), row_key(out[j], c1, c2));
            lemma_key_lt(row_key(out[p], c1, c2), row_key(out[j], c1, c2), kx);
            assert(!key_lt(row_key(out[j], c1, c2), row_key(out[p], c1, c2)));
        }
    }
    assert forall|i: int, j: int| 0 <= i < j < n.len() implies !key_lt(#[trigger] row_key(n[j], c1, c2), #[trigger] row_key(n[i], c1, c2)) by {
        if j < p {
            assert(n[i] == out[i] && n[j] == out[j]);
        } else if j == p {
            assert(n[i] == out[i] && n[j] == x);
        } else if i == p {
            assert(n[i] == x && n[j] == out[j - 1]);
            lemma_key_lt(kx, row_key(out[j - 1], c1, c2), kx);
        } else if i < p {
            assert(n[i] == out[i] && n[j] == out[j - 1]);
        } else {
            assert(n[i] == out[i - 1] && n[j] == out[j - 1]);
        }
    }
    assert(n =~= out.take(p) + seq![x] + out.skip(p));
    assert(out =~= out.take(p) + out.skip(p));
    assert forall|k: (Seq<char>, Seq<char>)| #[trigger] n.filter(key_is(c1, c2, k)) == if kx == k {
        out.filter(key_is(c1, c2, k)).push(x)
    } else {
        out.filter(key_is(c1, c2, k))
    } by {
        let f = key_is(c1, c2, k);
        Seq::filter_distributes_over_add(out.take(p) + seq![x], out.skip(p), f);
        Seq::filter_distributes_over_add(out.take(p), seq![x], f);
        Seq::filter_distributes_over_add(out.take(p), out.skip(p), f);
        Seq::<Map<Seq<char>, String>>::empty().lemma_filter_push(x, f);
        assert(Seq::<Map<Seq<char>, String>>::empty().push(x) =~= seq![x]);
        reveal(Seq::filter);
        assert(Seq::<Map<Seq<char>, String>>::empty().filter(f) =~= Seq::<Map<Seq<char>, String>>::empty());
        if kx == k {
            assert forall|j: int| 0 <= j < out.skip(p).len() implies !f(#[trigger] out.skip(p)[j]) by {
                assert(out.skip(p)[j] == out[p + j]);
                assert(key_lt(kx, row_key(out[p + j], c1, c2)));
                lemma_key_lt(kx, kx, kx);
            }
            out.skip(p).lemma_all_neg_filter_empty(f);
            assert(out.skip(p).filter(f) =~= Seq::<Map<Seq<char>, String>>::empty());
            assert(n.filter(f) =~= out.filter(f).push(x));
        } else {
            assert(n.filter(f) =~= out.filter(f));
        }
    }
}

/// The rows in key order (`c1`, then `c2` when given), rows with equal keys
/// keeping their order: the sort is stable.
pub fn sort_rows(rows: Vec<StringHashMap<String>>, c1: &str, c2: Option<&str>) -> (r: Vec<StringHashMap<String>>)
    ensures
        r@.len() == rows@.len(),
        sorted_by(row_views(r@), c1@, opt_str(c2)),
        forall|k: (Seq<char>, Seq<char>)| #[trigger] row_views(r@).filter(key_is(c1@, opt_str(c2), k)) == row_views(rows@).filter(
            key_is(c1@, opt_str(c2), k),
        ),
{
    let ghost orig = rows@;
    let ghost a = c1@;
    let ghost b = opt_str(c2);
    let total = rows.len();
    let mut rest = rows;
    let mut out: Vec<StringHashMap<String>> = Vec::new();
    let mut i: usize = 0;
    proof {
        reveal(Seq::filter);
        assert(row_views(orig.take(0)) =~= Seq::<Map<Seq<char>, String>>::empty());
        assert(rest@ =~= orig.skip(0));
    }
    while rest.len() > 0
        invariant
            a == c1@,
            b == opt_str(c2),
            rest@ == orig.skip(i as int),
            total == orig.len(),
            i <= orig.len(),
            out@.len() == i,
            sorted_by(row_views(out@), a, b),
            forall|k: (Seq<char>, Seq<char>)| #[trigger] row_views(out@).filter(key_is(a, b, k)) == row_views(orig.take(i as int)).filter(
                key_is(a, b, k),
            ),
        decreases rest.len(),
    {
        let x = rest.remove(0);
        assert(x == orig[i as int]);
        let mut p: usize = 0;
        while p < out.len() && !key_less(&x, &out[p], c1, c2)
            invariant
                p <= out@.len(),
                a == c1@,
                b == opt_str(c2),
                forall|j: int| 0 <= j < p ==> !key_lt(row_key(x@, a, b), #[trigger] row_key(row_views(out@)[j], a, b)),
            decreases out.len() - p,
        {
            p = p + 1;
        }
        proof {
            lemma_insert_sorted(row_views(out@), x@, p as int, a, b);
            assert(row_views(out@).insert(p as int, x@) =~= row_views(out@.insert(p as int, x)));
            assert(orig.take(i + 1) =~= orig.take(i as int).push(x));
            assert(row_views(orig.take(i + 1)) =~= row_views(orig.take(i as int)).push(x@));
            assert forall|k: (Seq<char>, Seq<char>)| #[trigger] row_views(orig.take(i + 1)).filter(key_is(a, b, k)) == if row_key(
                x@,
                a,
                b,
            ) == k {
                row_views(orig.take(i as int)).filter(key_is(a, b, k)).push(x@)
            } else {
                row_views(orig.take(i as int)).filter(key_is(a, b, k))
            } by {
                row_views(orig.take(i as int)).lemma_filter_push(x@, key_is(a, b, k));
            }
        }
        out.insert(p, x);
        i = i + 1;
        proof {
            assert(rest@ =~= orig.skip(i as int));
        }
    }
    proof {
        assert(orig.take(i as int) =~= orig);
    }
    out
}

} // verus!
