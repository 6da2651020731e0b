//! Small utilities: the machine address, ordering bar periods, and a key-value cache.

pub mod cache;

use vstd::prelude::*;
use crate::text::owned;

verus! {

/// The address that `mac_address` reports.
pub open spec fn mac_text() -> Seq<char> {
    "AA-BB-CC-DD-EE-FF"@
}

/// The machine's network address, as six hexadecimal pairs joined by dashes; this
/// build reports a fixed placeholder address.
pub fn mac_address() -> (r: String)
    ensures
        r@ == mac_text(),
{
    owned("AA-BB-CC-DD-EE-FF")
}

/// Where a period name stands in the order 1分钟, 5分钟, 15分钟, 30分钟, 60分钟,
/// 日线, 周线, 月线; every other name comes after them all.
pub open spec fn freq_rank(s: Seq<char>) -> nat {
    if s == "1分钟"@ { 0 }
    else if s == "5分钟"@ { 1 }
    else if s == "15分钟"@ { 2 }
    else if s == "30分钟"@ { 3 }
    else if s == "60分钟"@ { 4 }
    else if s == "日线"@ { 5 }
    else if s == "周线"@ { 6 }
    else if s == "月线"@ { 7 }
    else { 8 }
}

fn rank_of(s: &str) -> (r: usize)
    ensures
        r == freq_rank(s@),
{
    let v = crate::text::chars_of(s);
    if crate::text::chars_eq_str(&v, "1分钟") { 0 }
    else if crate::text::chars_eq_str(&v, "5分钟") { 1 }
    else if crate::text::chars_eq_str(&v, "15分钟") { 2 }
    else if crate::text::chars_eq_str(&v, "30分钟") { 3 }
    else if crate::text::chars_eq_str(&v, "60分钟") { 4 }
    else if crate::text::chars_eq_str(&v, "日线") { 5 }
    else if crate::text::chars_eq_str(&v, "周线") { 6 }
    else if crate::text::chars_eq_str(&v, "月线") { 7 }
    else { 8 }
}

/// The names of rank `r`, in the order given.
pub open spec fn names_of_rank(s: Seq<&str>, r: nat) -> Seq<&str> {
    s.filter(|x: &str| freq_rank(x@) == r)
}

/// The names of rank `r` and above: each rank's names in the order given,
/// the ranks in increasing order.
pub open spec fn ranked_from(s: Seq<&str>, r: nat) -> Seq<&str>
    decreases 9 - r,
{
    if r >= 9 {
        Seq::empty()
    } else {
        names_of_rank(s, r) + ranked_from(s, r + 1)
    }
}

/// Period names sorted by `freq_rank`, stably: names of equal rank keep their order.
pub open spec fn freqs_in_order(s: Seq<&str>) -> Seq<&str> {
    ranked_from(s, 0)
}

/// Sorts period names from the shortest period to the longest (see `freq_rank`);
/// names of equal rank keep their order.
pub fn freqs_sorted<'a>(freqs: Vec<&'a str>) -> (r: Vec<&'a str>)
    ensures
        r@ == freqs_in_order(freqs@),
{
    let mut out: Vec<&'a str> = Vec::new();
    let mut rank: usize = 0;
    while rank < 9
        invariant
            rank <= 9,
            out@ + ranked_from(freqs@, rank as nat) == freqs_in_order(freqs@),
        decreases 9 - rank,
    {
        let ghost start = out@;
        let mut i: usize = 0;
        while i < freqs.len()
            invariant
                i <= freqs@.len(),
                rank < 9,
                out@ == start + names_of_rank(freqs@.take(i as int), rank as nat),
            decreases freqs.len() - i,
        {
            let x = freqs[i];
            proof {
                reveal(Seq::filter);
                assert(freqs@.take(i + 1).drop_last() =~= freqs@.take(i as int));
            }
            if rank_of(x) == rank {
                out.push(x);
            }
            i = i + 1;
            assert(out@ =~= start + names_of_rank(freqs@.take(i as int), rank as nat));
        }
        assert(freqs@.take(freqs@.len() as int) =~= freqs@);
        assert(ranked_from(freqs@, rank as nat) == names_of_rank(freqs@, rank as nat) + ranked_from(freqs@, (rank + 1) as nat));
        assert(out@ + ranked_from(freqs@, (rank + 1) as nat) =~= start + ranked_from(freqs@, rank as nat));
        rank = rank + 1;
    }
    assert(ranked_from(freqs@, 9) =~= Seq::<&str>::empty());
    assert(out@ + ranked_from(freqs@, 9) =~= out@);
    out
}

/// The names of rank `r` or above, in the order given.
pub open spec fn rank_at_least(s: Seq<&str>, r: nat) -> Seq<&str> {
    s.filter(|x: &str| freq_rank(x@) >= r)
}

proof fn lemma_rank_split(s: Seq<&str>, r: nat)
    ensures
        names_of_rank(s, r).to_multiset().add(rank_at_least(s, r + 1).to_multiset()) == rank_at_least(s, r).to_multiset(),
    decreases s.len(),
{
    broadcast use vstd::seq_lib::group_to_multiset_ensures;

    reveal(Seq::filter);
    if s.len() == 0 {
        assert(names_of_rank(s, r) =~= Seq::<&str>::empty());
        assert(rank_at_least(s, r + 1) =~= Seq::<&str>::empty());
        assert(rank_at_least(s, r) =~= Seq::<&str>::empty());
        assert(Seq::<&str>::empty().to_multiset().add(Seq::<&str>::empty().to_multiset()) =~= Seq::<&str>::empty().to_multiset());
    } else {
        lemma_rank_split(s.drop_last(), r);
        let x = s.last();
        let a = names_of_rank(s.drop_last(), r);
        let b = rank_at_least(s.drop_last(), r + 1);
        let c = rank_at_least(s.drop_last(), r);
        if freq_rank(x@) == r {
            assert(names_of_rank(s, r) == a.push(x));
            assert(rank_at_least(s, r + 1) == b);
            assert(rank_at_least(s, r) == c.push(x));
            assert(a.push(x).to_multiset().add(b.to_multiset()) =~= c.push(x).to_multiset());
        } else if freq_rank(x@) > r {
            assert(names_of_rank(s, r) == a);
            assert(rank_at_least(s, r + 1) == b.push(x));
            assert(rank_at_least(s, r) == c.push(x));
            assert(a.to_multiset().add(b.push(x).to_multiset()) =~= c.push(x).to_multiset());
        } else {
            assert(names_of_rank(s, r) == a);
            assert(rank_at_least(s, r + 1) == b);
            assert(rank_at_least(s, r) == c);
        }
    }
}

proof fn lemma_rank_at_least_ends(s: Seq<&str>)
    ensures
        rank_at_least(s, 0) == s,
        rank_at_least(s, 9) == Seq::<&str>::empty(),
    decreases s.len(),
{
    reveal(Seq::filter);
    if s.len() == 0 {
        assert(rank_at_least(s, 0) =~= s);
        assert(rank_at_least(s, 9) =~= Seq::<&str>::empty());
    } else {
        lemma_rank_at_least_ends(s.drop_last());
        assert(rank_at_least(s, 0) =~= rank_at_least(s.drop_last(), 0).push(s.last()));
        assert(s.drop_last().push(s.last()) =~= s);
    }
}

proof fn lemma_ranked_from_multiset(s: Seq<&str>, r: nat)
    requires
        r <= 9,
    ensures
        ranked_from(s, r).to_multiset() == rank_at_least(s, r).to_multiset(),
    decreases 9 - r,
{
    broadcast use vstd::seq_lib::group_to_multiset_ensures;

    if r >= 9 {
        lemma_rank_at_least_ends(s);
        assert(ranked_from(s, r) =~= Seq::<&str>::empty());
    } else {
        lemma_ranked_from_multiset(s, r + 1);
        lemma_rank_split(s, r);
        vstd::seq_lib::lemma_multiset_commutative(names_of_rank(s, r), ranked_from(s, r + 1));
    }
}

proof fn lemma_ranked_from_ranks(s: Seq<&str>, r: nat)
    ensures
        forall|i: int| 0 <= i < ranked_from(s, r).len() ==> freq_rank((#[trigger] ranked_from(s, r)[i])@) >= r,
        forall|i: int, j: int| 0 <= i < j < ranked_from(s, r).len() ==> freq_rank((#[trigger] ranked_from(s, r)[i])@) <= freq_rank(
            (#[trigger] ranked_from(s, r)[j])@,
        ),
    decreases 9 - r,
{
    broadcast use vstd::seq_lib::group_filter_ensures;

    if r < 9 {
        lemma_ranked_from_ranks(s, r + 1);
        let a = names_of_rank(s, r);
        let b = ranked_from(s, r + 1);
        assert(ranked_from(s, r) == a + b);
        assert forall|i: int| 0 <= i < a.len() implies freq_rank((#[trigger] a[i])@) == r by {
            s.lemma_filter_pred(|x: &str| freq_rank(x@) == r, i);
        }
        assert forall|i: int| 0 <= i < ranked_from(s, r).len() implies freq_rank((#[trigger] ranked_from(s, r)[i])@) >= r by {
            if i >= a.len() {
                assert(ranked_from(s, r)[i] == b[i - a.len()]);
            } else {
                assert(ranked_from(s, r)[i] == a[i]);
            }
        }
        assert forall|i: int, j: int| 0 <= i < j < ranked_from(s, r).len() implies freq_rank((#[trigger] ranked_from(s, r)[i])@)
            <= freq_rank((#[trigger] ranked_from(s, r)[j])@) by {
            if j < a.len() {
                assert(ranked_from(s, r)[i] == a[i]);
                assert(ranked_from(s, r)[j] == a[j]);
            } else if i < a.len() {
                assert(ranked_from(s, r)[i] == a[i]);
                assert(ranked_from(s, r)[j] == b[j - a.len()]);
            } else {
                assert(ranked_from(s, r)[i] == b[i - a.len()]);
                assert(ranked_from(s, r)[j] == b[j - a.len()]);
            }
        }
    }
}

/// Sorting period names keeps every name, as often as it occurs, and puts them in
/// order of rank.
pub proof fn law_freqs_sorted_is_ordered_permutation(s: Seq<&str>)
    ensures
        freqs_in_order(s).to_multiset() == s.to_multiset(),
        forall|i: int, j: int| 0 <= i < j < freqs_in_order(s).len() ==> freq_rank((#[trigger] freqs_in_order(s)[i])@) <= freq_rank(
            (#[trigger] freqs_in_order(s)[j])@,
        ),
{
    lemma_ranked_from_multiset(s, 0);
    lemma_rank_at_least_ends(s);
    lemma_ranked_from_ranks(s, 0);
}

proof fn lemma_rank_filter_twice(s: Seq<&str>, r0: nat, r: nat)
    ensures
        names_of_rank(names_of_rank(s, r0), r) == if r == r0 {
            names_of_rank(s, r0)
        } else {
            Seq::<&str>::empty()
        },
    decreases s.len(),
{
    reveal(Seq::filter);
    if s.len() == 0 {
        assert(names_of_rank(s, r0) =~= Seq::<&str>::empty());
        assert(names_of_rank(Seq::<&str>::empty(), r) =~= Seq::<&str>::empty());
    } else {
        let t = s.drop_last();
        let x = s.last();
        assert(s =~= t.push(x));
        lemma_rank_filter_twice(t, r0, r);
        t.lemma_filter_push(x, |y: &str| freq_rank(y@) == r0);
        let a = names_of_rank(t, r0);
        if freq_rank(x@) == r0 {
            a.lemma_filter_push(x, |y: &str| freq_rank(y@) == r);
            if r == r0 {
                assert(names_of_rank(a.push(x), r) =~= names_of_rank(a, r).push(x));
            } else {
                assert(names_of_rank(a.push(x), r) =~= names_of_rank(a, r));
            }
        }
    }
}

proof fn lemma_rank_of_ranked_from(s: Seq<&str>, r0: nat, r: nat)
    requires
        r < 9,
    ensures
        names_of_rank(ranked_from(s, r0), r) == if r0 <= r {
            names_of_rank(s, r)
        } else {
            Seq::<&str>::empty()
        },
    decreases 9 - r0,
{
    if r0 >= 9 {
        assert(ranked_from(s, r0) =~= Seq::<&str>::empty());
        reveal(Seq::filter);
        assert(names_of_rank(Seq::<&str>::empty(), r) =~= Seq::<&str>::empty());
    } else {
        lemma_rank_of_ranked_from(s, r0 + 1, r);
        let a = names_of_rank(s, r0);
        let b = ranked_from(s, r0 + 1);
        Seq::filter_distributes_over_add(a, b, |y: &str| freq_rank(y@) == r);
        lemma_rank_filter_twice(s, r0, r);
        assert(names_of_rank(a + b, r) == names_of_rank(a, r) + names_of_rank(b, r));
        if r == r0 {
            assert(names_of_rank(s, r) + Seq::<&str>::empty() =~= names_of_rank(s, r));
        } else if r0 < r {
            assert(Seq::<&str>::empty() + names_of_rank(s, r) =~= names_of_rank(s, r));
        } else {
            assert(Seq::<&str>::empty() + Seq::<&str>::empty() =~= Seq::<&str>::empty());
        }
    }
}

proof fn lemma_ranked_from_same(s: Seq<&str>, t: Seq<&str>, r0: nat)
    requires
        forall|r: nat| r < 9 ==> #[trigger] names_of_rank(t, r) == names_of_rank(s, r),
    ensures
        ranked_from(t, r0) == ranked_from(s, r0),
    decreases 9 - r0,
{
    if r0 < 9 {
        lemma_ranked_from_same(s, t, r0 + 1);
        assert(names_of_rank(t, r0) == names_of_rank(s, r0));
    }
}

/// Sorting period names is stable: the names of each rank come out in the order
/// given; and sorting sorted names changes nothing.
pub proof fn law_freqs_sorted_is_stable_and_idempotent(s: Seq<&str>)
    ensures
        forall|r: nat| r < 9 ==> #[trigger] names_of_rank(freqs_in_order(s), r) == names_of_rank(s, r),
        freqs_in_order(freqs_in_order(s)) == freqs_in_order(s),
{
    assert forall|r: nat| r < 9 implies #[trigger] names_of_rank(freqs_in_order(s), r) == names_of_rank(s, r) by {
        lemma_rank_of_ranked_from(s, 0, r);
    }
    lemma_ranked_from_same(s, freqs_in_order(s), 0);
}

} // verus!
