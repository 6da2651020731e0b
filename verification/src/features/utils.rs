//! Sequence helpers of the feature code.
use vstd::prelude::*;

verus! {

/// The first `n` items (all of them when there are fewer).
pub fn take_n<T: Copy>(vec: &[T], n: usize) -> (r: Vec<T>)
    ensures
        r@ == vec@.take(if n < vec@.len() { n as int } else { vec@.len() as int }),
{
    let m = if n < vec.len() { n } else { vec.len() };
    let mut out: Vec<T> = Vec::new();
    let mut i: usize = 0;
    while i < m
        invariant
            m <= vec@.len(),
            i <= m,
            out@ == vec@.take(i as int),
        decreases m - i,
    {
        out.push(vec[i]);
        i = i + 1;
        assert(out@ =~= vec@.take(i as int));
    }
    out
}

/// Each distinct value once, in the order of its first occurrence.
pub open spec fn first_occurrences(s: Seq<i64>) -> Seq<i64>
    decreases s.len(),
{
    if s.len() == 0 {
        Seq::empty()
    } else {
        let before = first_occurrences(s.drop_last());
        if before.contains(s.last()) {
            before
        } else {
            before.push(s.last())
        }
    }
}

/// The distinct values, in the order of their first occurrence.
pub fn unique(vec: &[i64]) -> (r: Vec<i64>)
    ensures
        r@ == first_occurrences(vec@),
{
    let mut out: Vec<i64> = Vec::new();
    let mut i: usize = 0;
    while i < vec.len()
        invariant
            i <= vec@.len(),
            out@ == first_occurrences(vec@.take(i as int)),
        decreases vec.len() - i,
    {
        assert(vec@.take(i + 1).drop_last() =~= vec@.take(i as int));
        let x = vec[i];
        let mut seen = false;
        let mut j: usize = 0;
        while j < out.len()
            invariant
                j <= out@.len(),
                seen == out@.take(j as int).contains(x),
            decreases out.len() - j,
        {
            proof {
                let t0 = out@.take(j as int);
                let t1 = out@.take(j + 1);
                assert(t1 =~= t0.push(out@[j as int]));
                if t1.contains(x) {
                    let k = choose|k: int| 0 <= k < t1.len() && t1[k] == x;
                    if k < j {
                        assert(t0[k] == x);
                    }
                }
                if out@[j as int] == x {
                    assert(t1[j as int] == x);
                }
                if t0.contains(x) {
                    let k = choose|k: int| 0 <= k < t0.len() && t0[k] == x;
                    assert(t1[k] == x);
                }
            }
            if out[j] == x {
                seen = true;
            }
            j = j + 1;
        }
        assert(out@.take(out@.len() as int) =~= out@);
        if !seen {
            out.push(x);
        }
        i = i + 1;
    }
    assert(vec@.take(vec@.len() as int) =~= vec@);
    out
}

/// The distinct values hold each value of the input exactly once.
pub proof fn law_unique_values(s: Seq<i64>)
    ensures
        forall|i: int, j: int| 0 <= i < j < first_occurrences(s).len() ==> first_occurrences(s)[i] != first_occurrences(s)[j],
        forall|x: i64| first_occurrences(s).contains(x) <==> s.contains(x),
    decreases s.len(),
{
    if s.len() > 0 {
        law_unique_values(s.drop_last());
        let before = first_occurrences(s.drop_last());
        assert(s =~= s.drop_last().push(s.last()));
        assert forall|x: i64| first_occurrences(s).contains(x) <==> s.contains(x) by {
            if s.contains(x) && x != s.last() {
                let k = choose|k: int| 0 <= k < s.len() && s[k] == x;
                assert(s.drop_last()[k] == x);
            }
            if s.drop_last().contains(x) {
                let k = choose|k: int| 0 <= k < s.drop_last().len() && s.drop_last()[k] == x;
                assert(s[k] == x);
            }
            if x == s.last() {
                assert(s[s.len() - 1] == x);
                if !before.contains(x) {
                    assert(before.push(x)[before.len() as int] == x);
                }
            }
            if first_occurrences(s).contains(x) && !before.contains(x) {
                let k = choose|k: int| 0 <= k < first_occurrences(s).len() && first_occurrences(s)[k] == x;
                assert(k == before.len());
            }
            if before.contains(x) && !before.contains(s.last()) {
                let k = choose|k: int| 0 <= k < before.len() && before[k] == x;
                assert(before.push(s.last())[k] == x);
            }
        }
    }
}

} // verus!
