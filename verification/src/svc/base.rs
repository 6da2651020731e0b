//! Basics shared by the visual components: availability of optional parts,
//! styling, and component keys.
use vstd::prelude::*;
use crate::text::{owned, push_str};

verus! {

/// Whether the daily-performance part is available; it always is.
pub fn safe_import_daily_performance() -> (r: Option<()>)
    ensures
        r == Some(()),
{
    Some(())
}

/// Whether the weight-backtest part is available; it always is.
pub fn safe_import_weight_backtest() -> (r: Option<()>)
    ensures
        r == Some(()),
{
    Some(())
}

/// Rows indexed by their time (seconds since the epoch): the date texts are not
/// read, and no row is given.
pub fn ensure_datetime_index<T>(data: Vec<(String, T)>) -> (r: Vec<(i64, T)>)
    ensures
        r@.len() == 0,
{
    Vec::new()
}

/// Applies the statistics table style; the rows come back as they were.
pub fn apply_stats_style<T>(data: Vec<T>) -> (r: Vec<T>)
    ensures
        r@ == data@,
{
    data
}

/// `_k_v` for each parameter, in order.
pub open spec fn params_text(params: Seq<(&str, &str)>) -> Seq<char>
    decreases params.len(),
{
    if params.len() == 0 {
        Seq::empty()
    } else {
        params_text(params.drop_last()) + "_"@ + params.last().0@ + "_"@ + params.last().1@
    }
}

/// The key of a component: the prefix followed by `_name_value` for each
/// parameter, in the order given.
pub fn generate_component_key(prefix: &str, params: Vec<(&str, &str)>) -> (r: String)
    ensures
        r@ == prefix@ + params_text(params@),
{
    let mut key = owned(prefix);
    let mut i: usize = 0;
    while i < params.len()
        invariant
            i <= params@.len(),
            key@ == prefix@ + params_text(params@.take(i as int)),
        decreases params.len() - i,
    {
        let (k, v) = params[i];
        push_str(&mut key, "_");
        push_str(&mut key, k);
        push_str(&mut key, "_");
        push_str(&mut key, v);
        assert(params@.take(i + 1).drop_last() =~= params@.take(i as int));
        i = i + 1;
        assert(key@ =~= prefix@ + params_text(params@.take(i as int)));
    }
    assert(params@.take(params@.len() as int) =~= params@);
    key
}

} // verus!
