//! The Tushare source: the symbols of its sample universe.
use vstd::prelude::*;
use crate::text::{chars_of, push_str, push_text, texts, str_eq};

verus! {

/// The index codes of the Tushare sample universe.
pub open spec fn ts_index_codes() -> Seq<Seq<char>> {
    seq![
        "000905.SH"@, "000016.SH"@, "000300.SH"@, "000001.SH"@, "000852.SH"@, "399001.SZ"@,
        "399006.SZ"@, "399376.SZ"@, "399377.SZ"@, "399317.SZ"@, "399303.SZ"@,
    ]
}

/// The stock codes of the Tushare sample universe.
pub open spec fn ts_stock_codes() -> Seq<Seq<char>> {
    seq!["000001.SZ"@, "000002.SZ"@]
}

/// The ETF codes of the Tushare sample universe.
pub open spec fn ts_etf_codes() -> Seq<Seq<char>> {
    seq!["512880.SH"@, "518880.SH"@, "515880.SH"@]
}

/// Each code followed by `#` and the asset class.
pub open spec fn tagged(codes: Seq<Seq<char>>, asset: Seq<char>) -> Seq<Seq<char>> {
    codes.map_values(|c: Seq<char>| c + "#"@ + asset)
}

/// Whether `s` reads `all` in any mix of upper and lower case.
pub open spec fn is_all_word(s: Seq<char>) -> bool {
    &&& s.len() == 3
    &&& (s[0] == 'a' || s[0] == 'A')
    &&& (s[1] == 'l' || s[1] == 'L')
    &&& (s[2] == 'l' || s[2] == 'L')
}

/// The symbols of one universe step (`index`, `stock`, `etfs`), or of all of them
/// for `all` in any case; none for any other step.
pub open spec fn ts_symbol_list(step: Seq<char>) -> Seq<Seq<char>> {
    if is_all_word(step) {
        tagged(ts_index_codes(), "I"@) + tagged(ts_stock_codes(), "E"@) + tagged(ts_etf_codes(), "FD"@)
    } else if step == "index"@ {
        tagged(ts_index_codes(), "I"@)
    } else if step == "stock"@ {
        tagged(ts_stock_codes(), "E"@)
    } else if step == "etfs"@ {
        tagged(ts_etf_codes(), "FD"@)
    } else {
        Seq::empty()
    }
}

fn index_codes() -> (r: Vec<String>)
    ensures
        texts(r@) == ts_index_codes(),
{
    let mut v: Vec<String> = Vec::new();
    push_text(&mut v, "000905.SH");
    push_text(&mut v, "000016.SH");
    push_text(&mut v, "000300.SH");
    push_text(&mut v, "000001.SH");
    push_text(&mut v, "000852.SH");
    push_text(&mut v, "399001.SZ");
    push_text(&mut v, "399006.SZ");
    push_text(&mut v, "399376.SZ");
    push_text(&mut v, "399377.SZ");
    push_text(&mut v, "399317.SZ");
    push_text(&mut v, "399303.SZ");
    assert(texts(v@) =~= ts_index_codes());
    v
}

fn stock_codes() -> (r: Vec<String>)
    ensures
        texts(r@) == ts_stock_codes(),
{
    let mut v: Vec<String> = Vec::new();
    push_text(&mut v, "000001.SZ");
    push_text(&mut v, "000002.SZ");
    assert(texts(v@) =~= ts_stock_codes());
    v
}

fn etf_codes() -> (r: Vec<String>)
    ensures
        texts(r@) == ts_etf_codes(),
{
    let mut v: Vec<String> = Vec::new();
    push_text(&mut v, "512880.SH");
    push_text(&mut v, "518880.SH");
    push_text(&mut v, "515880.SH");
    assert(texts(v@) =~= ts_etf_codes());
    v
}

/// Appends `code#asset` for every code, in order.
fn push_tagged(out: &mut Vec<String>, codes: &Vec<String>, asset: &str)
    ensures
        texts(final(out)@) == texts(old(out)@) + tagged(texts(codes@), asset@),
{
    let mut i: usize = 0;
    while i < codes.len()
        invariant
            i <= codes@.len(),
            texts(out@) == texts(old(out)@) + tagged(texts(codes@).take(i as int), asset@),
        decreases codes.len() - i,
    {
        let mut s = String::new();
        push_str(&mut s, codes[i].as_str());
        push_str(&mut s, "#");
        push_str(&mut s, asset);
        let ghost before = texts(out@);
        out.push(s);
        assert(texts(codes@).take(i + 1) =~= texts(codes@).take(i as int).push(codes@[i as int]@));
        assert(texts(out@) =~= before.push(codes@[i as int]@ + "#"@ + asset@));
        i = i + 1;
        assert(texts(out@) =~= texts(old(out)@) + tagged(texts(codes@).take(i as int), asset@));
    }
    assert(texts(codes@).take(codes@.len() as int) =~= texts(codes@));
}

fn is_all(step: &str) -> (r: bool)
    ensures
        r == is_all_word(step@),
{
    let v = chars_of(step);
    v.len() == 3 && (v[0] == 'a' || v[0] == 'A') && (v[1] == 'l' || v[1] == 'L')
        && (v[2] == 'l' || v[2] == 'L')
}

/// The Tushare symbols (`code#asset`) of a universe step.
pub fn get_symbols(step: &str) -> (r: Vec<String>)
    ensures
        texts(r@) == ts_symbol_list(step@),
{
    let mut out: Vec<String> = Vec::new();
    if is_all(step) {
        push_tagged(&mut out, &index_codes(), "I");
        push_tagged(&mut out, &stock_codes(), "E");
        push_tagged(&mut out, &etf_codes(), "FD");
        assert(texts(out@) =~= ts_symbol_list(step@));
    } else if str_eq(step, "index") {
        push_tagged(&mut out, &index_codes(), "I");
        assert(texts(out@) =~= ts_symbol_list(step@));
    } else if str_eq(step, "stock") {
        push_tagged(&mut out, &stock_codes(), "E");
        assert(texts(out@) =~= ts_symbol_list(step@));
    } else if str_eq(step, "etfs") {
        push_tagged(&mut out, &etf_codes(), "FD");
        assert(texts(out@) =~= ts_symbol_list(step@));
    } else {
        assert(texts(out@) =~= ts_symbol_list(step@));
    }
    out
}

} // verus!

