//! The TianQin futures source: its symbol list and product names.
use vstd::prelude::*;
use vstd::hash_map::StringHashMap;
use crate::text::{chars_of, parse_i64, parse_i64_text, push_text, put_text, texts, text_values};
use crate::textorder::{text_lt, text_order};

verus! {

/// The continuous main contracts of the futures exchanges, in exchange order.
pub open spec fn tq_symbol_list() -> Seq<Seq<char>> {
    Seq::empty()
        .push("KQ.m@SHFE.rb"@)
        .push("KQ.m@SHFE.fu"@)
        .push("KQ.m@SHFE.ag"@)
        .push("KQ.m@SHFE.hc"@)
        .push("KQ.m@SHFE.sp"@)
        .push("KQ.m@SHFE.ru"@)
        .push("KQ.m@SHFE.bu"@)
        .push("KQ.m@SHFE.ni"@)
        .push("KQ.m@SHFE.ss"@)
        .push("KQ.m@SHFE.au"@)
        .push("KQ.m@SHFE.sn"@)
        .push("KQ.m@SHFE.al"@)
        .push("KQ.m@SHFE.ao"@)
        .push("KQ.m@SHFE.zn"@)
        .push("KQ.m@SHFE.cu"@)
        .push("KQ.m@SHFE.pb"@)
        .push("KQ.m@SHFE.br"@)
        .push("KQ.m@CZCE.SA"@)
        .push("KQ.m@CZCE.FG"@)
        .push("KQ.m@CZCE.TA"@)
        .push("KQ.m@CZCE.MA"@)
        .push("KQ.m@CZCE.RM"@)
        .push("KQ.m@CZCE.CF"@)
        .push("KQ.m@CZCE.OI"@)
        .push("KQ.m@CZCE.SR"@)
        .push("KQ.m@CZCE.UR"@)
        .push("KQ.m@CZCE.PF"@)
        .push("KQ.m@CZCE.AP"@)
        .push("KQ.m@CZCE.SF"@)
        .push("KQ.m@CZCE.PX"@)
        .push("KQ.m@CZCE.CJ"@)
        .push("KQ.m@CZCE.PK"@)
        .push("KQ.m@CZCE.SM"@)
        .push("KQ.m@CZCE.CY"@)
        .push("KQ.m@CZCE.RS"@)
        .push("KQ.m@DCE.m"@)
        .push("KQ.m@DCE.p"@)
        .push("KQ.m@DCE.i"@)
        .push("KQ.m@DCE.v"@)
        .push("KQ.m@DCE.y"@)
        .push("KQ.m@DCE.eg"@)
        .push("KQ.m@DCE.c"@)
        .push("KQ.m@DCE.pp"@)
        .push("KQ.m@DCE.l"@)
        .push("KQ.m@DCE.cs"@)
        .push("KQ.m@DCE.a"@)
        .push("KQ.m@DCE.eb"@)
        .push("KQ.m@DCE.jm"@)
        .push("KQ.m@DCE.b"@)
        .push("KQ.m@DCE.pg"@)
        .push("KQ.m@DCE.jd"@)
        .push("KQ.m@DCE.j"@)
        .push("KQ.m@DCE.lh"@)
        .push("KQ.m@DCE.rr"@)
        .push("KQ.m@DCE.fb"@)
        .push("KQ.m@DCE.bb"@)
        .push("KQ.m@GFEX.si"@)
        .push("KQ.m@GFEX.lc"@)
        .push("KQ.m@INE.lu"@)
        .push("KQ.m@INE.sc"@)
        .push("KQ.m@INE.nr"@)
        .push("KQ.m@INE.bc"@)
        .push("KQ.m@INE.ec"@)
        .push("KQ.m@CFFEX.T"@)
        .push("KQ.m@CFFEX.TF"@)
        .push("KQ.m@CFFEX.TS"@)
        .push("KQ.m@CFFEX.TL"@)
        .push("KQ.m@CFFEX.IF"@)
        .push("KQ.m@CFFEX.IC"@)
        .push("KQ.m@CFFEX.IH"@)
        .push("KQ.m@CFFEX.IM"@)
}

/// The futures symbols of the TianQin source (`tq_connector::get_symbols`).
pub fn get_symbols() -> (r: Vec<String>)
    ensures
        texts(r@) == tq_symbol_list(),
{
    let mut v: Vec<String> = Vec::new();
    assert(texts(v@) =~= Seq::empty());
    push_text(&mut v, "KQ.m@SHFE.rb");
    push_text(&mut v, "KQ.m@SHFE.fu");
    push_text(&mut v, "KQ.m@SHFE.ag");
    push_text(&mut v, "KQ.m@SHFE.hc");
    push_text(&mut v, "KQ.m@SHFE.sp");
    push_text(&mut v, "KQ.m@SHFE.ru");
    push_text(&mut v, "KQ.m@SHFE.bu");
    push_text(&mut v, "KQ.m@SHFE.ni");
    push_text(&mut v, "KQ.m@SHFE.ss");
    push_text(&mut v, "KQ.m@SHFE.au");
    push_text(&mut v, "KQ.m@SHFE.sn");
    push_text(&mut v, "KQ.m@SHFE.al");
    push_text(&mut v, "KQ.m@SHFE.ao");
    push_text(&mut v, "KQ.m@SHFE.zn");
    push_text(&mut v, "KQ.m@SHFE.cu");
    push_text(&mut v, "KQ.m@SHFE.pb");
    push_text(&mut v, "KQ.m@SHFE.br");
    push_text(&mut v, "KQ.m@CZCE.SA");
    push_text(&mut v, "KQ.m@CZCE.FG");
    push_text(&mut v, "KQ.m@CZCE.TA");
    push_text(&mut v, "KQ.m@CZCE.MA");
    push_text(&mut v, "KQ.m@CZCE.RM");
    push_text(&mut v, "KQ.m@CZCE.CF");
    push_text(&mut v, "KQ.m@CZCE.OI");
    push_text(&mut v, "KQ.m@CZCE.SR");
    push_text(&mut v, "KQ.m@CZCE.UR");
    push_text(&mut v, "KQ.m@CZCE.PF");
    push_text(&mut v, "KQ.m@CZCE.AP");
    push_text(&mut v, "KQ.m@CZCE.SF");
    push_text(&mut v, "KQ.m@CZCE.PX");
    push_text(&mut v, "KQ.m@CZCE.CJ");
    push_text(&mut v, "KQ.m@CZCE.PK");
    push_text(&mut v, "KQ.m@CZCE.SM");
    push_text(&mut v, "KQ.m@CZCE.CY");
    push_text(&mut v, "KQ.m@CZCE.RS");
    push_text(&mut v, "KQ.m@DCE.m");
    push_text(&mut v, "KQ.m@DCE.p");
    push_text(&mut v, "KQ.m@DCE.i");
    push_text(&mut v, "KQ.m@DCE.v");
    push_text(&mut v, "KQ.m@DCE.y");
    push_text(&mut v, "KQ.m@DCE.eg");
    push_text(&mut v, "KQ.m@DCE.c");
    push_text(&mut v, "KQ.m@DCE.pp");
    push_text(&mut v, "KQ.m@DCE.l");
    push_text(&mut v, "KQ.m@DCE.cs");
    push_text(&mut v, "KQ.m@DCE.a");
    push_text(&mut v, "KQ.m@DCE.eb");
    push_text(&mut v, "KQ.m@DCE.jm");
    push_text(&mut v, "KQ.m@DCE.b");
    push_text(&mut v, "KQ.m@DCE.pg");
    push_text(&mut v, "KQ.m@DCE.jd");
    push_text(&mut v, "KQ.m@DCE.j");
    push_text(&mut v, "KQ.m@DCE.lh");
    push_text(&mut v, "KQ.m@DCE.rr");
    push_text(&mut v, "KQ.m@DCE.fb");
    push_text(&mut v, "KQ.m@DCE.bb");
    push_text(&mut v, "KQ.m@GFEX.si");
    push_text(&mut v, "KQ.m@GFEX.lc");
    push_text(&mut v, "KQ.m@INE.lu");
    push_text(&mut v, "KQ.m@INE.sc");
    push_text(&mut v, "KQ.m@INE.nr");
    push_text(&mut v, "KQ.m@INE.bc");
    push_text(&mut v, "KQ.m@INE.ec");
    push_text(&mut v, "KQ.m@CFFEX.T");
    push_text(&mut v, "KQ.m@CFFEX.TF");
    push_text(&mut v, "KQ.m@CFFEX.TS");
    push_text(&mut v, "KQ.m@CFFEX.TL");
    push_text(&mut v, "KQ.m@CFFEX.IF");
    push_text(&mut v, "KQ.m@CFFEX.IC");
    push_text(&mut v, "KQ.m@CFFEX.IH");
    push_text(&mut v, "KQ.m@CFFEX.IM");
    v
}

/// Contract code to Chinese product name.
pub open spec fn future_names() -> Map<Seq<char>, Seq<char>> {
    Map::empty()
        .insert("AO"@, "氧化铝"@)
        .insert("PX"@, "对二甲苯"@)
        .insert("EC"@, "欧线集运"@)
        .insert("LC"@, "碳酸锂"@)
        .insert("PG"@, "LPG"@)
        .insert("EB"@, "苯乙烯"@)
        .insert("CS"@, "玉米淀粉"@)
        .insert("C"@, "玉米"@)
        .insert("V"@, "PVC"@)
        .insert("J"@, "焦炭"@)
        .insert("BB"@, "胶合板"@)
        .insert("M"@, "豆粕"@)
        .insert("A"@, "豆一"@)
        .insert("PP"@, "聚丙烯"@)
        .insert("P"@, "棕榈油"@)
        .insert("FB"@, "纤维板"@)
        .insert("B"@, "豆二"@)
        .insert("JD"@, "鸡蛋"@)
        .insert("JM"@, "焦煤"@)
        .insert("L"@, "塑料"@)
        .insert("I"@, "铁矿石"@)
        .insert("Y"@, "豆油"@)
        .insert("RR"@, "粳米"@)
        .insert("EG"@, "乙二醇"@)
        .insert("LH"@, "生猪"@)
        .insert("CJ"@, "红枣"@)
        .insert("UR"@, "尿素"@)
        .insert("TA"@, "PTA"@)
        .insert("OI"@, "菜油"@)
        .insert("MA"@, "甲醇"@)
        .insert("RS"@, "菜籽"@)
        .insert("ZC"@, "动力煤"@)
        .insert("LR"@, "晚籼稻"@)
        .insert("PM"@, "普麦"@)
        .insert("SR"@, "白糖"@)
        .insert("RI"@, "早籼稻"@)
        .insert("SF"@, "硅铁"@)
        .insert("WH"@, "强麦"@)
        .insert("JR"@, "粳稻"@)
        .insert("SM"@, "锰硅"@)
        .insert("FG"@, "玻璃"@)
        .insert("CF"@, "棉花"@)
        .insert("RM"@, "菜粕"@)
        .insert("PF"@, "短纤"@)
        .insert("AP"@, "苹果"@)
        .insert("CY"@, "棉纱"@)
        .insert("ER"@, "早籼稻"@)
        .insert("ME"@, "甲醇"@)
        .insert("RO"@, "菜油"@)
        .insert("TC"@, "动力煤"@)
        .insert("WS"@, "强麦"@)
        .insert("WT"@, "硬麦"@)
        .insert("SA"@, "纯碱"@)
        .insert("PK"@, "花生"@)
        .insert("SS"@, "不锈钢"@)
        .insert("AL"@, "沪铝"@)
        .insert("CU"@, "沪铜"@)
        .insert("ZN"@, "沪锌"@)
        .insert("AG"@, "白银"@)
        .insert("RB"@, "螺纹钢"@)
        .insert("SN"@, "沪锡"@)
        .insert("NI"@, "沪镍"@)
        .insert("WR"@, "线材"@)
        .insert("FU"@, "燃油"@)
        .insert("AU"@, "黄金"@)
        .insert("PB"@, "沪铅"@)
        .insert("RU"@, "橡胶"@)
        .insert("BR"@, "合成橡胶"@)
        .insert("HC"@, "热轧卷板"@)
        .insert("BU"@, "沥青"@)
        .insert("SP"@, "纸浆"@)
        .insert("NR"@, "20号胶"@)
        .insert("SC"@, "原油"@)
        .insert("LU"@, "低硫燃料油"@)
        .insert("BC"@, "国际铜"@)
        .insert("SCTAS"@, "原油TAS指令"@)
        .insert("SI"@, "工业硅"@)
}

/// The table from contract code to product name.
pub fn future_name_map() -> (r: StringHashMap<String>)
    ensures
        text_values(r@) == future_names(),
{
    let mut m: StringHashMap<String> = StringHashMap::new();
    assert(text_values(m@) =~= Map::empty());
    put_text(&mut m, "AO", "氧化铝");
    put_text(&mut m, "PX", "对二甲苯");
    put_text(&mut m, "EC", "欧线集运");
    put_text(&mut m, "LC", "碳酸锂");
    put_text(&mut m, "PG", "LPG");
    put_text(&mut m, "EB", "苯乙烯");
    put_text(&mut m, "CS", "玉米淀粉");
    put_text(&mut m, "C", "玉米");
    put_text(&mut m, "V", "PVC");
    put_text(&mut m, "J", "焦炭");
    put_text(&mut m, "BB", "胶合板");
    put_text(&mut m, "M", "豆粕");
    put_text(&mut m, "A", "豆一");
    put_text(&mut m, "PP", "聚丙烯");
    put_text(&mut m, "P", "棕榈油");
    put_text(&mut m, "FB", "纤维板");
    put_text(&mut m, "B", "豆二");
    put_text(&mut m, "JD", "鸡蛋");
    put_text(&mut m, "JM", "焦煤");
    put_text(&mut m, "L", "塑料");
    put_text(&mut m, "I", "铁矿石");
    put_text(&mut m, "Y", "豆油");
    put_text(&mut m, "RR", "粳米");
    put_text(&mut m, "EG", "乙二醇");
    put_text(&mut m, "LH", "生猪");
    put_text(&mut m, "CJ", "红枣");
    put_text(&mut m, "UR", "尿素");
    put_text(&mut m, "TA", "PTA");
    put_text(&mut m, "OI", "菜油");
    put_text(&mut m, "MA", "甲醇");
    put_text(&mut m, "RS", "菜籽");
    put_text(&mut m, "ZC", "动力煤");
    put_text(&mut m, "LR", "晚籼稻");
    put_text(&mut m, "PM", "普麦");
    put_text(&mut m, "SR", "白糖");
    put_text(&mut m, "RI", "早籼稻");
    put_text(&mut m, "SF", "硅铁");
    put_text(&mut m, "WH", "强麦");
    put_text(&mut m, "JR", "粳稻");
    put_text(&mut m, "SM", "锰硅");
    put_text(&mut m, "FG", "玻璃");
    put_text(&mut m, "CF", "棉花");
    put_text(&mut m, "RM", "菜粕");
    put_text(&mut m, "PF", "短纤");
    put_text(&mut m, "AP", "苹果");
    put_text(&mut m, "CY", "棉纱");
    put_text(&mut m, "ER", "早籼稻");
    put_text(&mut m, "ME", "甲醇");
    put_text(&mut m, "RO", "菜油");
    put_text(&mut m, "TC", "动力煤");
    put_text(&mut m, "WS", "强麦");
    put_text(&mut m, "WT", "硬麦");
    put_text(&mut m, "SA", "纯碱");
    put_text(&mut m, "PK", "花生");
    put_text(&mut m, "SS", "不锈钢");
    put_text(&mut m, "AL", "沪铝");
    put_text(&mut m, "CU", "沪铜");
    put_text(&mut m, "ZN", "沪锌");
    put_text(&mut m, "AG", "白银");
    put_text(&mut m, "RB", "螺纹钢");
    put_text(&mut m, "SN", "沪锡");
    put_text(&mut m, "NI", "沪镍");
    put_text(&mut m, "WR", "线材");
    put_text(&mut m, "FU", "燃油");
    put_text(&mut m, "AU", "黄金");
    put_text(&mut m, "PB", "沪铅");
    put_text(&mut m, "RU", "橡胶");
    put_text(&mut m, "BR", "合成橡胶");
    put_text(&mut m, "HC", "热轧卷板");
    put_text(&mut m, "BU", "沥青");
    put_text(&mut m, "SP", "纸浆");
    put_text(&mut m, "NR", "20号胶");
    put_text(&mut m, "SC", "原油");
    put_text(&mut m, "LU", "低硫燃料油");
    put_text(&mut m, "BC", "国际铜");
    put_text(&mut m, "SCTAS", "原油TAS指令");
    put_text(&mut m, "SI", "工业硅");
    m
}


/// The end of a one-minute bar that starts at `ns` (nanoseconds since the epoch,
/// as text; 0 when it does not read as an `i64`): its start in whole seconds,
/// rounded toward zero, plus a minute.
pub open spec fn bar_end_of(ns: Seq<char>) -> int {
    let n: int = match parse_i64_text(ns) {
        Some(x) => x as int,
        None => 0,
    };
    (if n >= 0 {
        n / 1_000_000_000
    } else {
        -((-n) / 1_000_000_000)
    }) + 60
}

/// The end time, in seconds since the epoch, of the one-minute bar that starts at
/// the nanosecond time stamp `datetime_ns` (see `bar_end_of`).
pub fn bar_end_secs(datetime_ns: &str) -> (r: i64)
    ensures
        r == bar_end_of(datetime_ns@),
{
    let n: i128 = match parse_i64(&chars_of(datetime_ns)) {
        Some(x) => x as i128,
        None => 0,
    };
    let q: i128 = if n >= 0 {
        n / 1_000_000_000
    } else {
        0 - ((0 - n) / 1_000_000_000)
    };
    (q + 60) as i64
}

/// The local wall-clock time written as `%H:%M` by chrono. Nothing is claimed of
/// it: it depends on the clock and on the machine's time zone.
#[verifier::external_body]
fn local_hour_minute() -> String {
    chrono::Local::now().format("%H:%M").to_string()
}

/// Whether trading has ended at the wall-clock time `hm` (`%H:%M`, compared as
/// text): from 15:16 to 16:35 after the day session, or from 02:31 to 04:00 after
/// the night session.
pub open spec fn trading_ended(hm: Seq<char>) -> bool {
    ||| (!text_lt(hm, "08:30"@) && !text_lt("16:35"@, hm) && !text_lt(hm, "15:16"@))
    ||| (!text_lt(hm, "00:30"@) && !text_lt("04:00"@, hm) && !text_lt(hm, "02:31"@))
}

/// Whether trading has ended at the wall-clock time `hm` (see `trading_ended`).
pub fn trading_ended_at(hm: &str) -> (r: bool)
    ensures
        r == trading_ended(hm@),
{
    let t = chars_of(hm);
    let not_before = |bound: &str| -> (b: bool)
        ensures
            b == !text_lt(t@, bound@),
        { text_order(&t, &chars_of(bound)) >= 0 };
    let not_after = |bound: &str| -> (b: bool)
        ensures
            b == !text_lt(bound@, t@),
        { text_order(&t, &chars_of(bound)) <= 0 };
    (not_before("08:30") && not_after("16:35") && not_before("15:16")) || (not_before("00:30") && not_after("04:00")
        && not_before("02:31"))
}

/// Whether trading has ended now, by the local wall clock: `trading_ended_at` of
/// the local time, which the clock decides.
pub fn is_trading_end() -> bool {
    let hm = local_hour_minute();
    trading_ended_at(hm.as_str())
}
} // verus!

