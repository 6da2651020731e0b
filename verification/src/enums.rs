//! The enumerations of the analysis: trading operations, fractal marks,
//! stroke directions and bar periods.
use vstd::prelude::*;
use crate::text::{chars_eq_str, chars_of, owned};

verus! {

/// A trading operation or holding state.
#[derive(Debug, Clone, Copy, PartialEq, Eq, Hash, Structural)]
pub enum Operate {
    /// Holding long.
    HL,
    /// Holding short.
    HS,
    /// Holding nothing.
    HO,
    /// Opening long.
    LO,
    /// Exiting long.
    LE,
    /// Opening short.
    SO,
    /// Exiting short.
    SE,
}

impl Default for Operate {
    fn default() -> (r: Self)
        ensures
            r == Operate::HO,
    {
        Operate::HO
    }
}

/// The display label of an operation.
pub open spec fn operate_label(op: Operate) -> Seq<char> {
    match op {
        Operate::HL => "持多"@,
        Operate::HS => "持空"@,
        Operate::HO => "持币"@,
        Operate::LO => "开多"@,
        Operate::LE => "平多"@,
        Operate::SO => "开空"@,
        Operate::SE => "平空"@,
    }
}

impl Operate {
    /// The display label of the operation (what `Display` writes).
    pub fn label(&self) -> (r: String)
        ensures
            r@ == operate_label(*self),
    {
        match self {
            Operate::HL => owned("持多"),
            Operate::HS => owned("持空"),
            Operate::HO => owned("持币"),
            Operate::LO => owned("开多"),
            Operate::LE => owned("平多"),
            Operate::SO => owned("开空"),
            Operate::SE => owned("平空"),
        }
    }
}

/// A fractal mark: bottom (`D`) or top (`G`).
#[derive(Debug, Clone, Copy, PartialEq, Eq, Hash, Structural)]
pub enum Mark {
    /// Bottom fractal.
    D,
    /// Top fractal.
    G,
}

/// The display label of a mark.
pub open spec fn mark_label(m: Mark) -> Seq<char> {
    match m {
        Mark::D => "底分型"@,
        Mark::G => "顶分型"@,
    }
}

impl Mark {
    /// The display label of the mark (what `Display` writes).
    pub fn label(&self) -> (r: String)
        ensures
            r@ == mark_label(*self),
    {
        match self {
            Mark::D => owned("底分型"),
            Mark::G => owned("顶分型"),
        }
    }
}

/// A stroke direction.
#[derive(Debug, Clone, Copy, PartialEq, Eq, Hash, Structural)]
pub enum Direction {
    /// Upwards.
    Up,
    /// Downwards.
    Down,
}

/// The display label of a direction.
pub open spec fn direction_label(d: Direction) -> Seq<char> {
    match d {
        Direction::Up => "向上"@,
        Direction::Down => "向下"@,
    }
}

impl Direction {
    /// The display label of the direction (what `Display` writes).
    pub fn label(&self) -> (r: String)
        ensures
            r@ == direction_label(*self),
    {
        match self {
            Direction::Up => owned("向上"),
            Direction::Down => owned("向下"),
        }
    }
}

/// A bar period.
#[derive(Debug, Clone, Copy, PartialEq, Eq, Hash, Structural)]
pub enum Freq {
    Tick,
    F1,
    F2,
    F3,
    F4,
    F5,
    F6,
    F10,
    F12,
    F15,
    F20,
    F30,
    F60,
    F120,
    D,
    W,
    M,
    S,
    Y,
}

/// The display label of a period.
pub open spec fn freq_label(f: Freq) -> Seq<char> {
    match f {
        Freq::Tick => "Tick"@,
        Freq::F1 => "1分钟"@,
        Freq::F2 => "2分钟"@,
        Freq::F3 => "3分钟"@,
        Freq::F4 => "4分钟"@,
        Freq::F5 => "5分钟"@,
        Freq::F6 => "6分钟"@,
        Freq::F10 => "10分钟"@,
        Freq::F12 => "12分钟"@,
        Freq::F15 => "15分钟"@,
        Freq::F20 => "20分钟"@,
        Freq::F30 => "30分钟"@,
        Freq::F60 => "60分钟"@,
        Freq::F120 => "120分钟"@,
        Freq::D => "日线"@,
        Freq::W => "周线"@,
        Freq::M => "月线"@,
        Freq::S => "季线"@,
        Freq::Y => "年线"@,
    }
}

/// The period that a text names, if any: its label, its short form
/// (`1m`, `D`, ...), or its variant name in either case.
pub open spec fn freq_of_text(s: Seq<char>) -> Option<Freq> {
    if s == "Tick"@ || s == "tick"@ { Some(Freq::Tick) }
    else if s == "1分钟"@ || s == "1m"@ || s == "F1"@ || s == "f1"@ { Some(Freq::F1) }
    else if s == "2分钟"@ || s == "2m"@ || s == "F2"@ || s == "f2"@ { Some(Freq::F2) }
    else if s == "3分钟"@ || s == "3m"@ || s == "F3"@ || s == "f3"@ { Some(Freq::F3) }
    else if s == "4分钟"@ || s == "4m"@ || s == "F4"@ || s == "f4"@ { Some(Freq::F4) }
    else if s == "5分钟"@ || s == "5m"@ || s == "F5"@ || s == "f5"@ { Some(Freq::F5) }
    else if s == "6分钟"@ || s == "6m"@ || s == "F6"@ || s == "f6"@ { Some(Freq::F6) }
    else if s == "10分钟"@ || s == "10m"@ || s == "F10"@ || s == "f10"@ { Some(Freq::F10) }
    else if s == "12分钟"@ || s == "12m"@ || s == "F12"@ || s == "f12"@ { Some(Freq::F12) }
    else if s == "15分钟"@ || s == "15m"@ || s == "F15"@ || s == "f15"@ { Some(Freq::F15) }
    else if s == "20分钟"@ || s == "20m"@ || s == "F20"@ || s == "f20"@ { Some(Freq::F20) }
    else if s == "30分钟"@ || s == "30m"@ || s == "F30"@ || s == "f30"@ { Some(Freq::F30) }
    else if s == "60分钟"@ || s == "60m"@ || s == "F60"@ || s == "f60"@ { Some(Freq::F60) }
    else if s == "120分钟"@ || s == "120m"@ || s == "F120"@ || s == "f120"@ { Some(Freq::F120) }
    else if s == "日线"@ || s == "D"@ || s == "d"@ { Some(Freq::D) }
    else if s == "周线"@ || s == "W"@ || s == "w"@ { Some(Freq::W) }
    else if s == "月线"@ || s == "M"@ || s == "m"@ { Some(Freq::M) }
    else if s == "季线"@ || s == "S"@ || s == "s"@ { Some(Freq::S) }
    else if s == "年线"@ || s == "Y"@ || s == "y"@ { Some(Freq::Y) }
    else { None }
}

fn is_one_of4(v: &Vec<char>, a: &str, b: &str, c: &str, d: &str) -> (r: bool)
    ensures
        r == (v@ == a@ || v@ == b@ || v@ == c@ || v@ == d@),
{
    chars_eq_str(v, a) || chars_eq_str(v, b) || chars_eq_str(v, c) || chars_eq_str(v, d)
}

fn is_one_of3(v: &Vec<char>, a: &str, b: &str, c: &str) -> (r: bool)
    ensures
        r == (v@ == a@ || v@ == b@ || v@ == c@),
{
    chars_eq_str(v, a) || chars_eq_str(v, b) || chars_eq_str(v, c)
}

impl Freq {
    /// The display label of the period (what `Display` writes).
    pub fn label(&self) -> (r: String)
        ensures
            r@ == freq_label(*self),
    {
        match self {
            Freq::Tick => owned("Tick"),
            Freq::F1 => owned("1分钟"),
            Freq::F2 => owned("2分钟"),
            Freq::F3 => owned("3分钟"),
            Freq::F4 => owned("4分钟"),
            Freq::F5 => owned("5分钟"),
            Freq::F6 => owned("6分钟"),
            Freq::F10 => owned("10分钟"),
            Freq::F12 => owned("12分钟"),
            Freq::F15 => owned("15分钟"),
            Freq::F20 => owned("20分钟"),
            Freq::F30 => owned("30分钟"),
            Freq::F60 => owned("60分钟"),
            Freq::F120 => owned("120分钟"),
            Freq::D => owned("日线"),
            Freq::W => owned("周线"),
            Freq::M => owned("月线"),
            Freq::S => owned("季线"),
            Freq::Y => owned("年线"),
        }
    }

    /// The period that `s` names (what `FromStr` accepts), or `None`.
    pub fn parse_text(s: &str) -> (r: Option<Freq>)
        ensures
            r == freq_of_text(s@),
    {
        let v = chars_of(s);
        if chars_eq_str(&v, "Tick") || chars_eq_str(&v, "tick") { Some(Freq::Tick) }
        else if is_one_of4(&v, "1分钟", "1m", "F1", "f1") { Some(Freq::F1) }
        else if is_one_of4(&v, "2分钟", "2m", "F2", "f2") { Some(Freq::F2) }
        else if is_one_of4(&v, "3分钟", "3m", "F3", "f3") { Some(Freq::F3) }
        else if is_one_of4(&v, "4分钟", "4m", "F4", "f4") { Some(Freq::F4) }
        else if is_one_of4(&v, "5分钟", "5m", "F5", "f5") { Some(Freq::F5) }
        else if is_one_of4(&v, "6分钟", "6m", "F6", "f6") { Some(Freq::F6) }
        else if is_one_of4(&v, "10分钟", "10m", "F10", "f10") { Some(Freq::F10) }
        else if is_one_of4(&v, "12分钟", "12m", "F12", "f12") { Some(Freq::F12) }
        else if is_one_of4(&v, "15分钟", "15m", "F15", "f15") { Some(Freq::F15) }
        else if is_one_of4(&v, "20分钟", "20m", "F20", "f20") { Some(Freq::F20) }
        else if is_one_of4(&v, "30分钟", "30m", "F30", "f30") { Some(Freq::F30) }
        else if is_one_of4(&v, "60分钟", "60m", "F60", "f60") { Some(Freq::F60) }
        else if is_one_of4(&v, "120分钟", "120m", "F120", "f120") { Some(Freq::F120) }
        else if is_one_of3(&v, "日线", "D", "d") { Some(Freq::D) }
        else if is_one_of3(&v, "周线", "W", "w") { Some(Freq::W) }
        else if is_one_of3(&v, "月线", "M", "m") { Some(Freq::M) }
        else if is_one_of3(&v, "季线", "S", "s") { Some(Freq::S) }
        else if is_one_of3(&v, "年线", "Y", "y") { Some(Freq::Y) }
        else { None }
    }
}

impl std::str::FromStr for Freq {
    type Err = ();

    fn from_str(s: &str) -> (r: Result<Self, Self::Err>)
        ensures
            r == match freq_of_text(s@) {
                Some(f) => Ok::<Freq, ()>(f),
                None => Err::<Freq, ()>(()),
            },
    {
        match Freq::parse_text(s) {
            Some(f) => Ok(f),
            None => Err(()),
        }
    }
}

} // verus!

verus! {

/// Reading back the label of a period gives the period again.
pub proof fn lemma_freq_label_parses_back(f: Freq)
    ensures
        freq_of_text(freq_label(f)) == Some(f),
{
    match f {
        Freq::Tick => {
            assert(freq_of_text(freq_label(Freq::Tick)) == Some(Freq::Tick));
        },
        Freq::F1 => {
            reveal_strlit("Tick");
            assert("Tick"@ =~= seq!['T', 'i', 'c', 'k']);
            reveal_strlit("tick");
            assert("tick"@ =~= seq!['t', 'i', 'c', 'k']);
            reveal_strlit("1分钟");
            assert("1分钟"@ =~= seq!['1', '分', '钟']);
            reveal_strlit("1m");
            assert("1m"@ =~= seq!['1', 'm']);
            reveal_strlit("F1");
            assert("F1"@ =~= seq!['F', '1']);
            reveal_strlit("f1");
            assert("f1"@ =~= seq!['f', '1']);
            assert(freq_of_text(freq_label(Freq::F1)) == Some(Freq::F1));
        },
        Freq::F2 => {
            reveal_strlit("Tick");
            assert("Tick"@ =~= seq!['T', 'i', 'c', 'k']);
            reveal_strlit("tick");
            assert("tick"@ =~= seq!['t', 'i', 'c', 'k']);
            reveal_strlit("1分钟");
            assert("1分钟"@ =~= seq!['1', '分', '钟']);
            reveal_strlit("1m");
            assert("1m"@ =~= seq!['1', 'm']);
            reveal_strlit("F1");
            assert("F1"@ =~= seq!['F', '1']);
            reveal_strlit("f1");
            assert("f1"@ =~= seq!['f', '1']);
            reveal_strlit("2分钟");
            assert("2分钟"@ =~= seq!['2', '分', '钟']);
            reveal_strlit("2m");
            assert("2m"@ =~= seq!['2', 'm']);
            reveal_strlit("F2");
            assert("F2"@ =~= seq!['F', '2']);
            reveal_strlit("f2");
            assert("f2"@ =~= seq!['f', '2']);
            assert(freq_of_text(freq_label(Freq::F2)) == Some(Freq::F2));
        },
        Freq::F3 => {
            reveal_strlit("Tick");
            assert("Tick"@ =~= seq!['T', 'i', 'c', 'k']);
            reveal_strlit("tick");
            assert("tick"@ =~= seq!['t', 'i', 'c', 'k']);
            reveal_strlit("1分钟");
            assert("1分钟"@ =~= seq!['1', '分', '钟']);
            reveal_strlit("1m");
            assert("1m"@ =~= seq!['1', 'm']);
            reveal_strlit("F1");
            assert("F1"@ =~= seq!['F', '1']);
            reveal_strlit("f1");
            assert("f1"@ =~= seq!['f', '1']);
            reveal_strlit("2分钟");
            assert("2分钟"@ =~= seq!['2', '分', '钟']);
            reveal_strlit("2m");
            assert("2m"@ =~= seq!['2', 'm']);
            reveal_strlit("F2");
            assert("F2"@ =~= seq!['F', '2']);
            reveal_strlit("f2");
            assert("f2"@ =~= seq!['f', '2']);
            reveal_strlit("3分钟");
            assert("3分钟"@ =~= seq!['3', '分', '钟']);
            reveal_strlit("3m");
            assert("3m"@ =~= seq!['3', 'm']);
            reveal_strlit("F3");
            assert("F3"@ =~= seq!['F', '3']);
            reveal_strlit("f3");
            assert("f3"@ =~= seq!['f', '3']);
            assert(freq_of_text(freq_label(Freq::F3)) == Some(Freq::F3));
        },
        Freq::F4 => {
            reveal_strlit("Tick");
            assert("Tick"@ =~= seq!['T', 'i', 'c', 'k']);
            reveal_strlit("tick");
            assert("tick"@ =~= seq!['t', 'i', 'c', 'k']);
            reveal_strlit("1分钟");
            assert("1分钟"@ =~= seq!['1', '分', '钟']);
            reveal_strlit("1m");
            assert("1m"@ =~= seq!['1', 'm']);
            reveal_strlit("F1");
            assert("F1"@ =~= seq!['F', '1']);
            reveal_strlit("f1");
            assert("f1"@ =~= seq!['f', '1']);
            reveal_strlit("2分钟");
            assert("2分钟"@ =~= seq!['2', '分', '钟']);
            reveal_strlit("2m");
            assert("2m"@ =~= seq!['2', 'm']);
            reveal_strlit("F2");
            assert("F2"@ =~= seq!['F', '2']);
            reveal_strlit("f2");
            assert("f2"@ =~= seq!['f', '2']);
            reveal_strlit("3分钟");
            assert("3分钟"@ =~= seq!['3', '分', '钟']);
            reveal_strlit("3m");
            assert("3m"@ =~= seq!['3', 'm']);
            reveal_strlit("F3");
            assert("F3"@ =~= seq!['F', '3']);
            reveal_strlit("f3");
            assert("f3"@ =~= seq!['f', '3']);
            reveal_strlit("4分钟");
            assert("4分钟"@ =~= seq!['4', '分', '钟']);
            reveal_strlit("4m");
            assert("4m"@ =~= seq!['4', 'm']);
            reveal_strlit("F4");
            assert("F4"@ =~= seq!['F', '4']);
            reveal_strlit("f4");
            assert("f4"@ =~= seq!['f', '4']);
            assert(freq_of_text(freq_label(Freq::F4)) == Some(Freq::F4));
        },
        Freq::F5 => {
            reveal_strlit("Tick");
            assert("Tick"@ =~= seq!['T', 'i', 'c', 'k']);
            reveal_strlit("tick");
            assert("tick"@ =~= seq!['t', 'i', 'c', 'k']);
            reveal_strlit("1分钟");
            assert("1分钟"@ =~= seq!['1', '分', '钟']);
            reveal_strlit("1m");
            assert("1m"@ =~= seq!['1', 'm']);
            reveal_strlit("F1");
            assert("F1"@ =~= seq!['F', '1']);
            reveal_strlit("f1");
            assert("f1"@ =~= seq!['f', '1']);
            reveal_strlit("2分钟");
            assert("2分钟"@ =~= seq!['2', '分', '钟']);
            reveal_strlit("2m");
            assert("2m"@ =~= seq!['2', 'm']);
            reveal_strlit("F2");
            assert("F2"@ =~= seq!['F', '2']);
            reveal_strlit("f2");
            assert("f2"@ =~= seq!['f', '2']);
            reveal_strlit("3分钟");
            assert("3分钟"@ =~= seq!['3', '分', '钟']);
            reveal_strlit("3m");
            assert("3m"@ =~= seq!['3', 'm']);
            reveal_strlit("F3");
            assert("F3"@ =~= seq!['F', '3']);
            reveal_strlit("f3");
            assert("f3"@ =~= seq!['f', '3']);
            reveal_strlit("4分钟");
            assert("4分钟"@ =~= seq!['4', '分', '钟']);
            reveal_strlit("4m");
            assert("4m"@ =~= seq!['4', 'm']);
            reveal_strlit("F4");
            assert("F4"@ =~= seq!['F', '4']);
            reveal_strlit("f4");
            assert("f4"@ =~= seq!['f', '4']);
            reveal_strlit("5分钟");
            assert("5分钟"@ =~= seq!['5', '分', '钟']);
            reveal_strlit("5m");
            assert("5m"@ =~= seq!['5', 'm']);
            reveal_strlit("F5");
            assert("F5"@ =~= seq!['F', '5']);
            reveal_strlit("f5");
            assert("f5"@ =~= seq!['f', '5']);
            assert(freq_of_text(freq_label(Freq::F5)) == Some(Freq::F5));
        },
        Freq::F6 => {
            reveal_strlit("Tick");
            assert("Tick"@ =~= seq!['T', 'i', 'c', 'k']);
            reveal_strlit("tick");
            assert("tick"@ =~= seq!['t', 'i', 'c', 'k']);
            reveal_strlit("1分钟");
            assert("1分钟"@ =~= seq!['1', '分', '钟']);
            reveal_strlit("1m");
            assert("1m"@ =~= seq!['1', 'm']);
            reveal_strlit("F1");
            assert("F1"@ =~= seq!['F', '1']);
            reveal_strlit("f1");
            assert("f1"@ =~= seq!['f', '1']);
            reveal_strlit("2分钟");
            assert("2分钟"@ =~= seq!['2', '分', '钟']);
            reveal_strlit("2m");
            assert("2m"@ =~= seq!['2', 'm']);
            reveal_strlit("F2");
            assert("F2"@ =~= seq!['F', '2']);
            reveal_strlit("f2");
            assert("f2"@ =~= seq!['f', '2']);
            reveal_strlit("3分钟");
            assert("3分钟"@ =~= seq!['3', '分', '钟']);
            reveal_strlit("3m");
            assert("3m"@ =~= seq!['3', 'm']);
            reveal_strlit("F3");
            assert("F3"@ =~= seq!['F', '3']);
            reveal_strlit("f3");
            assert("f3"@ =~= seq!['f', '3']);
            reveal_strlit("4分钟");
            assert("4分钟"@ =~= seq!['4', '分', '钟']);
            reveal_strlit("4m");
            assert("4m"@ =~= seq!['4', 'm']);
            reveal_strlit("F4");
            assert("F4"@ =~= seq!['F', '4']);
            reveal_strlit("f4");
            assert("f4"@ =~= seq!['f', '4']);
            reveal_strlit("5分钟");
            assert("5分钟"@ =~= seq!['5', '分', '钟']);
            reveal_strlit("5m");
            assert("5m"@ =~= seq!['5', 'm']);
            reveal_strlit("F5");
            assert("F5"@ =~= seq!['F', '5']);
            reveal_strlit("f5");
            assert("f5"@ =~= seq!['f', '5']);
            reveal_strlit("6分钟");
            assert("6分钟"@ =~= seq!['6', '分', '钟']);
            reveal_strlit("6m");
            assert("6m"@ =~= seq!['6', 'm']);
            reveal_strlit("F6");
            assert("F6"@ =~= seq!['F', '6']);
            reveal_strlit("f6");
            assert("f6"@ =~= seq!['f', '6']);
            assert(freq_of_text(freq_label(Freq::F6)) == Some(Freq::F6));
        },
        Freq::F10 => {
            reveal_strlit("Tick");
            assert("Tick"@ =~= seq!['T', 'i', 'c', 'k']);
            reveal_strlit("tick");
            assert("tick"@ =~= seq!['t', 'i', 'c', 'k']);
            reveal_strlit("1分钟");
            assert("1分钟"@ =~= seq!['1', '分', '钟']);
            reveal_strlit("1m");
            assert("1m"@ =~= seq!['1', 'm']);
            reveal_strlit("F1");
            assert("F1"@ =~= seq!['F', '1']);
            reveal_strlit("f1");
            assert("f1"@ =~= seq!['f', '1']);
            reveal_strlit("2分钟");
            assert("2分钟"@ =~= seq!['2', '分', '钟']);
            reveal_strlit("2m");
            assert("2m"@ =~= seq!['2', 'm']);
            reveal_strlit("F2");
            assert("F2"@ =~= seq!['F', '2']);
            reveal_strlit("f2");
            assert("f2"@ =~= seq!['f', '2']);
            reveal_strlit("3分钟");
            assert("3分钟"@ =~= seq!['3', '分', '钟']);
            reveal_strlit("3m");
            assert("3m"@ =~= seq!['3', 'm']);
            reveal_strlit("F3");
            assert("F3"@ =~= seq!['F', '3']);
            reveal_strlit("f3");
            assert("f3"@ =~= seq!['f', '3']);
            reveal_strlit("4分钟");
            assert("4分钟"@ =~= seq!['4', '分', '钟']);
            reveal_strlit("4m");
            assert("4m"@ =~= seq!['4', 'm']);
            reveal_strlit("F4");
            assert("F4"@ =~= seq!['F', '4']);
            reveal_strlit("f4");
            assert("f4"@ =~= seq!['f', '4']);
            reveal_strlit("5分钟");
            assert("5分钟"@ =~= seq!['5', '分', '钟']);
            reveal_strlit("5m");
            assert("5m"@ =~= seq!['5', 'm']);
            reveal_strlit("F5");
            assert("F5"@ =~= seq!['F', '5']);
            reveal_strlit("f5");
            assert("f5"@ =~= seq!['f', '5']);
            reveal_strlit("6分钟");
            assert("6分钟"@ =~= seq!['6', '分', '钟']);
            reveal_strlit("6m");
            assert("6m"@ =~= seq!['6', 'm']);
            reveal_strlit("F6");
            assert("F6"@ =~= seq!['F', '6']);
            reveal_strlit("f6");
            assert("f6"@ =~= seq!['f', '6']);
            reveal_strlit("10分钟");
            assert("10分钟"@ =~= seq!['1', '0', '分', '钟']);
            reveal_strlit("10m");
            assert("10m"@ =~= seq!['1', '0', 'm']);
            reveal_strlit("F10");
            assert("F10"@ =~= seq!['F', '1', '0']);
            reveal_strlit("f10");
            assert("f10"@ =~= seq!['f', '1', '0']);
            assert(freq_of_text(freq_label(Freq::F10)) == Some(Freq::F10));
        },
        Freq::F12 => {
            reveal_strlit("Tick");
            assert("Tick"@ =~= seq!['T', 'i', 'c', 'k']);
            reveal_strlit("tick");
            assert("tick"@ =~= seq!['t', 'i', 'c', 'k']);
            reveal_strlit("1分钟");
            assert("1分钟"@ =~= seq!['1', '分', '钟']);
            reveal_strlit("1m");
            assert("1m"@ =~= seq!['1', 'm']);
            reveal_strlit("F1");
            assert("F1"@ =~= seq!['F', '1']);
            reveal_strlit("f1");
            assert("f1"@ =~= seq!['f', '1']);
            reveal_strlit("2分钟");
            assert("2分钟"@ =~= seq!['2', '分', '钟']);
            reveal_strlit("2m");
            assert("2m"@ =~= seq!['2', 'm']);
            reveal_strlit("F2");
            assert("F2"@ =~= seq!['F', '2']);
            reveal_strlit("f2");
            assert("f2"@ =~= seq!['f', '2']);
            reveal_strlit("3分钟");
            assert("3分钟"@ =~= seq!['3', '分', '钟']);
            reveal_strlit("3m");
            assert("3m"@ =~= seq!['3', 'm']);
            reveal_strlit("F3");
            assert("F3"@ =~= seq!['F', '3']);
            reveal_strlit("f3");
            assert("f3"@ =~= seq!['f', '3']);
            reveal_strlit("4分钟");
            assert("4分钟"@ =~= seq!['4', '分', '钟']);
            reveal_strlit("4m");
            assert("4m"@ =~= seq!['4', 'm']);
            reveal_strlit("F4");
            assert("F4"@ =~= seq!['F', '4']);
            reveal_strlit("f4");
            assert("f4"@ =~= seq!['f', '4']);
            reveal_strlit("5分钟");
            assert("5分钟"@ =~= seq!['5', '分', '钟']);
            reveal_strlit("5m");
            assert("5m"@ =~= seq!['5', 'm']);
            reveal_strlit("F5");
            assert("F5"@ =~= seq!['F', '5']);
            reveal_strlit("f5");
            assert("f5"@ =~= seq!['f', '5']);
            reveal_strlit("6分钟");
            assert("6分钟"@ =~= seq!['6', '分', '钟']);
            reveal_strlit("6m");
            assert("6m"@ =~= seq!['6', 'm']);
            reveal_strlit("F6");
            assert("F6"@ =~= seq!['F', '6']);
            reveal_strlit("f6");
            assert("f6"@ =~= seq!['f', '6']);
            reveal_strlit("10分钟");
            assert("10分钟"@ =~= seq!['1', '0', '分', '钟']);
            reveal_strlit("10m");
            assert("10m"@ =~= seq!['1', '0', 'm']);
            reveal_strlit("F10");
            assert("F10"@ =~= seq!['F', '1', '0']);
            reveal_strlit("f10");
            assert("f10"@ =~= seq!['f', '1', '0']);
            reveal_strlit("12分钟");
            assert("12分钟"@ =~= seq!['1', '2', '分', '钟']);
            reveal_strlit("12m");
            assert("12m"@ =~= seq!['1', '2', 'm']);
            reveal_strlit("F12");
            assert("F12"@ =~= seq!['F', '1', '2']);
            reveal_strlit("f12");
            assert("f12"@ =~= seq!['f', '1', '2']);
            assert(freq_of_text(freq_label(Freq::F12)) == Some(Freq::F12));
        },
        Freq::F15 => {
            reveal_strlit("Tick");
            assert("Tick"@ =~= seq!['T', 'i', 'c', 'k']);
            reveal_strlit("tick");
            assert("tick"@ =~= seq!['t', 'i', 'c', 'k']);
            reveal_strlit("1分钟");
            assert("1分钟"@ =~= seq!['1', '分', '钟']);
            reveal_strlit("1m");
            assert("1m"@ =~= seq!['1', 'm']);
            reveal_strlit("F1");
            assert("F1"@ =~= seq!['F', '1']);
            reveal_strlit("f1");
            assert("f1"@ =~= seq!['f', '1']);
            reveal_strlit("2分钟");
            assert("2分钟"@ =~= seq!['2', '分', '钟']);
            reveal_strlit("2m");
            assert("2m"@ =~= seq!['2', 'm']);
            reveal_strlit("F2");
            assert("F2"@ =~= seq!['F', '2']);
            reveal_strlit("f2");
            assert("f2"@ =~= seq!['f', '2']);
            reveal_strlit("3分钟");
            assert("3分钟"@ =~= seq!['3', '分', '钟']);
            reveal_strlit("3m");
            assert("3m"@ =~= seq!['3', 'm']);
            reveal_strlit("F3");
            assert("F3"@ =~= seq!['F', '3']);
            reveal_strlit("f3");
            assert("f3"@ =~= seq!['f', '3']);
            reveal_strlit("4分钟");
            assert("4分钟"@ =~= seq!['4', '分', '钟']);
            reveal_strlit("4m");
            assert("4m"@ =~= seq!['4', 'm']);
            reveal_strlit("F4");
            assert("F4"@ =~= seq!['F', '4']);
            reveal_strlit("f4");
            assert("f4"@ =~= seq!['f', '4']);
            reveal_strlit("5分钟");
            assert("5分钟"@ =~= seq!['5', '分', '钟']);
            reveal_strlit("5m");
            assert("5m"@ =~= seq!['5', 'm']);
            reveal_strlit("F5");
            assert("F5"@ =~= seq!['F', '5']);
            reveal_strlit("f5");
            assert("f5"@ =~= seq!['f', '5']);
            reveal_strlit("6分钟");
            assert("6分钟"@ =~= seq!['6', '分', '钟']);
            reveal_strlit("6m");
            assert("6m"@ =~= seq!['6', 'm']);
            reveal_strlit("F6");
            assert("F6"@ =~= seq!['F', '6']);
            reveal_strlit("f6");
            assert("f6"@ =~= seq!['f', '6']);
            reveal_strlit("10分钟");
            assert("10分钟"@ =~= seq!['1', '0', '分', '钟']);
            reveal_strlit("10m");
            assert("10m"@ =~= seq!['1', '0', 'm']);
            reveal_strlit("F10");
            assert("F10"@ =~= seq!['F', '1', '0']);
            reveal_strlit("f10");
            assert("f10"@ =~= seq!['f', '1', '0']);
            reveal_strlit("12分钟");
            assert("12分钟"@ =~= seq!['1', '2', '分', '钟']);
            reveal_strlit("12m");
            assert("12m"@ =~= seq!['1', '2', 'm']);
            reveal_strlit("F12");
            assert("F12"@ =~= seq!['F', '1', '2']);
            reveal_strlit("f12");
            assert("f12"@ =~= seq!['f', '1', '2']);
            reveal_strlit("15分钟");
            assert("15分钟"@ =~= seq!['1', '5', '分', '钟']);
            reveal_strlit("15m");
            assert("15m"@ =~= seq!['1', '5', 'm']);
            reveal_strlit("F15");
            assert("F15"@ =~= seq!['F', '1', '5']);
            reveal_strlit("f15");
            assert("f15"@ =~= seq!['f', '1', '5']);
            assert(freq_of_text(freq_label(Freq::F15)) == Some(Freq::F15));
        },
        Freq::F20 => {
            reveal_strlit("Tick");
            assert("Tick"@ =~= seq!['T', 'i', 'c', 'k']);
            reveal_strlit("tick");
            assert("tick"@ =~= seq!['t', 'i', 'c', 'k']);
            reveal_strlit("1分钟");
            assert("1分钟"@ =~= seq!['1', '分', '钟']);
            reveal_strlit("1m");
            assert("1m"@ =~= seq!['1', 'm']);
            reveal_strlit("F1");
            assert("F1"@ =~= seq!['F', '1']);
            reveal_strlit("f1");
            assert("f1"@ =~= seq!['f', '1']);
            reveal_strlit("2分钟");
            assert("2分钟"@ =~= seq!['2', '分', '钟']);
            reveal_strlit("2m");
            assert("2m"@ =~= seq!['2', 'm']);
            reveal_strlit("F2");
            assert("F2"@ =~= seq!['F', '2']);
            reveal_strlit("f2");
            assert("f2"@ =~= seq!['f', '2']);
            reveal_strlit("3分钟");
            assert("3分钟"@ =~= seq!['3', '分', '钟']);
            reveal_strlit("3m");
            assert("3m"@ =~= seq!['3', 'm']);
            reveal_strlit("F3");
            assert("F3"@ =~= seq!['F', '3']);
            reveal_strlit("f3");
            assert("f3"@ =~= seq!['f', '3']);
            reveal_strlit("4分钟");
            assert("4分钟"@ =~= seq!['4', '分', '钟']);
            reveal_strlit("4m");
            assert("4m"@ =~= seq!['4', 'm']);
            reveal_strlit("F4");
            assert("F4"@ =~= seq!['F', '4']);
            reveal_strlit("f4");
            assert("f4"@ =~= seq!['f', '4']);
            reveal_strlit("5分钟");
            assert("5分钟"@ =~= seq!['5', '分', '钟']);
            reveal_strlit("5m");
            assert("5m"@ =~= seq!['5', 'm']);
            reveal_strlit("F5");
            assert("F5"@ =~= seq!['F', '5']);
            reveal_strlit("f5");
            assert("f5"@ =~= seq!['f', '5']);
            reveal_strlit("6分钟");
            assert("6分钟"@ =~= seq!['6', '分', '钟']);
            reveal_strlit("6m");
            assert("6m"@ =~= seq!['6', 'm']);
            reveal_strlit("F6");
            assert("F6"@ =~= seq!['F', '6']);
            reveal_strlit("f6");
            assert("f6"@ =~= seq!['f', '6']);
            reveal_strlit("10分钟");
            assert("10分钟"@ =~= seq!['1', '0', '分', '钟']);
            reveal_strlit("10m");
            assert("10m"@ =~= seq!['1', '0', 'm']);
            reveal_strlit("F10");
            assert("F10"@ =~= seq!['F', '1', '0']);
            reveal_strlit("f10");
            assert("f10"@ =~= seq!['f', '1', '0']);
            reveal_strlit("12分钟");
            assert("12分钟"@ =~= seq!['1', '2', '分', '钟']);
            reveal_strlit("12m");
            assert("12m"@ =~= seq!['1', '2', 'm']);
            reveal_strlit("F12");
            assert("F12"@ =~= seq!['F', '1', '2']);
            reveal_strlit("f12");
            assert("f12"@ =~= seq!['f', '1', '2']);
            reveal_strlit("15分钟");
            assert("15分钟"@ =~= seq!['1', '5', '分', '钟']);
            reveal_strlit("15m");
            assert("15m"@ =~= seq!['1', '5', 'm']);
            reveal_strlit("F15");
            assert("F15"@ =~= seq!['F', '1', '5']);
            reveal_strlit("f15");
            assert("f15"@ =~= seq!['f', '1', '5']);
            reveal_strlit("20分钟");
            assert("20分钟"@ =~= seq!['2', '0', '分', '钟']);
            reveal_strlit("20m");
            assert("20m"@ =~= seq!['2', '0', 'm']);
            reveal_strlit("F20");
            assert("F20"@ =~= seq!['F', '2', '0']);
            reveal_strlit("f20");
            assert("f20"@ =~= seq!['f', '2', '0']);
            assert(freq_of_text(freq_label(Freq::F20)) == Some(Freq::F20));
        },
        Freq::F30 => {
            reveal_strlit("Tick");
            assert("Tick"@ =~= seq!['T', 'i', 'c', 'k']);
            reveal_strlit("tick");
            assert("tick"@ =~= seq!['t', 'i', 'c', 'k']);
            reveal_strlit("1分钟");
            assert("1分钟"@ =~= seq!['1', '分', '钟']);
            reveal_strlit("1m");
            assert("1m"@ =~= seq!['1', 'm']);
            reveal_strlit("F1");
            assert("F1"@ =~= seq!['F', '1']);
            reveal_strlit("f1");
            assert("f1"@ =~= seq!['f', '1']);
            reveal_strlit("2分钟");
            assert("2分钟"@ =~= seq!['2', '分', '钟']);
            reveal_strlit("2m");
            assert("2m"@ =~= seq!['2', 'm']);
            reveal_strlit("F2");
            assert("F2"@ =~= seq!['F', '2']);
            reveal_strlit("f2");
            assert("f2"@ =~= seq!['f', '2']);
            reveal_strlit("3分钟");
            assert("3分钟"@ =~= seq!['3', '分', '钟']);
            reveal_strlit("3m");
            assert("3m"@ =~= seq!['3', 'm']);
            reveal_strlit("F3");
            assert("F3"@ =~= seq!['F', '3']);
            reveal_strlit("f3");
            assert("f3"@ =~= seq!['f', '3']);
            reveal_strlit("4分钟");
            assert("4分钟"@ =~= seq!['4', '分', '钟']);
            reveal_strlit("4m");
            assert("4m"@ =~= seq!['4', 'm']);
            reveal_strlit("F4");
            assert("F4"@ =~= seq!['F', '4']);
            reveal_strlit("f4");
            assert("f4"@ =~= seq!['f', '4']);
            reveal_strlit("5分钟");
            assert("5分钟"@ =~= seq!['5', '分', '钟']);
            reveal_strlit("5m");
            assert("5m"@ =~= seq!['5', 'm']);
            reveal_strlit("F5");
            assert("F5"@ =~= seq!['F', '5']);
            reveal_strlit("f5");
            assert("f5"@ =~= seq!['f', '5']);
            reveal_strlit("6分钟");
            assert("6分钟"@ =~= seq!['6', '分', '钟']);
            reveal_strlit("6m");
            assert("6m"@ =~= seq!['6', 'm']);
            reveal_strlit("F6");
            assert("F6"@ =~= seq!['F', '6']);
            reveal_strlit("f6");
            assert("f6"@ =~= seq!['f', '6']);
            reveal_strlit("10分钟");
            assert("10分钟"@ =~= seq!['1', '0', '分', '钟']);
            reveal_strlit("10m");
            assert("10m"@ =~= seq!['1', '0', 'm']);
            reveal_strlit("F10");
            assert("F10"@ =~= seq!['F', '1', '0']);
            reveal_strlit("f10");
            assert("f10"@ =~= seq!['f', '1', '0']);
            reveal_strlit("12分钟");
            assert("12分钟"@ =~= seq!['1', '2', '分', '钟']);
            reveal_strlit("12m");
            assert("12m"@ =~= seq!['1', '2', 'm']);
            reveal_strlit("F12");
            assert("F12"@ =~= seq!['F', '1', '2']);
            reveal_strlit("f12");
            assert("f12"@ =~= seq!['f', '1', '2']);
            reveal_strlit("15分钟");
            assert("15分钟"@ =~= seq!['1', '5', '分', '钟']);
            reveal_strlit("15m");
            assert("15m"@ =~= seq!['1', '5', 'm']);
            reveal_strlit("F15");
            assert("F15"@ =~= seq!['F', '1', '5']);
            reveal_strlit("f15");
            assert("f15"@ =~= seq!['f', '1', '5']);
            reveal_strlit("20分钟");
            assert("20分钟"@ =~= seq!['2', '0', '分', '钟']);
            reveal_strlit("20m");
            assert("20m"@ =~= seq!['2', '0', 'm']);
            reveal_strlit("F20");
            assert("F20"@ =~= seq!['F', '2', '0']);
            reveal_strlit("f20");
            assert("f20"@ =~= seq!['f', '2', '0']);
            reveal_strlit("30分钟");
            assert("30分钟"@ =~= seq!['3', '0', '分', '钟']);
            reveal_strlit("30m");
            assert("30m"@ =~= seq!['3', '0', 'm']);
            reveal_strlit("F30");
            assert("F30"@ =~= seq!['F', '3', '0']);
            reveal_strlit("f30");
            assert("f30"@ =~= seq!['f', '3', '0']);
            assert(freq_of_text(freq_label(Freq::F30)) == Some(Freq::F30));
        },
        Freq::F60 => {
            reveal_strlit("Tick");
            assert("Tick"@ =~= seq!['T', 'i', 'c', 'k']);
            reveal_strlit("tick");
            assert("tick"@ =~= seq!['t', 'i', 'c', 'k']);
            reveal_strlit("1分钟");
            assert("1分钟"@ =~= seq!['1', '分', '钟']);
            reveal_strlit("1m");
            assert("1m"@ =~= seq!['1', 'm']);
            reveal_strlit("F1");
            assert("F1"@ =~= seq!['F', '1']);
            reveal_strlit("f1");
            assert("f1"@ =~= seq!['f', '1']);
            reveal_strlit("2分钟");
            assert("2分钟"@ =~= seq!['2', '分', '钟']);
            reveal_strlit("2m");
            assert("2m"@ =~= seq!['2', 'm']);
            reveal_strlit("F2");
            assert("F2"@ =~= seq!['F', '2']);
            reveal_strlit("f2");
            assert("f2"@ =~= seq!['f', '2']);
            reveal_strlit("3分钟");
            assert("3分钟"@ =~= seq!['3', '分', '钟']);
            reveal_strlit("3m");
            assert("3m"@ =~= seq!['3', 'm']);
            reveal_strlit("F3");
            assert("F3"@ =~= seq!['F', '3']);
            reveal_strlit("f3");
            assert("f3"@ =~= seq!['f', '3']);
            reveal_strlit("4分钟");
            assert("4分钟"@ =~= seq!['4', '分', '钟']);
            reveal_strlit("4m");
            assert("4m"@ =~= seq!['4', 'm']);
            reveal_strlit("F4");
            assert("F4"@ =~= seq!['F', '4']);
            reveal_strlit("f4");
            assert("f4"@ =~= seq!['f', '4']);
            reveal_strlit("5分钟");
            assert("5分钟"@ =~= seq!['5', '分', '钟']);
            reveal_strlit("5m");
            assert("5m"@ =~= seq!['5', 'm']);
            reveal_strlit("F5");
            assert("F5"@ =~= seq!['F', '5']);
            reveal_strlit("f5");
            assert("f5"@ =~= seq!['f', '5']);
            reveal_strlit("6分钟");
            assert("6分钟"@ =~= seq!['6', '分', '钟']);
            reveal_strlit("6m");
            assert("6m"@ =~= seq!['6', 'm']);
            reveal_strlit("F6");
            assert("F6"@ =~= seq!['F', '6']);
            reveal_strlit("f6");
            assert("f6"@ =~= seq!['f', '6']);
            reveal_strlit("10分钟");
            assert("10分钟"@ =~= seq!['1', '0', '分', '钟']);
            reveal_strlit("10m");
            assert("10m"@ =~= seq!['1', '0', 'm']);
            reveal_strlit("F10");
            assert("F10"@ =~= seq!['F', '1', '0']);
            reveal_strlit("f10");
            assert("f10"@ =~= seq!['f', '1', '0']);
            reveal_strlit("12分钟");
            assert("12分钟"@ =~= seq!['1', '2', '分', '钟']);
            reveal_strlit("12m");
            assert("12m"@ =~= seq!['1', '2', 'm']);
            reveal_strlit("F12");
            assert("F12"@ =~= seq!['F', '1', '2']);
            reveal_strlit("f12");
            assert("f12"@ =~= seq!['f', '1', '2']);
            reveal_strlit("15分钟");
            assert("15分钟"@ =~= seq!['1', '5', '分', '钟']);
            reveal_strlit("15m");
            assert("15m"@ =~= seq!['1', '5', 'm']);
            reveal_strlit("F15");
            assert("F15"@ =~= seq!['F', '1', '5']);
            reveal_strlit("f15");
            assert("f15"@ =~= seq!['f', '1', '5']);
            reveal_strlit("20分钟");
            assert("20分钟"@ =~= seq!['2', '0', '分', '钟']);
            reveal_strlit("20m");
            assert("20m"@ =~= seq!['2', '0', 'm']);
            reveal_strlit("F20");
            assert("F20"@ =~= seq!['F', '2', '0']);
            reveal_strlit("f20");
            assert("f20"@ =~= seq!['f', '2', '0']);
            reveal_strlit("30分钟");
            assert("30分钟"@ =~= seq!['3', '0', '分', '钟']);
            reveal_strlit("30m");
            assert("30m"@ =~= seq!['3', '0', 'm']);
            reveal_strlit("F30");
            assert("F30"@ =~= seq!['F', '3', '0']);
            reveal_strlit("f30");
            assert("f30"@ =~= seq!['f', '3', '0']);
            reveal_strlit("60分钟");
            assert("60分钟"@ =~= seq!['6', '0', '分', '钟']);
            reveal_strlit("60m");
            assert("60m"@ =~= seq!['6', '0', 'm']);
            reveal_strlit("F60");
            assert("F60"@ =~= seq!['F', '6', '0']);
            reveal_strlit("f60");
            assert("f60"@ =~= seq!['f', '6', '0']);
            assert(freq_of_text(freq_label(Freq::F60)) == Some(Freq::F60));
        },
        Freq::F120 => {
            reveal_strlit("Tick");
            assert("Tick"@ =~= seq!['T', 'i', 'c', 'k']);
            reveal_strlit("tick");
            assert("tick"@ =~= seq!['t', 'i', 'c', 'k']);
            reveal_strlit("1分钟");
            assert("1分钟"@ =~= seq!['1', '分', '钟']);
            reveal_strlit("1m");
            assert("1m"@ =~= seq!['1', 'm']);
            reveal_strlit("F1");
            assert("F1"@ =~= seq!['F', '1']);
            reveal_strlit("f1");
            assert("f1"@ =~= seq!['f', '1']);
            reveal_strlit("2分钟");
            assert("2分钟"@ =~= seq!['2', '分', '钟']);
            reveal_strlit("2m");
            assert("2m"@ =~= seq!['2', 'm']);
            reveal_strlit("F2");
            assert("F2"@ =~= seq!['F', '2']);
            reveal_strlit("f2");
            assert("f2"@ =~= seq!['f', '2']);
            reveal_strlit("3分钟");
            assert("3分钟"@ =~= seq!['3', '分', '钟']);
            reveal_strlit("3m");
            assert("3m"@ =~= seq!['3', 'm']);
            reveal_strlit("F3");
            assert("F3"@ =~= seq!['F', '3']);
            reveal_strlit("f3");
            assert("f3"@ =~= seq!['f', '3']);
            reveal_strlit("4分钟");
            assert("4分钟"@ =~= seq!['4', '分', '钟']);
            reveal_strlit("4m");
            assert("4m"@ =~= seq!['4', 'm']);
            reveal_strlit("F4");
            assert("F4"@ =~= seq!['F', '4']);
            reveal_strlit("f4");
            assert("f4"@ =~= seq!['f', '4']);
            reveal_strlit("5分钟");
            assert("5分钟"@ =~= seq!['5', '分', '钟']);
            reveal_strlit("5m");
            assert("5m"@ =~= seq!['5', 'm']);
            reveal_strlit("F5");
            assert("F5"@ =~= seq!['F', '5']);
            reveal_strlit("f5");
            assert("f5"@ =~= seq!['f', '5']);
            reveal_strlit("6分钟");
            assert("6分钟"@ =~= seq!['6', '分', '钟']);
            reveal_strlit("6m");
            assert("6m"@ =~= seq!['6', 'm']);
            reveal_strlit("F6");
            assert("F6"@ =~= seq!['F', '6']);
            reveal_strlit("f6");
            assert("f6"@ =~= seq!['f', '6']);
            reveal_strlit("10分钟");
            assert("10分钟"@ =~= seq!['1', '0', '分', '钟']);
            reveal_strlit("10m");
            assert("10m"@ =~= seq!['1', '0', 'm']);
            reveal_strlit("F10");
            assert("F10"@ =~= seq!['F', '1', '0']);
            reveal_strlit("f10");
            assert("f10"@ =~= seq!['f', '1', '0']);
            reveal_strlit("12分钟");
            assert("12分钟"@ =~= seq!['1', '2', '分', '钟']);
            reveal_strlit("12m");
            assert("12m"@ =~= seq!['1', '2', 'm']);
            reveal_strlit("F12");
            assert("F12"@ =~= seq!['F', '1', '2']);
            reveal_strlit("f12");
            assert("f12"@ =~= seq!['f', '1', '2']);
            reveal_strlit("15分钟");
            assert("15分钟"@ =~= seq!['1', '5', '分', '钟']);
            reveal_strlit("15m");
            assert("15m"@ =~= seq!['1', '5', 'm']);
            reveal_strlit("F15");
            assert("F15"@ =~= seq!['F', '1', '5']);
            reveal_strlit("f15");
            assert("f15"@ =~= seq!['f', '1', '5']);
            reveal_strlit("20分钟");
            assert("20分钟"@ =~= seq!['2', '0', '分', '钟']);
            reveal_strlit("20m");
            assert("20m"@ =~= seq!['2', '0', 'm']);
            reveal_strlit("F20");
            assert("F20"@ =~= seq!['F', '2', '0']);
            reveal_strlit("f20");
            assert("f20"@ =~= seq!['f', '2', '0']);
            reveal_strlit("30分钟");
            assert("30分钟"@ =~= seq!['3', '0', '分', '钟']);
            reveal_strlit("30m");
            assert("30m"@ =~= seq!['3', '0', 'm']);
            reveal_strlit("F30");
            assert("F30"@ =~= seq!['F', '3', '0']);
            reveal_strlit("f30");
            assert("f30"@ =~= seq!['f', '3', '0']);
            reveal_strlit("60分钟");
            assert("60分钟"@ =~= seq!['6', '0', '分', '钟']);
            reveal_strlit("60m");
            assert("60m"@ =~= seq!['6', '0', 'm']);
            reveal_strlit("F60");
            assert("F60"@ =~= seq!['F', '6', '0']);
            reveal_strlit("f60");
            assert("f60"@ =~= seq!['f', '6', '0']);
            reveal_strlit("120分钟");
            assert("120分钟"@ =~= seq!['1', '2', '0', '分', '钟']);
            reveal_strlit("120m");
            assert("120m"@ =~= seq!['1', '2', '0', 'm']);
            reveal_strlit("F120");
            assert("F120"@ =~= seq!['F', '1', '2', '0']);
            reveal_strlit("f120");
            assert("f120"@ =~= seq!['f', '1', '2', '0']);
            assert(freq_of_text(freq_label(Freq::F120)) == Some(Freq::F120));
        },
        Freq::D => {
            reveal_strlit("Tick");
            assert("Tick"@ =~= seq!['T', 'i', 'c', 'k']);
            reveal_strlit("tick");
            assert("tick"@ =~= seq!['t', 'i', 'c', 'k']);
            reveal_strlit("1分钟");
            assert("1分钟"@ =~= seq!['1', '分', '钟']);
            reveal_strlit("1m");
            assert("1m"@ =~= seq!['1', 'm']);
            reveal_strlit("F1");
            assert("F1"@ =~= seq!['F', '1']);
            reveal_strlit("f1");
            assert("f1"@ =~= seq!['f', '1']);
            reveal_strlit("2分钟");
            assert("2分钟"@ =~= seq!['2', '分', '钟']);
            reveal_strlit("2m");
            assert("2m"@ =~= seq!['2', 'm']);
            reveal_strlit("F2");
            assert("F2"@ =~= seq!['F', '2']);
            reveal_strlit("f2");
            assert("f2"@ =~= seq!['f', '2']);
            reveal_strlit("3分钟");
            assert("3分钟"@ =~= seq!['3', '分', '钟']);
            reveal_strlit("3m");
            assert("3m"@ =~= seq!['3', 'm']);
            reveal_strlit("F3");
            assert("F3"@ =~= seq!['F', '3']);
            reveal_strlit("f3");
            assert("f3"@ =~= seq!['f', '3']);
            reveal_strlit("4分钟");
            assert("4分钟"@ =~= seq!['4', '分', '钟']);
            reveal_strlit("4m");
            assert("4m"@ =~= seq!['4', 'm']);
            reveal_strlit("F4");
            assert("F4"@ =~= seq!['F', '4']);
            reveal_strlit("f4");
            assert("f4"@ =~= seq!['f', '4']);
            reveal_strlit("5分钟");
            assert("5分钟"@ =~= seq!['5', '分', '钟']);
            reveal_strlit("5m");
            assert("5m"@ =~= seq!['5', 'm']);
            reveal_strlit("F5");
            assert("F5"@ =~= seq!['F', '5']);
            reveal_strlit("f5");
            assert("f5"@ =~= seq!['f', '5']);
            reveal_strlit("6分钟");
            assert("6分钟"@ =~= seq!['6', '分', '钟']);
            reveal_strlit("6m");
            assert("6m"@ =~= seq!['6', 'm']);
            reveal_strlit("F6");
            assert("F6"@ =~= seq!['F', '6']);
            reveal_strlit("f6");
            assert("f6"@ =~= seq!['f', '6']);
            reveal_strlit("10分钟");
            assert("10分钟"@ =~= seq!['1', '0', '分', '钟']);
            reveal_strlit("10m");
            assert("10m"@ =~= seq!['1', '0', 'm']);
            reveal_strlit("F10");
            assert("F10"@ =~= seq!['F', '1', '0']);
            reveal_strlit("f10");
            assert("f10"@ =~= seq!['f', '1', '0']);
            reveal_strlit("12分钟");
            assert("12分钟"@ =~= seq!['1', '2', '分', '钟']);
            reveal_strlit("12m");
            assert("12m"@ =~= seq!['1', '2', 'm']);
            reveal_strlit("F12");
            assert("F12"@ =~= seq!['F', '1', '2']);
            reveal_strlit("f12");
            assert("f12"@ =~= seq!['f', '1', '2']);
            reveal_strlit("15分钟");
            assert("15分钟"@ =~= seq!['1', '5', '分', '钟']);
            reveal_strlit("15m");
            assert("15m"@ =~= seq!['1', '5', 'm']);
            reveal_strlit("F15");
            assert("F15"@ =~= seq!['F', '1', '5']);
            reveal_strlit("f15");
            assert("f15"@ =~= seq!['f', '1', '5']);
            reveal_strlit("20分钟");
            assert("20分钟"@ =~= seq!['2', '0', '分', '钟']);
            reveal_strlit("20m");
            assert("20m"@ =~= seq!['2', '0', 'm']);
            reveal_strlit("F20");
            assert("F20"@ =~= seq!['F', '2', '0']);
            reveal_strlit("f20");
            assert("f20"@ =~= seq!['f', '2', '0']);
            reveal_strlit("30分钟");
            assert("30分钟"@ =~= seq!['3', '0', '分', '钟']);
            reveal_strlit("30m");
            assert("30m"@ =~= seq!['3', '0', 'm']);
            reveal_strlit("F30");
            assert("F30"@ =~= seq!['F', '3', '0']);
            reveal_strlit("f30");
            assert("f30"@ =~= seq!['f', '3', '0']);
            reveal_strlit("60分钟");
            assert("60分钟"@ =~= seq!['6', '0', '分', '钟']);
            reveal_strlit("60m");
            assert("60m"@ =~= seq!['6', '0', 'm']);
            reveal_strlit("F60");
            assert("F60"@ =~= seq!['F', '6', '0']);
            reveal_strlit("f60");
            assert("f60"@ =~= seq!['f', '6', '0']);
            reveal_strlit("120分钟");
            assert("120分钟"@ =~= seq!['1', '2', '0', '分', '钟']);
            reveal_strlit("120m");
            assert("120m"@ =~= seq!['1', '2', '0', 'm']);
            reveal_strlit("F120");
            assert("F120"@ =~= seq!['F', '1', '2', '0']);
            reveal_strlit("f120");
            assert("f120"@ =~= seq!['f', '1', '2', '0']);
            reveal_strlit("日线");
            assert("日线"@ =~= seq!['日', '线']);
            reveal_strlit("D");
            assert("D"@ =~= seq!['D']);
            reveal_strlit("d");
            assert("d"@ =~= seq!['d']);
            assert(freq_of_text(freq_label(Freq::D)) == Some(Freq::D));
        },
        Freq::W => {
            reveal_strlit("Tick");
            assert("Tick"@ =~= seq!['T', 'i', 'c', 'k']);
            reveal_strlit("tick");
            assert("tick"@ =~= seq!['t', 'i', 'c', 'k']);
            reveal_strlit("1分钟");
            assert("1分钟"@ =~= seq!['1', '分', '钟']);
            reveal_strlit("1m");
            assert("1m"@ =~= seq!['1', 'm']);
            reveal_strlit("F1");
            assert("F1"@ =~= seq!['F', '1']);
            reveal_strlit("f1");
            assert("f1"@ =~= seq!['f', '1']);
            reveal_strlit("2分钟");
            assert("2分钟"@ =~= seq!['2', '分', '钟']);
            reveal_strlit("2m");
            assert("2m"@ =~= seq!['2', 'm']);
            reveal_strlit("F2");
            assert("F2"@ =~= seq!['F', '2']);
            reveal_strlit("f2");
            assert("f2"@ =~= seq!['f', '2']);
            reveal_strlit("3分钟");
            assert("3分钟"@ =~= seq!['3', '分', '钟']);
            reveal_strlit("3m");
            assert("3m"@ =~= seq!['3', 'm']);
            reveal_strlit("F3");
            assert("F3"@ =~= seq!['F', '3']);
            reveal_strlit("f3");
            assert("f3"@ =~= seq!['f', '3']);
            reveal_strlit("4分钟");
            assert("4分钟"@ =~= seq!['4', '分', '钟']);
            reveal_strlit("4m");
            assert("4m"@ =~= seq!['4', 'm']);
            reveal_strlit("F4");
            assert("F4"@ =~= seq!['F', '4']);
            reveal_strlit("f4");
            assert("f4"@ =~= seq!['f', '4']);
            reveal_strlit("5分钟");
            assert("5分钟"@ =~= seq!['5', '分', '钟']);
            reveal_strlit("5m");
            assert("5m"@ =~= seq!['5', 'm']);
            reveal_strlit("F5");
            assert("F5"@ =~= seq!['F', '5']);
            reveal_strlit("f5");
            assert("f5"@ =~= seq!['f', '5']);
            reveal_strlit("6分钟");
            assert("6分钟"@ =~= seq!['6', '分', '钟']);
            reveal_strlit("6m");
            assert("6m"@ =~= seq!['6', 'm']);
            reveal_strlit("F6");
            assert("F6"@ =~= seq!['F', '6']);
            reveal_strlit("f6");
            assert("f6"@ =~= seq!['f', '6']);
            reveal_strlit("10分钟");
            assert("10分钟"@ =~= seq!['1', '0', '分', '钟']);
            reveal_strlit("10m");
            assert("10m"@ =~= seq!['1', '0', 'm']);
            reveal_strlit("F10");
            assert("F10"@ =~= seq!['F', '1', '0']);
            reveal_strlit("f10");
            assert("f10"@ =~= seq!['f', '1', '0']);
            reveal_strlit("12分钟");
            assert("12分钟"@ =~= seq!['1', '2', '分', '钟']);
            reveal_strlit("12m");
            assert("12m"@ =~= seq!['1', '2', 'm']);
            reveal_strlit("F12");
            assert("F12"@ =~= seq!['F', '1', '2']);
            reveal_strlit("f12");
            assert("f12"@ =~= seq!['f', '1', '2']);
            reveal_strlit("15分钟");
            assert("15分钟"@ =~= seq!['1', '5', '分', '钟']);
            reveal_strlit("15m");
            assert("15m"@ =~= seq!['1', '5', 'm']);
            reveal_strlit("F15");
            assert("F15"@ =~= seq!['F', '1', '5']);
            reveal_strlit("f15");
            assert("f15"@ =~= seq!['f', '1', '5']);
            reveal_strlit("20分钟");
            assert("20分钟"@ =~= seq!['2', '0', '分', '钟']);
            reveal_strlit("20m");
            assert("20m"@ =~= seq!['2', '0', 'm']);
            reveal_strlit("F20");
            assert("F20"@ =~= seq!['F', '2', '0']);
            reveal_strlit("f20");
            assert("f20"@ =~= seq!['f', '2', '0']);
            reveal_strlit("30分钟");
            assert("30分钟"@ =~= seq!['3', '0', '分', '钟']);
            reveal_strlit("30m");
            assert("30m"@ =~= seq!['3', '0', 'm']);
            reveal_strlit("F30");
            assert("F30"@ =~= seq!['F', '3', '0']);
            reveal_strlit("f30");
            assert("f30"@ =~= seq!['f', '3', '0']);
            reveal_strlit("60分钟");
            assert("60分钟"@ =~= seq!['6', '0', '分', '钟']);
            reveal_strlit("60m");
            assert("60m"@ =~= seq!['6', '0', 'm']);
            reveal_strlit("F60");
            assert("F60"@ =~= seq!['F', '6', '0']);
            reveal_strlit("f60");
            assert("f60"@ =~= seq!['f', '6', '0']);
            reveal_strlit("120分钟");
            assert("120分钟"@ =~= seq!['1', '2', '0', '分', '钟']);
            reveal_strlit("120m");
            assert("120m"@ =~= seq!['1', '2', '0', 'm']);
            reveal_strlit("F120");
            assert("F120"@ =~= seq!['F', '1', '2', '0']);
            reveal_strlit("f120");
            assert("f120"@ =~= seq!['f', '1', '2', '0']);
            reveal_strlit("日线");
            assert("日线"@ =~= seq!['日', '线']);
            reveal_strlit("D");
            assert("D"@ =~= seq!['D']);
            reveal_strlit("d");
            assert("d"@ =~= seq!['d']);
            reveal_strlit("周线");
            assert("周线"@ =~= seq!['周', '线']);
            reveal_strlit("W");
            assert("W"@ =~= seq!['W']);
            reveal_strlit("w");
            assert("w"@ =~= seq!['w']);
            assert(freq_of_text(freq_label(Freq::W)) == Some(Freq::W));
        },
        Freq::M => {
            reveal_strlit("Tick");
            assert("Tick"@ =~= seq!['T', 'i', 'c', 'k']);
            reveal_strlit("tick");
            assert("tick"@ =~= seq!['t', 'i', 'c', 'k']);
            reveal_strlit("1分钟");
            assert("1分钟"@ =~= seq!['1', '分', '钟']);
            reveal_strlit("1m");
            assert("1m"@ =~= seq!['1', 'm']);
            reveal_strlit("F1");
            assert("F1"@ =~= seq!['F', '1']);
            reveal_strlit("f1");
            assert("f1"@ =~= seq!['f', '1']);
            reveal_strlit("2分钟");
            assert("2分钟"@ =~= seq!['2', '分', '钟']);
            reveal_strlit("2m");
            assert("2m"@ =~= seq!['2', 'm']);
            reveal_strlit("F2");
            assert("F2"@ =~= seq!['F', '2']);
            reveal_strlit("f2");
            assert("f2"@ =~= seq!['f', '2']);
            reveal_strlit("3分钟");
            assert("3分钟"@ =~= seq!['3', '分', '钟']);
            reveal_strlit("3m");
            assert("3m"@ =~= seq!['3', 'm']);
            reveal_strlit("F3");
            assert("F3"@ =~= seq!['F', '3']);
            reveal_strlit("f3");
            assert("f3"@ =~= seq!['f', '3']);
            reveal_strlit("4分钟");
            assert("4分钟"@ =~= seq!['4', '分', '钟']);
            reveal_strlit("4m");
            assert("4m"@ =~= seq!['4', 'm']);
            reveal_strlit("F4");
            assert("F4"@ =~= seq!['F', '4']);
            reveal_strlit("f4");
            assert("f4"@ =~= seq!['f', '4']);
            reveal_strlit("5分钟");
            assert("5分钟"@ =~= seq!['5', '分', '钟']);
            reveal_strlit("5m");
            assert("5m"@ =~= seq!['5', 'm']);
            reveal_strlit("F5");
            assert("F5"@ =~= seq!['F', '5']);
            reveal_strlit("f5");
            assert("f5"@ =~= seq!['f', '5']);
            reveal_strlit("6分钟");
            assert("6分钟"@ =~= seq!['6', '分', '钟']);
            reveal_strlit("6m");
            assert("6m"@ =~= seq!['6', 'm']);
            reveal_strlit("F6");
            assert("F6"@ =~= seq!['F', '6']);
            reveal_strlit("f6");
            assert("f6"@ =~= seq!['f', '6']);
            reveal_strlit("10分钟");
            assert("10分钟"@ =~= seq!['1', '0', '分', '钟']);
            reveal_strlit("10m");
            assert("10m"@ =~= seq!['1', '0', 'm']);
            reveal_strlit("F10");
            assert("F10"@ =~= seq!['F', '1', '0']);
            reveal_strlit("f10");
            assert("f10"@ =~= seq!['f', '1', '0']);
            reveal_strlit("12分钟");
            assert("12分钟"@ =~= seq!['1', '2', '分', '钟']);
            reveal_strlit("12m");
            assert("12m"@ =~= seq!['1', '2', 'm']);
            reveal_strlit("F12");
            assert("F12"@ =~= seq!['F', '1', '2']);
            reveal_strlit("f12");
            assert("f12"@ =~= seq!['f', '1', '2']);
            reveal_strlit("15分钟");
            assert("15分钟"@ =~= seq!['1', '5', '分', '钟']);
            reveal_strlit("15m");
            assert("15m"@ =~= seq!['1', '5', 'm']);
            reveal_strlit("F15");
            assert("F15"@ =~= seq!['F', '1', '5']);
            reveal_strlit("f15");
            assert("f15"@ =~= seq!['f', '1', '5']);
            reveal_strlit("20分钟");
            assert("20分钟"@ =~= seq!['2', '0', '分', '钟']);
            reveal_strlit("20m");
            assert("20m"@ =~= seq!['2', '0', 'm']);
            reveal_strlit("F20");
            assert("F20"@ =~= seq!['F', '2', '0']);
            reveal_strlit("f20");
            assert("f20"@ =~= seq!['f', '2', '0']);
            reveal_strlit("30分钟");
            assert("30分钟"@ =~= seq!['3', '0', '分', '钟']);
            reveal_strlit("30m");
            assert("30m"@ =~= seq!['3', '0', 'm']);
            reveal_strlit("F30");
            assert("F30"@ =~= seq!['F', '3', '0']);
            reveal_strlit("f30");
            assert("f30"@ =~= seq!['f', '3', '0']);
            reveal_strlit("60分钟");
            assert("60分钟"@ =~= seq!['6', '0', '分', '钟']);
            reveal_strlit("60m");
            assert("60m"@ =~= seq!['6', '0', 'm']);
            reveal_strlit("F60");
            assert("F60"@ =~= seq!['F', '6', '0']);
            reveal_strlit("f60");
            assert("f60"@ =~= seq!['f', '6', '0']);
            reveal_strlit("120分钟");
            assert("120分钟"@ =~= seq!['1', '2', '0', '分', '钟']);
            reveal_strlit("120m");
            assert("120m"@ =~= seq!['1', '2', '0', 'm']);
            reveal_strlit("F120");
            assert("F120"@ =~= seq!['F', '1', '2', '0']);
            reveal_strlit("f120");
            assert("f120"@ =~= seq!['f', '1', '2', '0']);
            reveal_strlit("日线");
            assert("日线"@ =~= seq!['日', '线']);
            reveal_strlit("D");
            assert("D"@ =~= seq!['D']);
            reveal_strlit("d");
            assert("d"@ =~= seq!['d']);
            reveal_strlit("周线");
            assert("周线"@ =~= seq!['周', '线']);
            reveal_strlit("W");
            assert("W"@ =~= seq!['W']);
            reveal_strlit("w");
            assert("w"@ =~= seq!['w']);
            reveal_strlit("月线");
            assert("月线"@ =~= seq!['月', '线']);
            reveal_strlit("M");
            assert("M"@ =~= seq!['M']);
            reveal_strlit("m");
            assert("m"@ =~= seq!['m']);
            assert(freq_of_text(freq_label(Freq::M)) == Some(Freq::M));
        },
        Freq::S => {
            reveal_strlit("Tick");
            assert("Tick"@ =~= seq!['T', 'i', 'c', 'k']);
            reveal_strlit("tick");
            assert("tick"@ =~= seq!['t', 'i', 'c', 'k']);
            reveal_strlit("1分钟");
            assert("1分钟"@ =~= seq!['1', '分', '钟']);
            reveal_strlit("1m");
            assert("1m"@ =~= seq!['1', 'm']);
            reveal_strlit("F1");
            assert("F1"@ =~= seq!['F', '1']);
            reveal_strlit("f1");
            assert("f1"@ =~= seq!['f', '1']);
            reveal_strlit("2分钟");
            assert("2分钟"@ =~= seq!['2', '分', '钟']);
            reveal_strlit("2m");
            assert("2m"@ =~= seq!['2', 'm']);
            reveal_strlit("F2");
            assert("F2"@ =~= seq!['F', '2']);
            reveal_strlit("f2");
            assert("f2"@ =~= seq!['f', '2']);
            reveal_strlit("3分钟");
            assert("3分钟"@ =~= seq!['3', '分', '钟']);
            reveal_strlit("3m");
            assert("3m"@ =~= seq!['3', 'm']);
            reveal_strlit("F3");
            assert("F3"@ =~= seq!['F', '3']);
            reveal_strlit("f3");
            assert("f3"@ =~= seq!['f', '3']);
            reveal_strlit("4分钟");
            assert("4分钟"@ =~= seq!['4', '分', '钟']);
            reveal_strlit("4m");
            assert("4m"@ =~= seq!['4', 'm']);
            reveal_strlit("F4");
            assert("F4"@ =~= seq!['F', '4']);
            reveal_strlit("f4");
            assert("f4"@ =~= seq!['f', '4']);
            reveal_strlit("5分钟");
            assert("5分钟"@ =~= seq!['5', '分', '钟']);
            reveal_strlit("5m");
            assert("5m"@ =~= seq!['5', 'm']);
            reveal_strlit("F5");
            assert("F5"@ =~= seq!['F', '5']);
            reveal_strlit("f5");
            assert("f5"@ =~= seq!['f', '5']);
            reveal_strlit("6分钟");
            assert("6分钟"@ =~= seq!['6', '分', '钟']);
            reveal_strlit("6m");
            assert("6m"@ =~= seq!['6', 'm']);
            reveal_strlit("F6");
            assert("F6"@ =~= seq!['F', '6']);
            reveal_strlit("f6");
            assert("f6"@ =~= seq!['f', '6']);
            reveal_strlit("10分钟");
            assert("10分钟"@ =~= seq!['1', '0', '分', '钟']);
            reveal_strlit("10m");
            assert("10m"@ =~= seq!['1', '0', 'm']);
            reveal_strlit("F10");
            assert("F10"@ =~= seq!['F', '1', '0']);
            reveal_strlit("f10");
            assert("f10"@ =~= seq!['f', '1', '0']);
            reveal_strlit("12分钟");
            assert("12分钟"@ =~= seq!['1', '2', '分', '钟']);
            reveal_strlit("12m");
            assert("12m"@ =~= seq!['1', '2', 'm']);
            reveal_strlit("F12");
            assert("F12"@ =~= seq!['F', '1', '2']);
            reveal_strlit("f12");
            assert("f12"@ =~= seq!['f', '1', '2']);
            reveal_strlit("15分钟");
            assert("15分钟"@ =~= seq!['1', '5', '分', '钟']);
            reveal_strlit("15m");
            assert("15m"@ =~= seq!['1', '5', 'm']);
            reveal_strlit("F15");
            assert("F15"@ =~= seq!['F', '1', '5']);
            reveal_strlit("f15");
            assert("f15"@ =~= seq!['f', '1', '5']);
            reveal_strlit("20分钟");
            assert("20分钟"@ =~= seq!['2', '0', '分', '钟']);
            reveal_strlit("20m");
            assert("20m"@ =~= seq!['2', '0', 'm']);
            reveal_strlit("F20");
            assert("F20"@ =~= seq!['F', '2', '0']);
            reveal_strlit("f20");
            assert("f20"@ =~= seq!['f', '2', '0']);
            reveal_strlit("30分钟");
            assert("30分钟"@ =~= seq!['3', '0', '分', '钟']);
            reveal_strlit("30m");
            assert("30m"@ =~= seq!['3', '0', 'm']);
            reveal_strlit("F30");
            assert("F30"@ =~= seq!['F', '3', '0']);
            reveal_strlit("f30");
            assert("f30"@ =~= seq!['f', '3', '0']);
            reveal_strlit("60分钟");
            assert("60分钟"@ =~= seq!['6', '0', '分', '钟']);
            reveal_strlit("60m");
            assert("60m"@ =~= seq!['6', '0', 'm']);
            reveal_strlit("F60");
            assert("F60"@ =~= seq!['F', '6', '0']);
            reveal_strlit("f60");
            assert("f60"@ =~= seq!['f', '6', '0']);
            reveal_strlit("120分钟");
            assert("120分钟"@ =~= seq!['1', '2', '0', '分', '钟']);
            reveal_strlit("120m");
            assert("120m"@ =~= seq!['1', '2', '0', 'm']);
            reveal_strlit("F120");
            assert("F120"@ =~= seq!['F', '1', '2', '0']);
            reveal_strlit("f120");
            assert("f120"@ =~= seq!['f', '1', '2', '0']);
            reveal_strlit("日线");
            assert("日线"@ =~= seq!['日', '线']);
            reveal_strlit("D");
            assert("D"@ =~= seq!['D']);
            reveal_strlit("d");
            assert("d"@ =~= seq!['d']);
            reveal_strlit("周线");
            assert("周线"@ =~= seq!['周', '线']);
            reveal_strlit("W");
            assert("W"@ =~= seq!['W']);
            reveal_strlit("w");
            assert("w"@ =~= seq!['w']);
            reveal_strlit("月线");
            assert("月线"@ =~= seq!['月', '线']);
            reveal_strlit("M");
            assert("M"@ =~= seq!['M']);
            reveal_strlit("m");
            assert("m"@ =~= seq!['m']);
            reveal_strlit("季线");
            assert("季线"@ =~= seq!['季', '线']);
            reveal_strlit("S");
            assert("S"@ =~= seq!['S']);
            reveal_strlit("s");
            assert("s"@ =~= seq!['s']);
            assert(freq_of_text(freq_label(Freq::S)) == Some(Freq::S));
        },
        Freq::Y => {
            reveal_strlit("Tick");
            assert("Tick"@ =~= seq!['T', 'i', 'c', 'k']);
            reveal_strlit("tick");
            assert("tick"@ =~= seq!['t', 'i', 'c', 'k']);
            reveal_strlit("1分钟");
            assert("1分钟"@ =~= seq!['1', '分', '钟']);
            reveal_strlit("1m");
            assert("1m"@ =~= seq!['1', 'm']);
            reveal_strlit("F1");
            assert("F1"@ =~= seq!['F', '1']);
            reveal_strlit("f1");
            assert("f1"@ =~= seq!['f', '1']);
            reveal_strlit("2分钟");
            assert("2分钟"@ =~= seq!['2', '分', '钟']);
            reveal_strlit("2m");
            assert("2m"@ =~= seq!['2', 'm']);
            reveal_strlit("F2");
            assert("F2"@ =~= seq!['F', '2']);
            reveal_strlit("f2");
            assert("f2"@ =~= seq!['f', '2']);
            reveal_strlit("3分钟");
            assert("3分钟"@ =~= seq!['3', '分', '钟']);
            reveal_strlit("3m");
            assert("3m"@ =~= seq!['3', 'm']);
            reveal_strlit("F3");
            assert("F3"@ =~= seq!['F', '3']);
            reveal_strlit("f3");
            assert("f3"@ =~= seq!['f', '3']);
            reveal_strlit("4分钟");
            assert("4分钟"@ =~= seq!['4', '分', '钟']);
            reveal_strlit("4m");
            assert("4m"@ =~= seq!['4', 'm']);
            reveal_strlit("F4");
            assert("F4"@ =~= seq!['F', '4']);
            reveal_strlit("f4");
            assert("f4"@ =~= seq!['f', '4']);
            reveal_strlit("5分钟");
            assert("5分钟"@ =~= seq!['5', '分', '钟']);
            reveal_strlit("5m");
            assert("5m"@ =~= seq!['5', 'm']);
            reveal_strlit("F5");
            assert("F5"@ =~= seq!['F', '5']);
            reveal_strlit("f5");
            assert("f5"@ =~= seq!['f', '5']);
            reveal_strlit("6分钟");
            assert("6分钟"@ =~= seq!['6', '分', '钟']);
            reveal_strlit("6m");
            assert("6m"@ =~= seq!['6', 'm']);
            reveal_strlit("F6");
            assert("F6"@ =~= seq!['F', '6']);
            reveal_strlit("f6");
            assert("f6"@ =~= seq!['f', '6']);
            reveal_strlit("10分钟");
            assert("10分钟"@ =~= seq!['1', '0', '分', '钟']);
            reveal_strlit("10m");
            assert("10m"@ =~= seq!['1', '0', 'm']);
            reveal_strlit("F10");
            assert("F10"@ =~= seq!['F', '1', '0']);
            reveal_strlit("f10");
            assert("f10"@ =~= seq!['f', '1', '0']);
            reveal_strlit("12分钟");
            assert("12分钟"@ =~= seq!['1', '2', '分', '钟']);
            reveal_strlit("12m");
            assert("12m"@ =~= seq!['1', '2', 'm']);
            reveal_strlit("F12");
            assert("F12"@ =~= seq!['F', '1', '2']);
            reveal_strlit("f12");
            assert("f12"@ =~= seq!['f', '1', '2']);
            reveal_strlit("15分钟");
            assert("15分钟"@ =~= seq!['1', '5', '分', '钟']);
            reveal_strlit("15m");
            assert("15m"@ =~= seq!['1', '5', 'm']);
            reveal_strlit("F15");
            assert("F15"@ =~= seq!['F', '1', '5']);
            reveal_strlit("f15");
            assert("f15"@ =~= seq!['f', '1', '5']);
            reveal_strlit("20分钟");
            assert("20分钟"@ =~= seq!['2', '0', '分', '钟']);
            reveal_strlit("20m");
            assert("20m"@ =~= seq!['2', '0', 'm']);
            reveal_strlit("F20");
            assert("F20"@ =~= seq!['F', '2', '0']);
            reveal_strlit("f20");
            assert("f20"@ =~= seq!['f', '2', '0']);
            reveal_strlit("30分钟");
            assert("30分钟"@ =~= seq!['3', '0', '分', '钟']);
            reveal_strlit("30m");
            assert("30m"@ =~= seq!['3', '0', 'm']);
            reveal_strlit("F30");
            assert("F30"@ =~= seq!['F', '3', '0']);
            reveal_strlit("f30");
            assert("f30"@ =~= seq!['f', '3', '0']);
            reveal_strlit("60分钟");
            assert("60分钟"@ =~= seq!['6', '0', '分', '钟']);
            reveal_strlit("60m");
            assert("60m"@ =~= seq!['6', '0', 'm']);
            reveal_strlit("F60");
            assert("F60"@ =~= seq!['F', '6', '0']);
            reveal_strlit("f60");
            assert("f60"@ =~= seq!['f', '6', '0']);
            reveal_strlit("120分钟");
            assert("120分钟"@ =~= seq!['1', '2', '0', '分', '钟']);
            reveal_strlit("120m");
            assert("120m"@ =~= seq!['1', '2', '0', 'm']);
            reveal_strlit("F120");
            assert("F120"@ =~= seq!['F', '1', '2', '0']);
            reveal_strlit("f120");
            assert("f120"@ =~= seq!['f', '1', '2', '0']);
            reveal_strlit("日线");
            assert("日线"@ =~= seq!['日', '线']);
            reveal_strlit("D");
            assert("D"@ =~= seq!['D']);
            reveal_strlit("d");
            assert("d"@ =~= seq!['d']);
            reveal_strlit("周线");
            assert("周线"@ =~= seq!['周', '线']);
            reveal_strlit("W");
            assert("W"@ =~= seq!['W']);
            reveal_strlit("w");
            assert("w"@ =~= seq!['w']);
            reveal_strlit("月线");
            assert("月线"@ =~= seq!['月', '线']);
            reveal_strlit("M");
            assert("M"@ =~= seq!['M']);
            reveal_strlit("m");
            assert("m"@ =~= seq!['m']);
            reveal_strlit("季线");
            assert("季线"@ =~= seq!['季', '线']);
            reveal_strlit("S");
            assert("S"@ =~= seq!['S']);
            reveal_strlit("s");
            assert("s"@ =~= seq!['s']);
            reveal_strlit("年线");
            assert("年线"@ =~= seq!['年', '线']);
            reveal_strlit("Y");
            assert("Y"@ =~= seq!['Y']);
            reveal_strlit("y");
            assert("y"@ =~= seq!['y']);
            assert(freq_of_text(freq_label(Freq::Y)) == Some(Freq::Y));
        },
    }
}

} // verus!
