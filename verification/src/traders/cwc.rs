//! Strategy positions kept in ClickHouse: the table and view statements, time
//! stamps as the database stores them, and setting up a database.
use vstd::prelude::*;
use vstd::hash_map::StringHashMap;
use crate::text::{chars_of, owned, push_str, put_string, put_text, str_eq, text_values, texts, opt_string_text};
use crate::traders::rows::{key_is, row_views, sort_rows, sorted_by};

verus! {

/// The texts of an optional map of parameters.
pub open spec fn opt_params(params: Option<&StringHashMap<String>>) -> Option<Map<Seq<char>, Seq<char>>> {
    match params {
        Some(m) => Some(text_values(m@)),
        None => None,
    }
}

/// The texts of the rows of a table.
pub open spec fn text_rows(rows: Seq<StringHashMap<String>>) -> Seq<Map<Seq<char>, Seq<char>>> {
    rows.map_values(|m: StringHashMap<String>| text_values(m@))
}

/// The answer to a statement, by its texts.
pub open spec fn unit_answer(r: Result<(), String>) -> Result<(), Seq<char>> {
    match r {
        Ok(()) => Ok(()),
        Err(e) => Err(e@),
    }
}

/// The answer to a query, by its texts.
pub open spec fn rows_answer(r: Result<Vec<StringHashMap<String>>, String>) -> Result<Seq<Map<Seq<char>, Seq<char>>>, Seq<char>> {
    match r {
        Ok(v) => Ok(text_rows(v@)),
        Err(e) => Err(e@),
    }
}

/// A ClickHouse connection, implemented by the caller: runs a statement, runs a
/// query returning rows of texts keyed by column, or inserts rows into a table.
///
/// The implementer says, in `command_answers`, `query_answers` and
/// `insert_answers`, which answers the connection may give to what it is handed
/// (by default, any); each method's answer is one of those. Nothing is assumed of
/// these relations: they let the library's contracts say which statements it
/// hands over, in which order, and what it makes of the answers.
pub trait ClickHouseClient {
    /// Whether `answer` is an answer the connection may give to the statement
    /// `sql` with the parameters `params`.
    open spec fn command_answers(&self, sql: Seq<char>, params: Option<Map<Seq<char>, Seq<char>>>, answer: Result<(), Seq<char>>) -> bool {
        true
    }

    /// Whether `answer` is an answer the connection may give to the query `sql`
    /// with the parameters `params`.
    open spec fn query_answers(
        &self,
        sql: Seq<char>,
        params: Option<Map<Seq<char>, Seq<char>>>,
        answer: Result<Seq<Map<Seq<char>, Seq<char>>>, Seq<char>>,
    ) -> bool {
        true
    }

    /// Whether `answer` is an answer the connection may give to inserting the
    /// rows `data` into `table`.
    open spec fn insert_answers(&self, table: Seq<char>, data: Seq<Map<Seq<char>, Seq<char>>>, answer: Result<(), Seq<char>>) -> bool {
        true
    }

    fn command(&self, sql: &str, params: Option<&StringHashMap<String>>) -> (r: Result<(), String>)
        ensures
            self.command_answers(sql@, opt_params(params), unit_answer(r)),
    ;

    fn query_df(&self, sql: &str, params: Option<&StringHashMap<String>>) -> (r: Result<Vec<StringHashMap<String>>, String>)
        ensures
            self.query_answers(sql@, opt_params(params), rows_answer(r)),
    ;

    fn insert_df(&self, table: &str, data: &Vec<StringHashMap<String>>) -> (r: Result<(), String>)
        ensures
            self.insert_answers(table@, text_rows(data@), unit_answer(r)),
    ;
}

/// Whether `c` has the Unicode `White_Space` property (what `char::is_whitespace`
/// tests).
pub open spec fn is_white_space(c: char) -> bool {
    ||| '\u{9}' <= c <= '\u{d}'
    ||| c == ' '
    ||| c == '\u{85}'
    ||| c == '\u{a0}'
    ||| c == '\u{1680}'
    ||| '\u{2000}' <= c <= '\u{200a}'
    ||| c == '\u{2028}'
    ||| c == '\u{2029}'
    ||| c == '\u{202f}'
    ||| c == '\u{205f}'
    ||| c == '\u{3000}'
}

/// Whether a text is empty once white space is trimmed from both ends.
pub open spec fn is_blank_text(s: Seq<char>) -> bool {
    forall|i: int| 0 <= i < s.len() ==> is_white_space(#[trigger] s[i])
}

fn white_space(c: char) -> (r: bool)
    ensures
        r == is_white_space(c),
{
    ('\u{9}' <= c && c <= '\u{d}') || c == ' ' || c == '\u{85}' || c == '\u{a0}' || c == '\u{1680}'
        || ('\u{2000}' <= c && c <= '\u{200a}') || c == '\u{2028}' || c == '\u{2029}' || c == '\u{202f}'
        || c == '\u{205f}' || c == '\u{3000}'
}

/// Whether `s` holds nothing but white space.
pub fn is_blank(s: &str) -> (r: bool)
    ensures
        r == is_blank_text(s@),
{
    let v = chars_of(s);
    let mut i: usize = 0;
    while i < v.len()
        invariant
            v@ == s@,
            i <= v@.len(),
            forall|j: int| 0 <= j < i ==> is_white_space(#[trigger] v@[j]),
        decreases v.len() - i,
    {
        if !white_space(v[i]) {
            return false;
        }
        i = i + 1;
    }
    true
}

/// The statement that creates the database.
pub open spec fn create_database_sql(database: Seq<char>) -> Seq<char> {
    "CREATE DATABASE IF NOT EXISTS "@ + database
}

/// Creates the database in `database`: the text of `create_database_sql`.
pub fn create_database_statement(database: &str) -> (r: String)
    ensures
        r@ == create_database_sql(database@),
{
    let mut s = String::new();
    push_str(&mut s, "CREATE DATABASE IF NOT EXISTS ");
    push_str(&mut s, database);
    assert(s@ =~= create_database_sql(database@));
    s
}

/// The statement that creates the strategy metadata table.
pub open spec fn metas_table_sql(database: Seq<char>) -> Seq<char> {
    "CREATE TABLE IF NOT EXISTS "@ + database + ".metas (
            strategy String NOT NULL,                              -- 策略名（唯一且不能为空）
            base_freq String,                                      -- 周期
            description String,                                    -- 描述
            author String,                                         -- 作者
            outsample_sdt DateTime('Asia/Shanghai'),               -- 样本外起始时间
            create_time DateTime('Asia/Shanghai'),                 -- 策略入库时间
            update_time DateTime('Asia/Shanghai'),                 -- 策略更新时间
            heartbeat_time DateTime('Asia/Shanghai'),              -- 最后一次心跳时间
            weight_type String,                                    -- 策略上传的权重类型，ts 或 cs
            status String DEFAULT '实盘',                           -- 策略状态：实盘、废弃
            memo String                                            -- 策略备忘信息
        )
        ENGINE = ReplacingMergeTree()
        ORDER BY strategy;"@
}

/// Creates the strategy metadata table in `database`: the text of `metas_table_sql`.
pub fn metas_table_statement(database: &str) -> (r: String)
    ensures
        r@ == metas_table_sql(database@),
{
    let mut s = String::new();
    push_str(&mut s, "CREATE TABLE IF NOT EXISTS ");
    push_str(&mut s, database);
    push_str(&mut s, ".metas (
            strategy String NOT NULL,                              -- 策略名（唯一且不能为空）
            base_freq String,                                      -- 周期
            description String,                                    -- 描述
            author String,                                         -- 作者
            outsample_sdt DateTime('Asia/Shanghai'),               -- 样本外起始时间
            create_time DateTime('Asia/Shanghai'),                 -- 策略入库时间
            update_time DateTime('Asia/Shanghai'),                 -- 策略更新时间
            heartbeat_time DateTime('Asia/Shanghai'),              -- 最后一次心跳时间
            weight_type String,                                    -- 策略上传的权重类型，ts 或 cs
            status String DEFAULT '实盘',                           -- 策略状态：实盘、废弃
            memo String                                            -- 策略备忘信息
        )
        ENGINE = ReplacingMergeTree()
        ORDER BY strategy;");
    assert(s@ =~= metas_table_sql(database@));
    s
}

/// The statement that creates the weights table.
pub open spec fn weights_table_sql(database: Seq<char>) -> Seq<char> {
    "CREATE TABLE IF NOT EXISTS "@ + database + ".weights (
            dt DateTime('Asia/Shanghai'),            -- 持仓权重时间
            symbol String,                           -- 符号（例如，股票代码或其他标识符）
            weight Float64,                          -- 策略持仓权重值
            strategy String,                         -- 策略名称
            update_time DateTime('Asia/Shanghai')    -- 持仓权重更新时间
        )
        ENGINE = ReplacingMergeTree()
        ORDER BY (strategy, dt, symbol);"@
}

/// Creates the weights table in `database`: the text of `weights_table_sql`.
pub fn weights_table_statement(database: &str) -> (r: String)
    ensures
        r@ == weights_table_sql(database@),
{
    let mut s = String::new();
    push_str(&mut s, "CREATE TABLE IF NOT EXISTS ");
    push_str(&mut s, database);
    push_str(&mut s, ".weights (
            dt DateTime('Asia/Shanghai'),            -- 持仓权重时间
            symbol String,                           -- 符号（例如，股票代码或其他标识符）
            weight Float64,                          -- 策略持仓权重值
            strategy String,                         -- 策略名称
            update_time DateTime('Asia/Shanghai')    -- 持仓权重更新时间
        )
        ENGINE = ReplacingMergeTree()
        ORDER BY (strategy, dt, symbol);");
    assert(s@ =~= weights_table_sql(database@));
    s
}

/// The statement that creates the returns table.
pub open spec fn returns_table_sql(database: Seq<char>) -> Seq<char> {
    "CREATE TABLE IF NOT EXISTS "@ + database + ".returns (
            dt DateTime('Asia/Shanghai'),            -- 时间
            symbol String,                           -- 符号（例如，股票代码或其他标识符）
            returns Float64,                         -- 策略收益，从上一个 dt 到当前 dt 的收益
            strategy String,                         -- 策略名称
            update_time DateTime('Asia/Shanghai')    -- 更新时间
        )
        ENGINE = ReplacingMergeTree()
        ORDER BY (strategy, dt, symbol);"@
}

/// Creates the returns table in `database`: the text of `returns_table_sql`.
pub fn returns_table_statement(database: &str) -> (r: String)
    ensures
        r@ == returns_table_sql(database@),
{
    let mut s = String::new();
    push_str(&mut s, "CREATE TABLE IF NOT EXISTS ");
    push_str(&mut s, database);
    push_str(&mut s, ".returns (
            dt DateTime('Asia/Shanghai'),            -- 时间
            symbol String,                           -- 符号（例如，股票代码或其他标识符）
            returns Float64,                         -- 策略收益，从上一个 dt 到当前 dt 的收益
            strategy String,                         -- 策略名称
            update_time DateTime('Asia/Shanghai')    -- 更新时间
        )
        ENGINE = ReplacingMergeTree()
        ORDER BY (strategy, dt, symbol);");
    assert(s@ =~= returns_table_sql(database@));
    s
}

/// The statement that creates the view of the latest weights of cross-section strategies.
pub open spec fn cs_latest_view_sql(database: Seq<char>) -> Seq<char> {
    "CREATE VIEW IF NOT EXISTS "@ + database + ".cs_latest_weights AS
        WITH latest_dates AS (
            SELECT 
                strategy,
                MAX(dt) AS latest_dt
            FROM "@ + database + ".weights
            GROUP BY strategy
        )
        SELECT 
            w.dt as dt,
            w.symbol as symbol,
            w.weight as weight,
            w.strategy as strategy,
            w.update_time as update_time
        FROM "@ + database + ".weights w
        JOIN latest_dates ld ON w.strategy = ld.strategy AND w.dt = ld.latest_dt
        JOIN "@ + database + ".metas m ON w.strategy = m.strategy
        WHERE m.weight_type = 'cs'"@
}

/// Creates the view of the latest weights of cross-section strategies in `database`: the text of `cs_latest_view_sql`.
pub fn cs_latest_view_statement(database: &str) -> (r: String)
    ensures
        r@ == cs_latest_view_sql(database@),
{
    let mut s = String::new();
    push_str(&mut s, "CREATE VIEW IF NOT EXISTS ");
    push_str(&mut s, database);
    push_str(&mut s, ".cs_latest_weights AS
        WITH latest_dates AS (
            SELECT 
                strategy,
                MAX(dt) AS latest_dt
            FROM ");
    push_str(&mut s, database);
    push_str(&mut s, ".weights
            GROUP BY strategy
        )
        SELECT 
            w.dt as dt,
            w.symbol as symbol,
            w.weight as weight,
            w.strategy as strategy,
            w.update_time as update_time
        FROM ");
    push_str(&mut s, database);
    push_str(&mut s, ".weights w
        JOIN latest_dates ld ON w.strategy = ld.strategy AND w.dt = ld.latest_dt
        JOIN ");
    push_str(&mut s, database);
    push_str(&mut s, ".metas m ON w.strategy = m.strategy
        WHERE m.weight_type = 'cs'");
    assert(s@ =~= cs_latest_view_sql(database@));
    s
}

/// The statement that creates the view of the latest weights of time-series strategies.
pub open spec fn ts_latest_view_sql(database: Seq<char>) -> Seq<char> {
    "CREATE VIEW IF NOT EXISTS "@ + database + ".ts_latest_weights AS
        WITH latest_records AS (
            SELECT 
                strategy,
                symbol,
                MAX(dt) AS latest_dt
            FROM "@ + database + ".weights
            GROUP BY strategy, symbol
        )
        SELECT 
            w.dt as dt,
            w.symbol as symbol,
            w.weight as weight,
            w.strategy as strategy,
            w.update_time as update_time
        FROM "@ + database + ".weights w
        JOIN latest_records lr ON w.strategy = lr.strategy 
                              AND w.symbol = lr.symbol 
                              AND w.dt = lr.latest_dt
        JOIN "@ + database + ".metas m ON w.strategy = m.strategy
        WHERE m.weight_type = 'ts'"@
}

/// Creates the view of the latest weights of time-series strategies in `database`: the text of `ts_latest_view_sql`.
pub fn ts_latest_view_statement(database: &str) -> (r: String)
    ensures
        r@ == ts_latest_view_sql(database@),
{
    let mut s = String::new();
    push_str(&mut s, "CREATE VIEW IF NOT EXISTS ");
    push_str(&mut s, database);
    push_str(&mut s, ".ts_latest_weights AS
        WITH latest_records AS (
            SELECT 
                strategy,
                symbol,
                MAX(dt) AS latest_dt
            FROM ");
    push_str(&mut s, database);
    push_str(&mut s, ".weights
            GROUP BY strategy, symbol
        )
        SELECT 
            w.dt as dt,
            w.symbol as symbol,
            w.weight as weight,
            w.strategy as strategy,
            w.update_time as update_time
        FROM ");
    push_str(&mut s, database);
    push_str(&mut s, ".weights w
        JOIN latest_records lr ON w.strategy = lr.strategy 
                              AND w.symbol = lr.symbol 
                              AND w.dt = lr.latest_dt
        JOIN ");
    push_str(&mut s, database);
    push_str(&mut s, ".metas m ON w.strategy = m.strategy
        WHERE m.weight_type = 'ts'");
    assert(s@ =~= ts_latest_view_sql(database@));
    s
}

/// The statement that creates the view of all latest weights.
pub open spec fn latest_view_sql(database: Seq<char>) -> Seq<char> {
    "CREATE VIEW IF NOT EXISTS "@ + database + ".latest_weights AS
        SELECT * FROM "@ + database + ".ts_latest_weights
        UNION ALL
        SELECT * FROM "@ + database + ".cs_latest_weights"@
}

/// Creates the view of all latest weights in `database`: the text of `latest_view_sql`.
pub fn latest_view_statement(database: &str) -> (r: String)
    ensures
        r@ == latest_view_sql(database@),
{
    let mut s = String::new();
    push_str(&mut s, "CREATE VIEW IF NOT EXISTS ");
    push_str(&mut s, database);
    push_str(&mut s, ".latest_weights AS
        SELECT * FROM ");
    push_str(&mut s, database);
    push_str(&mut s, ".ts_latest_weights
        UNION ALL
        SELECT * FROM ");
    push_str(&mut s, database);
    push_str(&mut s, ".cs_latest_weights");
    assert(s@ =~= latest_view_sql(database@));
    s
}

/// The UTC instant (seconds since the epoch, nanoseconds within the second) that
/// chrono reads from an RFC 3339 text, if it accepts it.
pub uninterp spec fn rfc3339_instant(text: Seq<char>) -> Option<(i64, u32)>;

/// The instant that chrono reads from a date and time without offset, taken as
/// UTC, in the given `strftime` format, if it accepts it.
pub uninterp spec fn naive_datetime_instant(text: Seq<char>, fmt: Seq<char>) -> Option<(i64, u32)>;

/// The instant of midnight UTC of the date that chrono reads in the given format,
/// if it accepts it.
pub uninterp spec fn naive_date_instant(text: Seq<char>, fmt: Seq<char>) -> Option<(i64, u32)>;

/// The text that chrono writes for a UTC instant in the given format, if the
/// instant is within its range.
pub uninterp spec fn utc_text(secs: i64, nanos: u32, fmt: Seq<char>) -> Option<Seq<char>>;

/// The UTC instant that chrono's `DateTime::parse_from_str` reads from a text in
/// the given `strftime` format (which must give an offset), if it accepts it.
pub uninterp spec fn offset_datetime_instant(text: Seq<char>, fmt: Seq<char>) -> Option<(i64, u32)>;

/// `chrono::DateTime::parse_from_str`, then converted to UTC. Claimed: the result
/// is a function of the text and the format (`offset_datetime_instant`).
#[verifier::external_body]
pub(crate) fn parse_offset_datetime(text: &str, fmt: &str) -> (r: Option<(i64, u32)>)
    ensures
        r == offset_datetime_instant(text@, fmt@),
{
    match chrono::DateTime::parse_from_str(text, fmt) {
        Ok(t) => {
            let u = t.with_timezone(&chrono::Utc);
            Some((u.timestamp(), u.timestamp_subsec_nanos()))
        },
        Err(_) => None,
    }
}

/// `chrono::DateTime::parse_from_rfc3339`, then converted to UTC. Claimed: the
/// result is a function of the text (`rfc3339_instant`).
#[verifier::external_body]
pub(crate) fn parse_rfc3339(text: &str) -> (r: Option<(i64, u32)>)
    ensures
        r == rfc3339_instant(text@),
{
    match chrono::DateTime::parse_from_rfc3339(text) {
        Ok(t) => {
            let u = t.with_timezone(&chrono::Utc);
            Some((u.timestamp(), u.timestamp_subsec_nanos()))
        },
        Err(_) => None,
    }
}

/// `chrono::NaiveDateTime::parse_from_str`, the result read as UTC. Claimed: the
/// result is a function of the text and the format (`naive_datetime_instant`).
#[verifier::external_body]
pub(crate) fn parse_naive_datetime(text: &str, fmt: &str) -> (r: Option<(i64, u32)>)
    ensures
        r == naive_datetime_instant(text@, fmt@),
{
    match chrono::NaiveDateTime::parse_from_str(text, fmt) {
        Ok(t) => Some((t.and_utc().timestamp(), t.and_utc().timestamp_subsec_nanos())),
        Err(_) => None,
    }
}

/// `chrono::NaiveDate::parse_from_str`, at midnight UTC. Claimed: the result is a
/// function of the text and the format (`naive_date_instant`).
#[verifier::external_body]
pub(crate) fn parse_naive_date(text: &str, fmt: &str) -> (r: Option<(i64, u32)>)
    ensures
        r == naive_date_instant(text@, fmt@),
{
    match chrono::NaiveDate::parse_from_str(text, fmt) {
        Ok(d) => {
            let t = d.and_time(chrono::NaiveTime::MIN).and_utc();
            Some((t.timestamp(), t.timestamp_subsec_nanos()))
        },
        Err(_) => None,
    }
}

/// Whether a text was written and chrono reads it as `%Y-%m-%d %H:%M:%S` (as
/// UTC) as the second `secs`.
pub open spec fn reads_back_second(t: Option<String>, secs: i64) -> bool {
    match t {
        Some(t) => naive_datetime_instant(t@, "%Y-%m-%d %H:%M:%S"@) == Some((secs, 0u32)),
        None => false,
    }
}

/// `chrono::DateTime::from_timestamp`, then `naive_utc().format(fmt)` written out.
/// Claimed: the result is a function of the instant and the format (`utc_text`).
/// The format is one of those the library uses, which chrono can always write.
/// Also claimed: an instant from 1970 to the end of 9999, without a leap second,
/// written as `%Y-%m-%d %H:%M:%S` (a four-digit year, all fields zero-padded),
/// is read back by `NaiveDateTime::parse_from_str` in that format as the same
/// second (`naive_datetime_instant`), the nanoseconds dropped.
#[verifier::external_body]
pub(crate) fn format_utc(secs: i64, nanos: u32, fmt: &str) -> (r: Option<String>)
    requires
        fmt@ == "%Y-%m-%d %H:%M:%S"@ || fmt@ == "%Y%m%d"@ || fmt@ == "%Y%m%d%H%M%S"@,
    ensures
        match r {
            Some(t) => utc_text(secs, nanos, fmt@) == Some(t@),
            None => utc_text(secs, nanos, fmt@) is None,
        },
        fmt@ == "%Y-%m-%d %H:%M:%S"@ && 0 <= secs <= 253402300799 && nanos < 1000000000 ==> reads_back_second(r, secs),
{
    match chrono::DateTime::from_timestamp(secs, nanos) {
        Some(t) => Some(t.naive_utc().format(fmt).to_string()),
        None => None,
    }
}

/// The texts of an optional string.
pub open spec fn opt_text(value: Option<&str>) -> Option<Seq<char>> {
    match value {
        Some(v) => Some(v@),
        None => None,
    }
}

/// The instant a stored time text stands for: none for a missing or blank text;
/// otherwise the first reading that succeeds of RFC 3339, `%Y-%m-%d %H:%M:%S`
/// (as UTC) and `%Y-%m-%d` (midnight UTC).
pub open spec fn timestamp_of(value: Option<Seq<char>>) -> Option<(i64, u32)> {
    match value {
        None => None,
        Some(v) => if is_blank_text(v) {
            None
        } else if rfc3339_instant(v) is Some {
            rfc3339_instant(v)
        } else if naive_datetime_instant(v, "%Y-%m-%d %H:%M:%S"@) is Some {
            naive_datetime_instant(v, "%Y-%m-%d %H:%M:%S"@)
        } else {
            naive_date_instant(v, "%Y-%m-%d"@)
        },
    }
}

/// The first of the three readings of a time text that succeeded, in the order
/// RFC 3339, date and time, date.
pub fn first_reading(rfc3339: Option<(i64, u32)>, date_time: Option<(i64, u32)>, date: Option<(i64, u32)>) -> (r: Option<
    (i64, u32),
>)
    ensures
        r == if rfc3339 is Some {
            rfc3339
        } else if date_time is Some {
            date_time
        } else {
            date
        },
{
    match rfc3339 {
        Some(t) => Some(t),
        None => match date_time {
            Some(t) => Some(t),
            None => date,
        },
    }
}

/// The UTC instant of a time text, as seconds since the epoch and nanoseconds;
/// the time zone argument is not used.
pub fn ensure_timestamp(value: Option<&str>, tz: &str) -> (r: Option<(i64, u32)>)
    ensures
        r == timestamp_of(opt_text(value)),
{
    match value {
        None => None,
        Some(v) => {
            if is_blank(v) {
                return None;
            }
            let a = parse_rfc3339(v);
            let b = parse_naive_datetime(v, "%Y-%m-%d %H:%M:%S");
            let c = parse_naive_date(v, "%Y-%m-%d");
            first_reading(a, b, c)
        },
    }
}

/// What `format_for_db` gives: the instant of the text written as
/// `%Y-%m-%d %H:%M:%S` in UTC.
pub open spec fn db_text(value: Option<Seq<char>>) -> Option<Seq<char>> {
    match timestamp_of(value) {
        Some((secs, nanos)) => utc_text(secs, nanos, "%Y-%m-%d %H:%M:%S"@),
        None => None,
    }
}

/// A time text written as ClickHouse stores it: `%Y-%m-%d %H:%M:%S` in UTC, or
/// `None` when the text holds no time; the time zone argument is not used.
pub fn format_for_db(value: Option<&str>, tz: &str) -> (r: Option<String>)
    ensures
        opt_string_text(r) == db_text(opt_text(value)),
{
    match ensure_timestamp(value, "") {
        Some((secs, nanos)) => format_utc(secs, nanos, "%Y-%m-%d %H:%M:%S"),
        None => None,
    }
}

/// Whether `answer` is what running the statements `stmts` (without parameters)
/// one after another, stopping at the first failure, can give: each statement
/// answered success and so does the whole, or the first failing answer.
pub open spec fn ran_in_order<T: ClickHouseClient>(db: T, stmts: Seq<Seq<char>>, answer: Result<(), Seq<char>>) -> bool
    decreases stmts.len(),
{
    if stmts.len() == 0 {
        answer == Ok::<(), Seq<char>>(())
    } else {
        ||| db.command_answers(stmts[0], None, Ok(())) && ran_in_order(db, stmts.drop_first(), answer)
        ||| answer is Err && db.command_answers(stmts[0], None, answer)
    }
}

/// Running `a` and then `b` is running `a + b`: a success of `a` followed by
/// any answer of `b`, or a failure of `a`.
proof fn lemma_ran_concat<T: ClickHouseClient>(db: T, a: Seq<Seq<char>>, b: Seq<Seq<char>>, x: Result<(), Seq<char>>, y: Result<(), Seq<char>>)
    requires
        ran_in_order(db, a, x),
        x is Ok ==> ran_in_order(db, b, y),
        x is Err ==> y == x,
    ensures
        ran_in_order(db, a + b, y),
    decreases a.len(),
{
    if a.len() == 0 {
        assert(a + b =~= b);
    } else {
        assert((a + b)[0] == a[0]);
        assert((a + b).drop_first() =~= a.drop_first() + b);
        if db.command_answers(a[0], None, Ok(())) && ran_in_order(db, a.drop_first(), x) {
            lemma_ran_concat(db, a.drop_first(), b, x, y);
        }
    }
}

/// Against a connection that answers each of the first `j` statements only with
/// success and the next one only with the failure `e`, running the statements in
/// order (as `init_tables`, `init_latest_weights_view` and `initialize` do) gives
/// success when all `j` or more succeed and otherwise exactly `e`: it stops at
/// the first failure.
pub proof fn law_ran_in_order_stops_at_first_failure<T: ClickHouseClient>(
    db: T,
    stmts: Seq<Seq<char>>,
    j: nat,
    e: Seq<char>,
    a: Result<(), Seq<char>>,
)
    requires
        forall|i: int, b: Result<(), Seq<char>>|
            0 <= i < j && i < stmts.len() ==> (#[trigger] db.command_answers(stmts[i], None, b) <==> b == Ok::<(), Seq<char>>(())),
        j < stmts.len() ==> forall|b: Result<(), Seq<char>>|
            #[trigger] db.command_answers(stmts[j as int], None, b) <==> b == Err::<(), Seq<char>>(e),
    ensures
        ran_in_order(db, stmts, a) <==> a == if j >= stmts.len() {
            Ok::<(), Seq<char>>(())
        } else {
            Err::<(), Seq<char>>(e)
        },
    decreases stmts.len(),
{
    if stmts.len() > 0 {
        let rest = stmts.drop_first();
        if j == 0 {
            assert(!db.command_answers(stmts[0], None, Ok(())));
        } else {
            assert(db.command_answers(stmts[0], None, Ok(())));
            assert forall|i: int, b: Result<(), Seq<char>>|
                0 <= i < j - 1 && i < rest.len() implies (#[trigger] db.command_answers(rest[i], None, b) <==> b == Ok::<(), Seq<char>>(())) by {
                assert(rest[i] == stmts[i + 1]);
                assert(db.command_answers(stmts[i + 1], None, b) <==> b == Ok::<(), Seq<char>>(()));
            }
            if j - 1 < rest.len() {
                assert(rest[j - 1] == stmts[j as int]);
            }
            law_ran_in_order_stops_at_first_failure(db, rest, (j - 1) as nat, e, a);
            if a is Err {
                assert(!db.command_answers(stmts[0], None, a));
            }
        }
    }
}

/// Runs the statements in order, stopping at the first failure, which is
/// returned (see `ran_in_order`).
fn run_statements<T: ClickHouseClient>(db: &T, stmts: &Vec<String>) -> (r: Result<(), String>)
    ensures
        ran_in_order(*db, texts(stmts@), unit_answer(r)),
{
    let ghost all = texts(stmts@);
    let mut i: usize = 0;
    assert(all.skip(0) =~= all);
    while i < stmts.len()
        invariant
            i <= stmts@.len(),
            all == texts(stmts@),
            forall|a: Result<(), Seq<char>>| #[trigger] ran_in_order(*db, all.skip(i as int), a) ==> ran_in_order(*db, all, a),
        decreases stmts.len() - i,
    {
        let r = db.command(stmts[i].as_str(), None);
        let ghost cur = all.skip(i as int);
        assert(cur[0] == stmts@[i as int]@);
        assert(cur.drop_first() =~= all.skip(i + 1));
        match r {
            Err(e) => {
                assert(db.command_answers(cur[0], None, Err(e@)));
                assert(ran_in_order(*db, cur, Err(e@)));
                return Err(e);
            },
            Ok(()) => {
                assert(db.command_answers(cur[0], None, Ok(())));
                assert forall|a: Result<(), Seq<char>>| #[trigger] ran_in_order(*db, all.skip(i + 1), a) implies ran_in_order(*db, all, a) by {
                    assert(ran_in_order(*db, cur, a));
                }
            },
        }
        i = i + 1;
    }
    assert(all.skip(i as int) =~= Seq::<Seq<char>>::empty());
    assert(ran_in_order(*db, all.skip(i as int), Ok(())));
    Ok(())
}

/// The statements that set up the tables, in order.
pub open spec fn table_statements(database: Seq<char>) -> Seq<Seq<char>> {
    seq![create_database_sql(database), metas_table_sql(database), weights_table_sql(database), returns_table_sql(database)]
}

/// The statements that set up the views of the latest weights, in order.
pub open spec fn view_statements(database: Seq<char>) -> Seq<Seq<char>> {
    seq![cs_latest_view_sql(database), ts_latest_view_sql(database), latest_view_sql(database)]
}

/// Sets up the tables: the database, then the metadata, weights and returns
/// tables (`table_statements`), each statement only after the previous one
/// succeeded; the first failure is returned.
pub fn init_tables<T: ClickHouseClient>(db: &T, database: &str, kwargs: &StringHashMap<String>) -> (r: Result<(), String>)
    ensures
        ran_in_order(*db, table_statements(database@), unit_answer(r)),
{
    let stmts = vec![
        create_database_statement(database),
        metas_table_statement(database),
        weights_table_statement(database),
        returns_table_statement(database),
    ];
    assert(texts(stmts@) =~= table_statements(database@));
    run_statements(db, &stmts)
}

/// Sets up the views of the latest weights: of cross-section strategies, of
/// time-series strategies, and of both (`view_statements`); the first failure is
/// returned.
pub fn init_latest_weights_view<T: ClickHouseClient>(db: &T, database: &str, kwargs: &StringHashMap<String>) -> (r: Result<
    (),
    String,
>)
    ensures
        ran_in_order(*db, view_statements(database@), unit_answer(r)),
{
    let stmts = vec![cs_latest_view_statement(database), ts_latest_view_statement(database), latest_view_statement(database)];
    assert(texts(stmts@) =~= view_statements(database@));
    run_statements(db, &stmts)
}

/// Sets up the database: its tables, then its views of the latest weights, as
/// one run of statements (the first failure is returned).
pub fn initialize<T: ClickHouseClient>(db: &T, database: &str, kwargs: &StringHashMap<String>) -> (r: Result<(), String>)
    ensures
        ran_in_order(*db, table_statements(database@) + view_statements(database@), unit_answer(r)),
{
    match init_tables(db, database, kwargs) {
        Err(e) => {
            proof {
                lemma_ran_concat(*db, table_statements(database@), view_statements(database@), unit_answer(Err(e)), unit_answer(Err(e)));
            }
            Err(e)
        },
        Ok(()) => {
            let r = init_latest_weights_view(db, database, kwargs);
            proof {
                lemma_ran_concat(*db, table_statements(database@), view_statements(database@), Ok(()), unit_answer(r));
            }
            r
        },
    }
}

/// `chrono_tz::Tz`, a time zone, carried through as an opaque value.
#[verifier::external_type_specification]
#[verifier::external_body]
pub struct ExTz(chrono_tz::Tz);

/// The current UTC time written by chrono's `to_rfc3339`. Nothing is claimed of
/// it: it depends on the clock.
#[verifier::external_body]
pub(crate) fn now_rfc3339() -> String {
    chrono::Utc::now().to_rfc3339()
}

/// The current UTC time written by chrono as `%Y-%m-%d %H:%M:%S`. Nothing is
/// claimed of it: it depends on the clock.
#[verifier::external_body]
pub(crate) fn now_text() -> String {
    chrono::Utc::now().format("%Y-%m-%d %H:%M:%S").to_string()
}

/// `<database><suffix>`.
fn table_of(database: &str, suffix: &str) -> (r: String)
    ensures
        r@ == database@ + suffix@,
{
    let mut s = String::new();
    push_str(&mut s, database);
    push_str(&mut s, suffix);
    s
}

/// The query for a strategy's metadata rows; the strategy is its parameter
/// `strategy`.
pub open spec fn meta_query_sql(database: Seq<char>) -> Seq<char> {
    "SELECT * FROM "@ + database + ".metas final WHERE strategy = %(strategy)s"@
}

/// The text of `meta_query_sql`.
pub fn meta_query_statement(database: &str) -> (r: String)
    ensures
        r@ == meta_query_sql(database@),
{
    let mut s = String::new();
    push_str(&mut s, "SELECT * FROM ");
    push_str(&mut s, database);
    push_str(&mut s, ".metas final WHERE strategy = %(strategy)s");
    assert(s@ =~= meta_query_sql(database@));
    s
}

/// The statement that stamps a strategy's heartbeat with `time`.
pub open spec fn heartbeat_sql(database: Seq<char>, time: Seq<char>, strategy: Seq<char>) -> Seq<char> {
    "ALTER TABLE "@ + database + ".metas UPDATE heartbeat_time = '"@ + time + "' WHERE strategy = '"@ + strategy + "'"@
}

/// The text of `heartbeat_sql`.
pub fn heartbeat_statement(database: &str, time: &str, strategy: &str) -> (r: String)
    ensures
        r@ == heartbeat_sql(database@, time@, strategy@),
{
    let mut s = String::new();
    push_str(&mut s, "ALTER TABLE ");
    push_str(&mut s, database);
    push_str(&mut s, ".metas UPDATE heartbeat_time = '");
    push_str(&mut s, time);
    push_str(&mut s, "' WHERE strategy = '");
    push_str(&mut s, strategy);
    push_str(&mut s, "'");
    assert(s@ =~= heartbeat_sql(database@, time@, strategy@));
    s
}

/// The statement that sets a strategy's status, stamped with `time`.
pub open spec fn status_sql(database: Seq<char>, status: Seq<char>, time: Seq<char>, strategy: Seq<char>) -> Seq<char> {
    "ALTER TABLE "@ + database + ".metas UPDATE status = '"@ + status + "', update_time = '"@ + time + "' WHERE strategy = '"@
        + strategy + "'"@
}

/// The text of `status_sql`.
pub fn status_statement(database: &str, status: &str, time: &str, strategy: &str) -> (r: String)
    ensures
        r@ == status_sql(database@, status@, time@, strategy@),
{
    let mut s = String::new();
    push_str(&mut s, "ALTER TABLE ");
    push_str(&mut s, database);
    push_str(&mut s, ".metas UPDATE status = '");
    push_str(&mut s, status);
    push_str(&mut s, "', update_time = '");
    push_str(&mut s, time);
    push_str(&mut s, "' WHERE strategy = '");
    push_str(&mut s, strategy);
    push_str(&mut s, "'");
    assert(s@ =~= status_sql(database@, status@, time@, strategy@));
    s
}

/// The message for more than one metadata row.
pub open spec fn duplicate_meta_message() -> Seq<char> {
    "策略 {} 存在多条元数据，请检查"@
}

/// What the metadata query's answer gives: its failure; no metadata for no row;
/// the row for one row; a failure for more.
pub fn meta_from_rows(rows: Result<Vec<StringHashMap<String>>, String>) -> (r: Result<Option<StringHashMap<String>>, String>)
    ensures
        match rows {
            Err(e) => r matches Err(e2) && e2@ == e@,
            Ok(v) => if v@.len() == 0 {
                r matches Ok(None)
            } else if v@.len() == 1 {
                r matches Ok(Some(m)) && m@ == v@[0]@
            } else {
                r matches Err(e) && e@ == duplicate_meta_message()
            },
        },
{
    match rows {
        Err(e) => Err(e),
        Ok(v) => {
            let mut v = v;
            if v.len() == 0 {
                Ok(None)
            } else if v.len() > 1 {
                Err(owned("策略 {} 存在多条元数据，请检查"))
            } else {
                let m = v.remove(0);
                Ok(Some(m))
            }
        },
    }
}

/// The parameters of the metadata query: the strategy.
pub open spec fn strategy_params(strategy: Seq<char>) -> Map<Seq<char>, Seq<char>> {
    Map::empty().insert("strategy"@, strategy)
}

/// What an answer to the metadata query gives, by texts (as `meta_from_rows`
/// reads it): its failure; no metadata for no row; the row for one row; a failure
/// for more.
pub open spec fn meta_of_answer(a: Result<Seq<Map<Seq<char>, Seq<char>>>, Seq<char>>) -> Result<
    Option<Map<Seq<char>, Seq<char>>>,
    Seq<char>,
> {
    match a {
        Err(e) => Err(e),
        Ok(rows) => if rows.len() == 0 {
            Ok(None)
        } else if rows.len() == 1 {
            Ok(Some(rows[0]))
        } else {
            Err(duplicate_meta_message())
        },
    }
}

/// A metadata result, by its texts.
pub open spec fn meta_answer(r: Result<Option<StringHashMap<String>>, String>) -> Result<Option<Map<Seq<char>, Seq<char>>>, Seq<char>> {
    match r {
        Err(e) => Err(e@),
        Ok(None) => Ok(None),
        Ok(Some(m)) => Ok(Some(text_values(m@))),
    }
}

/// Whether `m` is what looking up the metadata of `strategy` in `database` can
/// give: the query `meta_query_sql` with the strategy as parameter, answered by
/// the connection, read by `meta_of_answer`.
pub open spec fn meta_lookup<T: ClickHouseClient>(
    db: T,
    database: Seq<char>,
    strategy: Seq<char>,
    m: Result<Option<Map<Seq<char>, Seq<char>>>, Seq<char>>,
) -> bool {
    exists|a: Result<Seq<Map<Seq<char>, Seq<char>>>, Seq<char>>|
        #[trigger] db.query_answers(meta_query_sql(database), Some(strategy_params(strategy)), a) && meta_of_answer(a) == m
}

/// The metadata of `strategy`: the query `meta_query_sql` with the strategy as
/// parameter, its answer read by `meta_from_rows`.
pub fn get_meta<T: ClickHouseClient>(strategy: &str, db: &T, database: &str, tz: &chrono_tz::Tz) -> (r: Result<
    Option<StringHashMap<String>>,
    String,
>)
    ensures
        meta_lookup(*db, database@, strategy@, meta_answer(r)),
{
    let sql = meta_query_statement(database);
    let mut params: StringHashMap<String> = StringHashMap::new();
    params.insert(owned("strategy"), owned(strategy));
    proof {
        assert(text_values(params@) =~= strategy_params(strategy@));
    }
    let rows = db.query_df(sql.as_str(), Some(&params));
    let ghost a = rows_answer(rows);
    let r = meta_from_rows(rows);
    proof {
        assert(meta_of_answer(a) == meta_answer(r));
    }
    r
}

/// A text, or `default` when it is not given.
pub open spec fn text_or(value: Option<&str>, default: Seq<char>) -> Seq<char> {
    match value {
        Some(v) => v@,
        None => default,
    }
}

/// The creation time that rewritten metadata keeps: the stored one, or
/// `fallback` when there is none.
pub open spec fn kept_create_time(existing: Option<Map<Seq<char>, String>>, fallback: Seq<char>) -> Seq<char> {
    match existing {
        Some(m) => if m.contains_key("create_time"@) {
            m["create_time"@]@
        } else {
            fallback
        },
        None => fallback,
    }
}

/// The view of an optional row.
pub open spec fn opt_row(row: Option<StringHashMap<String>>) -> Option<Map<Seq<char>, String>> {
    match row {
        Some(m) => Some(m@),
        None => None,
    }
}

/// The metadata row of a strategy.
pub open spec fn meta_row_map(
    strategy: Seq<char>,
    base_freq: Seq<char>,
    description: Seq<char>,
    author: Seq<char>,
    outsample_sdt: Seq<char>,
    weight_type: Seq<char>,
    status: Seq<char>,
    memo: Seq<char>,
    create_time: Seq<char>,
    now: Seq<char>,
) -> Map<Seq<char>, Seq<char>> {
    Map::empty().insert("strategy"@, strategy).insert("base_freq"@, base_freq).insert("description"@, description).insert(
        "author"@,
        author,
    ).insert("outsample_sdt"@, outsample_sdt).insert("create_time"@, create_time).insert("update_time"@, now).insert(
        "heartbeat_time"@,
        now,
    ).insert("weight_type"@, weight_type).insert("status"@, status).insert("memo"@, memo)
}

/// The metadata row `set_meta` writes: weight type `ts`, status `实盘` and an
/// empty memo by default, the creation time of the stored metadata (else
/// `fallback`), and `now` as update and heartbeat time.
pub fn meta_row(
    strategy: &str,
    base_freq: &str,
    description: &str,
    author: &str,
    outsample_sdt: &str,
    weight_type: Option<&str>,
    status: Option<&str>,
    memo: Option<&str>,
    existing: Option<StringHashMap<String>>,
    fallback: String,
    now: String,
) -> (r: StringHashMap<String>)
    ensures
        text_values(r@) == meta_row_map(
            strategy@,
            base_freq@,
            description@,
            author@,
            outsample_sdt@,
            text_or(weight_type, "ts"@),
            text_or(status, "实盘"@),
            text_or(memo, ""@),
            kept_create_time(opt_row(existing), fallback@),
            now@,
        ),
{
    let create_time = match &existing {
        Some(m) => match m.get("create_time") {
            Some(t) => t.clone(),
            None => fallback,
        },
        None => fallback,
    };
    let mut row: StringHashMap<String> = StringHashMap::new();
    put_text(&mut row, "strategy", strategy);
    put_text(&mut row, "base_freq", base_freq);
    put_text(&mut row, "description", description);
    put_text(&mut row, "author", author);
    put_text(&mut row, "outsample_sdt", outsample_sdt);
    put_string(&mut row, "create_time", create_time);
    put_text(&mut row, "update_time", now.as_str());
    put_text(&mut row, "heartbeat_time", now.as_str());
    match weight_type {
        Some(w) => put_text(&mut row, "weight_type", w),
        None => put_text(&mut row, "weight_type", "ts"),
    }
    match status {
        Some(st) => put_text(&mut row, "status", st),
        None => put_text(&mut row, "status", "实盘"),
    }
    match memo {
        Some(m) => put_text(&mut row, "memo", m),
        None => put_text(&mut row, "memo", ""),
    }
    assert(text_values(row@) =~= meta_row_map(
        strategy@,
        base_freq@,
        description@,
        author@,
        outsample_sdt@,
        text_or(weight_type, "ts"@),
        text_or(status, "实盘"@),
        text_or(memo, ""@),
        kept_create_time(opt_row(existing), fallback@),
        now@,
    ));
    row
}

/// The creation time that rewritten metadata keeps, by texts: the stored one, or
/// `fallback` when there is none.
pub open spec fn kept_create_text(existing: Option<Map<Seq<char>, Seq<char>>>, fallback: Seq<char>) -> Seq<char> {
    match existing {
        Some(m) => if m.contains_key("create_time"@) {
            m["create_time"@]
        } else {
            fallback
        },
        None => fallback,
    }
}

/// Whether `answer` is what writing a strategy's metadata can give: the lookup
/// (`meta_lookup`) fails, or finds metadata that is kept because `overwrite` is
/// off, or else the metadata row (`meta_row_map`, with the stored creation time
/// kept, or the current time, and the current time as update time) is inserted
/// alone into `<database>.metas` and the insert answers.
pub open spec fn meta_written<T: ClickHouseClient>(
    db: T,
    database: Seq<char>,
    strategy: Seq<char>,
    base_freq: Seq<char>,
    description: Seq<char>,
    author: Seq<char>,
    outsample_sdt: Seq<char>,
    weight_type: Seq<char>,
    status: Seq<char>,
    memo: Seq<char>,
    overwrite: bool,
    answer: Result<(), Seq<char>>,
) -> bool {
    exists|m: Result<Option<Map<Seq<char>, Seq<char>>>, Seq<char>>|
        #[trigger] meta_lookup(db, database, strategy, m) && match m {
            Err(e) => answer == Err::<(), Seq<char>>(e),
            Ok(existing) => if !overwrite && existing is Some {
                answer == Ok::<(), Seq<char>>(())
            } else {
                exists|fallback: Seq<char>, now: Seq<char>|
                    #[trigger] db.insert_answers(
                        database + ".metas"@,
                        seq![
                            meta_row_map(
                                strategy,
                                base_freq,
                                description,
                                author,
                                outsample_sdt,
                                weight_type,
                                status,
                                memo,
                                kept_create_text(existing, fallback),
                                now,
                            ),
                        ],
                        answer,
                    )
            },
        }
}

/// Writes a strategy's metadata (`meta_row`) into `<database>.metas`, unless
/// metadata is stored and `overwrite` is off; the creation time of stored
/// metadata is kept. A failure of the lookup or the write is returned
/// (`meta_written`).
pub fn set_meta<T: ClickHouseClient>(
    strategy: &str,
    base_freq: &str,
    description: &str,
    author: &str,
    outsample_sdt: &str,
    weight_type: Option<&str>,
    status: Option<&str>,
    memo: Option<&str>,
    overwrite: bool,
    database: &str,
    db: &T,
    tz: &chrono_tz::Tz,
) -> (r: Result<(), String>)
    ensures
        meta_written(
            *db,
            database@,
            strategy@,
            base_freq@,
            description@,
            author@,
            outsample_sdt@,
            text_or(weight_type, "ts"@),
            text_or(status, "实盘"@),
            text_or(memo, ""@),
            overwrite,
            unit_answer(r),
        ),
{
    let found = get_meta(strategy, db, database, tz);
    let ghost m = meta_answer(found);
    let existing = match found {
        Err(e) => {
            return Err(e);
        },
        Ok(existing) => existing,
    };
    if !overwrite && existing.is_some() {
        return Ok(());
    }
    let ghost kept = match m {
        Ok(x) => x,
        Err(_) => None,
    };
    let fallback = now_rfc3339();
    let now = now_rfc3339();
    let ghost fb = fallback@;
    let ghost nw = now@;
    proof {
        assert(kept_create_time(opt_row(existing), fb) == kept_create_text(kept, fb));
    }
    let row = meta_row(strategy, base_freq, description, author, outsample_sdt, weight_type, status, memo, existing, fallback, now);
    let data = vec![row];
    let table = table_of(database, ".metas");
    let r = db.insert_df(table.as_str(), &data);
    proof {
        assert(text_rows(data@) =~= seq![text_values(row@)]);
    }
    match r {
        Err(e) => Err(e),
        Ok(()) => Ok(()),
    }
}

/// Whether `answer` is what stamping a strategy's heartbeat can give: the lookup
/// (`meta_lookup`) fails, or finds no metadata and nothing more is done, or finds
/// metadata and the statement `heartbeat_sql` with the current time answers.
pub open spec fn heartbeat_sent<T: ClickHouseClient>(db: T, database: Seq<char>, strategy: Seq<char>, answer: Result<(), Seq<char>>) -> bool {
    exists|m: Result<Option<Map<Seq<char>, Seq<char>>>, Seq<char>>|
        #[trigger] meta_lookup(db, database, strategy, m) && match m {
            Err(e) => answer == Err::<(), Seq<char>>(e),
            Ok(None) => answer == Ok::<(), Seq<char>>(()),
            Ok(Some(_)) => exists|time: Seq<char>| #[trigger] db.command_answers(heartbeat_sql(database, time, strategy), None, answer),
        }
}

/// Stamps the strategy's heartbeat (`heartbeat_sql`, the current time) when it
/// has metadata; a failure of the lookup or the statement is returned
/// (`heartbeat_sent`).
fn send_heartbeat<T: ClickHouseClient>(db: &T, strategy: &str, database: &str, tz: &chrono_tz::Tz) -> (r: Result<(), String>)
    ensures
        heartbeat_sent(*db, database@, strategy@, unit_answer(r)),
{
    let found = get_meta(strategy, db, database, tz);
    let ghost m = meta_answer(found);
    let meta = match found {
        Err(e) => {
            return Err(e);
        },
        Ok(meta) => meta,
    };
    if meta.is_none() {
        return Ok(());
    }
    let time = now_text();
    let sql = heartbeat_statement(database, time.as_str(), strategy);
    let r = db.command(sql.as_str(), None);
    proof {
        assert(db.command_answers(heartbeat_sql(database@, time@, strategy@), None, unit_answer(r)));
    }
    match r {
        Err(e) => Err(e),
        Ok(()) => Ok(()),
    }
}

/// Whether a row of weights has the columns a weight needs.
pub open spec fn is_weight_row(m: Map<Seq<char>, String>) -> bool {
    m.contains_key("dt"@) && m.contains_key("symbol"@) && m.contains_key("weight"@)
}

/// `is_weight_row` as a predicate.
pub open spec fn weight_row_pred() -> spec_fn(Map<Seq<char>, String>) -> bool {
    |m: Map<Seq<char>, String>| is_weight_row(m)
}

/// Row `m2` is weight row `m` stamped with the strategy and an update time.
pub open spec fn stamped(m: Map<Seq<char>, String>, m2: Map<Seq<char>, String>, strategy: Seq<char>) -> bool {
    &&& m2.contains_key("update_time"@)
    &&& text_values(m2).remove("update_time"@) == text_values(m).insert("strategy"@, strategy).remove("update_time"@)
}

/// The rows of `df` that have a date, a symbol and a weight, in order, each
/// stamped with the strategy and the current time (RFC 3339) as update time.
pub fn weight_rows(df: Vec<StringHashMap<String>>, strategy: &str) -> (r: Vec<StringHashMap<String>>)
    ensures
        r@.len() == row_views(df@).filter(weight_row_pred()).len(),
        forall|k: int| 0 <= k < r@.len() ==> stamped(row_views(df@).filter(weight_row_pred())[k], #[trigger] r@[k]@, strategy@),
{
    let ghost orig = df@;
    let total = df.len();
    let mut rest = df;
    let mut out: Vec<StringHashMap<String>> = Vec::new();
    let mut i: usize = 0;
    proof {
        reveal(Seq::filter);
        assert(row_views(orig.take(0)) =~= Seq::<Map<Seq<char>, String>>::empty());
        assert(rest@ =~= orig.skip(0));
    }
    while rest.len() > 0
        invariant
            rest@ == orig.skip(i as int),
            total == orig.len(),
            i <= orig.len(),
            out@.len() == row_views(orig.take(i as int)).filter(weight_row_pred()).len(),
            forall|k: int| 0 <= k < out@.len() ==> stamped(row_views(orig.take(i as int)).filter(weight_row_pred())[k], #[trigger] out@[k]@, strategy@),
        decreases rest.len(),
    {
        let mut row = rest.remove(0);
        assert(row == orig[i as int]);
        let ghost before = row_views(orig.take(i as int)).filter(weight_row_pred());
        proof {
            assert(orig.take(i + 1) =~= orig.take(i as int).push(row));
            assert(row_views(orig.take(i + 1)) =~= row_views(orig.take(i as int)).push(row@));
            row_views(orig.take(i as int)).lemma_filter_push(row@, weight_row_pred());
        }
        if row.contains_key("dt") && row.contains_key("symbol") && row.contains_key("weight") {
            let ghost m = row@;
            put_text(&mut row, "strategy", strategy);
            let t = now_rfc3339();
            put_string(&mut row, "update_time", t);
            proof {
                assert(text_values(row@).remove("update_time"@) =~= text_values(m).insert("strategy"@, strategy@).remove("update_time"@));
                assert(text_values(row@).contains_key("update_time"@));
                assert(row@.contains_key("update_time"@));
            }
            let ghost out0 = out@;
            let ghost r = row@;
            out.push(row);
            proof {
                assert(row_views(orig.take(i + 1)).filter(weight_row_pred()) == before.push(m));
                assert forall|k: int| 0 <= k < out@.len() implies stamped(before.push(m)[k], #[trigger] out@[k]@, strategy@) by {
                    if k < before.len() {
                        assert(before.push(m)[k] == before[k]);
                        assert(out@[k] == out0[k]);
                        assert(stamped(before[k], out0[k]@, strategy@));
                    } else {
                        assert(k == before.len());
                        assert(out@[k]@ == r);
                        assert(before.push(m)[k] == m);
                        assert(r.contains_key("update_time"@));
                        assert(stamped(m, r, strategy@));
                    }
                }
            }
        }
        i = i + 1;
        proof {
            assert(rest@ =~= orig.skip(i as int));
        }
    }
    proof {
        assert(orig.take(i as int) =~= orig);
    }
    out
}

/// Whether `rows` are the weight rows of `df` as they are published: the rows
/// that have a date, a symbol and a weight, each stamped with the strategy and an
/// update time (`stamped`), then sorted by date with rows of equal dates in their
/// order.
pub open spec fn weights_prepared(df: Seq<Map<Seq<char>, String>>, strategy: Seq<char>, rows: Seq<Map<Seq<char>, String>>) -> bool {
    exists|prepared: Seq<Map<Seq<char>, String>>|
        {
            &&& #[trigger] prepared.len() == df.filter(weight_row_pred()).len()
            &&& forall|k: int| 0 <= k < prepared.len() ==> stamped(df.filter(weight_row_pred())[k], #[trigger] prepared[k], strategy)
            &&& rows.len() == prepared.len()
            &&& sorted_by(rows, "dt"@, None)
            &&& forall|key: (Seq<char>, Seq<char>)| #[trigger] rows.filter(key_is("dt"@, None, key)) == prepared.filter(key_is("dt"@, None, key))
        }
}

/// The texts of rows.
pub open spec fn row_texts(rows: Seq<Map<Seq<char>, String>>) -> Seq<Map<Seq<char>, Seq<char>>> {
    rows.map_values(|m: Map<Seq<char>, String>| text_values(m))
}

/// The length of the first batch of `len` rows in batches of `size`.
pub open spec fn batch_len(len: nat, size: nat) -> nat {
    if len < size {
        len
    } else {
        size
    }
}

/// Whether `answer` is what inserting `rows` into `table` in batches of `size`
/// rows, in order, with a heartbeat (`heartbeat_sent`) after each batch, can
/// give; the first failure ends it.
pub open spec fn batches_published<T: ClickHouseClient>(
    db: T,
    database: Seq<char>,
    strategy: Seq<char>,
    table: Seq<char>,
    rows: Seq<Map<Seq<char>, Seq<char>>>,
    size: nat,
    answer: Result<(), Seq<char>>,
) -> bool
    decreases rows.len(),
{
    if rows.len() == 0 || size == 0 {
        answer == Ok::<(), Seq<char>>(())
    } else {
        let n = batch_len(rows.len(), size);
        let rest = rows.skip(n as int);
        exists|ins: Result<(), Seq<char>>|
            #[trigger] db.insert_answers(table, rows.take(n as int), ins) && match ins {
                Err(e) => answer == Err::<(), Seq<char>>(e),
                Ok(()) => exists|hb: Result<(), Seq<char>>|
                    #[trigger] heartbeat_sent(db, database, strategy, hb) && match hb {
                        Err(e) => answer == Err::<(), Seq<char>>(e),
                        Ok(()) => batches_published(db, database, strategy, table, rest, size, answer),
                    },
            }
    }
}

/// Publishes weights: a heartbeat, then the rows that have a date, a symbol and
/// a weight (`weight_rows`), sorted by date with equal dates in their order
/// (`sort_rows`), are inserted into `<database>.weights` in batches of
/// `batch_size`, a heartbeat after each (`batches_published`). The first failure
/// is returned. The rows are taken by value.
pub fn publish_weights<T: ClickHouseClient>(
    strategy: &str,
    df: Vec<StringHashMap<String>>,
    batch_size: usize,
    db: &T,
    database: &str,
    tz: &chrono_tz::Tz,
) -> (r: Result<(), String>)
    requires
        batch_size > 0,
    ensures
        exists|hb: Result<(), Seq<char>>|
            #[trigger] heartbeat_sent(*db, database@, strategy@, hb) && match hb {
                Err(e) => unit_answer(r) == Err::<(), Seq<char>>(e),
                Ok(()) => exists|rows: Seq<Map<Seq<char>, String>>|
                    #[trigger] weights_prepared(row_views(df@), strategy@, rows) && batches_published(
                        *db,
                        database@,
                        strategy@,
                        database@ + ".weights"@,
                        row_texts(rows),
                        batch_size as nat,
                        unit_answer(r),
                    ),
            },
{
    let ghost dfv = row_views(df@);
    let h = send_heartbeat(db, strategy, database, tz);
    match h {
        Err(e) => {
            return Err(e);
        },
        Ok(()) => {},
    }
    let prepared = weight_rows(df, strategy);
    let mut rest = sort_rows(prepared, "dt", None);
    let ghost sorted = row_views(rest@);
    proof {
        assert(weights_prepared(dfv, strategy@, sorted) ) by {
            let pv = row_views(prepared@);
            assert(pv.len() == dfv.filter(weight_row_pred()).len());
            assert(forall|k: int| 0 <= k < pv.len() ==> stamped(dfv.filter(weight_row_pred())[k], #[trigger] pv[k], strategy@));
        }
    }
    let ghost all = text_rows(rest@);
    proof {
        assert(all =~= row_texts(sorted));
    }
    let table = table_of(database, ".weights");
    while rest.len() > 0
        invariant
            batch_size > 0,
            table@ == database@ + ".weights"@,
            heartbeat_sent(*db, database@, strategy@, Ok(())),
            weights_prepared(dfv, strategy@, sorted),
            all == row_texts(sorted),
            dfv == row_views(df@),
            forall|a: Result<(), Seq<char>>|
                #[trigger] batches_published(*db, database@, strategy@, table@, text_rows(rest@), batch_size as nat, a)
                    ==> batches_published(*db, database@, strategy@, table@, all, batch_size as nat, a),
        decreases rest.len(),
    {
        let ghost rest0 = rest@;
        let ghost n0 = rest@.len();
        let mut chunk: Vec<StringHashMap<String>> = Vec::new();
        while chunk.len() < batch_size && rest.len() > 0
            invariant
                batch_size > 0,
                n0 > 0,
                chunk@ + rest@ == rest0,
                rest0.len() == n0,
                chunk@.len() <= batch_size,
            decreases rest.len(),
        {
            let ghost c0 = chunk@;
            let row = rest.remove(0);
            chunk.push(row);
            proof {
                assert(chunk@ + rest@ =~= rest0);
            }
        }
        let ghost n = batch_len(n0, batch_size as nat);
        proof {
            assert(chunk@.len() == n);
            assert(chunk@ =~= rest0.take(n as int));
            assert(rest@ =~= rest0.skip(n as int));
            assert(text_rows(rest0).take(n as int) =~= text_rows(chunk@));
            assert(text_rows(rest0).skip(n as int) =~= text_rows(rest@));
        }
        let ins = db.insert_df(table.as_str(), &chunk);
        match ins {
            Err(e) => {
                proof {
                    let t0 = text_rows(rest0);
                    assert(db.insert_answers(table@, t0.take(n as int), Err(e@)));
                    assert(batches_published(*db, database@, strategy@, table@, t0, batch_size as nat, Err(e@)));
                    assert(batches_published(*db, database@, strategy@, table@, all, batch_size as nat, Err(e@)));
                    assert(heartbeat_sent(*db, database@, strategy@, Ok(())));
                }
                return Err(e);
            },
            Ok(()) => {},
        }
        let hb = send_heartbeat(db, strategy, database, tz);
        match hb {
            Err(e) => {
                proof {
                    let t0 = text_rows(rest0);
                    assert(db.insert_answers(table@, t0.take(n as int), Ok(())));
                    assert(heartbeat_sent(*db, database@, strategy@, Err(e@)));
                    assert(batches_published(*db, database@, strategy@, table@, t0, batch_size as nat, Err(e@)));
                    assert(batches_published(*db, database@, strategy@, table@, all, batch_size as nat, Err(e@)));
                    assert(heartbeat_sent(*db, database@, strategy@, Ok(())));
                }
                return Err(e);
            },
            Ok(()) => {},
        }
        proof {
            let t0 = text_rows(rest0);
            assert(db.insert_answers(table@, t0.take(n as int), Ok(())));
            assert(heartbeat_sent(*db, database@, strategy@, Ok(())));
            assert forall|a: Result<(), Seq<char>>|
                #[trigger] batches_published(*db, database@, strategy@, table@, text_rows(rest@), batch_size as nat, a)
                    implies batches_published(*db, database@, strategy@, table@, all, batch_size as nat, a) by {
                assert(batches_published(*db, database@, strategy@, table@, t0, batch_size as nat, a));
            }
        }
    }
    proof {
        assert(text_rows(rest@).len() == 0);
        assert(batches_published(*db, database@, strategy@, table@, text_rows(rest@), batch_size as nat, Ok(())));
        assert(batches_published(*db, database@, strategy@, table@, all, batch_size as nat, Ok(())));
        assert(heartbeat_sent(*db, database@, strategy@, Ok(())));
    }
    Ok(())
}

/// Whether a status is one a strategy can take: 实盘 (live) or 废弃 (retired).
pub open spec fn is_valid_status(status: Seq<char>) -> bool {
    status == "实盘"@ || status == "废弃"@
}

/// The message for a status that is not one a strategy can take.
pub open spec fn invalid_status_message(status: Seq<char>) -> Seq<char> {
    "无效的策略状态: "@ + status + "，有效状态为: [\"实盘\", \"废弃\"]"@
}

/// Whether `answer` is what setting a strategy's status can give: the lookup
/// (`meta_lookup`) fails, or finds no metadata and nothing more is done, or finds
/// metadata and the statement `status_sql` with the current time answers.
pub open spec fn status_set<T: ClickHouseClient>(
    db: T,
    database: Seq<char>,
    strategy: Seq<char>,
    status: Seq<char>,
    answer: Result<(), Seq<char>>,
) -> bool {
    exists|m: Result<Option<Map<Seq<char>, Seq<char>>>, Seq<char>>|
        #[trigger] meta_lookup(db, database, strategy, m) && match m {
            Err(e) => answer == Err::<(), Seq<char>>(e),
            Ok(None) => answer == Ok::<(), Seq<char>>(()),
            Ok(Some(_)) => exists|time: Seq<char>| #[trigger] db.command_answers(status_sql(database, status, time, strategy), None, answer),
        }
}

/// Sets the status of a strategy that has metadata (`status_sql`, stamped with
/// the current time). A status other than 实盘 and 废弃 is refused with
/// `invalid_status_message` before anything is asked of the database; otherwise a
/// failure of the lookup or the statement is returned (`status_set`).
pub fn update_strategy_status<T: ClickHouseClient>(strategy: &str, status: &str, db: &T, database: &str, tz: &chrono_tz::Tz) -> (r:
    Result<(), String>)
    ensures
        !is_valid_status(status@) ==> (r matches Err(e) && e@ == invalid_status_message(status@)),
        is_valid_status(status@) ==> status_set(*db, database@, strategy@, status@, unit_answer(r)),
{
    if !(str_eq(status, "实盘") || str_eq(status, "废弃")) {
        let mut msg = owned("无效的策略状态: ");
        push_str(&mut msg, status);
        push_str(&mut msg, "，有效状态为: [\"实盘\", \"废弃\"]");
        proof {
            reveal_strlit("无效的策略状态: ");
        }
        assert(msg@ =~= invalid_status_message(status@));
        return Err(msg);
    }
    let found = get_meta(strategy, db, database, tz);
    let ghost m = meta_answer(found);
    let meta = match found {
        Err(e) => {
            return Err(e);
        },
        Ok(meta) => meta,
    };
    if meta.is_none() {
        return Ok(());
    }
    let time = now_text();
    let sql = status_statement(database, status, time.as_str(), strategy);
    let r = db.command(sql.as_str(), None);
    proof {
        assert(db.command_answers(status_sql(database@, status@, time@, strategy@), None, unit_answer(r)));
    }
    match r {
        Err(e) => Err(e),
        Ok(()) => Ok(()),
    }
}

} // verus!
