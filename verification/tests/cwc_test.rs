use rs_czsc::traders::cwc::{
    get_meta, heartbeat_statement, meta_from_rows, meta_query_statement, meta_row, publish_weights, set_meta, status_statement,
    update_strategy_status, weight_rows, create_database_statement, ensure_timestamp, first_reading, format_for_db, init_tables, initialize, is_blank,
    latest_view_statement, ClickHouseClient,
};
use rs_czsc::StringHashMap;
use std::cell::RefCell;

struct MockClickHouseClient {
    log: RefCell<Vec<String>>,
    fail_on: Option<usize>,
}

impl ClickHouseClient for MockClickHouseClient {
    fn command(&self, sql: &str, _params: Option<&StringHashMap<String>>) -> Result<(), String> {
        let n = self.log.borrow().len();
        self.log.borrow_mut().push(sql.to_string());
        if Some(n) == self.fail_on {
            Err("boom".to_string())
        } else {
            Ok(())
        }
    }

    fn query_df(&self, _sql: &str, _params: Option<&StringHashMap<String>>) -> Result<Vec<StringHashMap<String>>, String> {
        Ok(vec![])
    }

    fn insert_df(&self, _table: &str, _data: &Vec<StringHashMap<String>>) -> Result<(), String> {
        Ok(())
    }
}

#[test]
fn test_init_tables() {
    let client = MockClickHouseClient { log: RefCell::new(vec![]), fail_on: None };
    let kwargs = StringHashMap::new();
    let result = init_tables(&client, "test_db", &kwargs);
    assert!(result.is_ok());
    let log = client.log.borrow();
    assert_eq!(log.len(), 4);
    assert_eq!(log[0], "CREATE DATABASE IF NOT EXISTS test_db");
    assert!(log[1].starts_with("CREATE TABLE IF NOT EXISTS test_db.metas ("));
    assert!(log[3].contains("test_db.returns"));
}

#[test]
fn initialize_stops_at_the_first_failure() {
    let client = MockClickHouseClient { log: RefCell::new(vec![]), fail_on: Some(2) };
    let r = initialize(&client, "db", &StringHashMap::new());
    assert_eq!(r, Err("boom".to_string()));
    assert_eq!(client.log.borrow().len(), 3);
    let ok = MockClickHouseClient { log: RefCell::new(vec![]), fail_on: None };
    assert!(initialize(&ok, "db", &StringHashMap::new()).is_ok());
    assert_eq!(ok.log.borrow().len(), 7);
    assert_eq!(ok.log.borrow()[6], latest_view_statement("db"));
}

#[test]
fn test_format_for_db() {
    let formatted = format_for_db(Some("2023-01-01 12:00:00"), "Asia/Shanghai");
    assert!(formatted.is_some());
}

#[test]
fn db_times_are_utc_text() {
    assert_eq!(format_for_db(Some("2023-01-01T12:00:00+08:00"), ""), Some("2023-01-01 04:00:00".to_string()));
    assert_eq!(format_for_db(Some("2023-01-01"), ""), Some("2023-01-01 00:00:00".to_string()));
    assert_eq!(format_for_db(Some("2023-01-01 12:00:00"), ""), Some("2023-01-01 12:00:00".to_string()));
    assert_eq!(format_for_db(Some("  \t"), ""), None);
    assert_eq!(format_for_db(Some("not a time"), ""), None);
    assert_eq!(format_for_db(None, ""), None);
    assert_eq!(ensure_timestamp(Some("1970-01-02"), ""), Some((86400, 0)));
}

#[test]
fn readings_and_blanks() {
    assert_eq!(first_reading(None, Some((5, 0)), Some((6, 0))), Some((5, 0)));
    assert_eq!(first_reading(Some((1, 2)), Some((5, 0)), None), Some((1, 2)));
    assert_eq!(first_reading(None, None, None), None);
    assert!(is_blank(""));
    assert!(is_blank(" \u{3000}\n"));
    assert!(!is_blank(" x "));
    assert_eq!(create_database_statement("q"), "CREATE DATABASE IF NOT EXISTS q");
}

struct MetaClient {
    meta: Vec<Vec<(&'static str, &'static str)>>,
    log: RefCell<Vec<String>>,
    inserted: RefCell<Vec<(String, Vec<Vec<(String, String)>>)>>,
}

fn row(pairs: &[(&str, &str)]) -> StringHashMap<String> {
    let mut m = StringHashMap::new();
    for (k, v) in pairs {
        m.insert(k.to_string(), v.to_string());
    }
    m
}

impl ClickHouseClient for MetaClient {
    fn command(&self, sql: &str, _params: Option<&StringHashMap<String>>) -> Result<(), String> {
        self.log.borrow_mut().push(sql.to_string());
        Ok(())
    }

    fn query_df(&self, sql: &str, params: Option<&StringHashMap<String>>) -> Result<Vec<StringHashMap<String>>, String> {
        self.log.borrow_mut().push(format!("{} [{}]", sql, params.unwrap().get("strategy").unwrap()));
        Ok(self.meta.iter().map(|r| row(r)).collect())
    }

    fn insert_df(&self, table: &str, data: &Vec<StringHashMap<String>>) -> Result<(), String> {
        let cols = ["strategy", "dt", "symbol", "weight", "create_time", "author", "status", "memo", "weight_type"];
        let rows = data
            .iter()
            .map(|m| cols.iter().filter_map(|c| m.get(c).map(|v| (c.to_string(), v.clone()))).collect())
            .collect();
        self.inserted.borrow_mut().push((table.to_string(), rows));
        Ok(())
    }
}

fn meta_client(meta: Vec<Vec<(&'static str, &'static str)>>) -> MetaClient {
    MetaClient { meta, log: RefCell::new(vec![]), inserted: RefCell::new(vec![]) }
}

#[test]
fn metadata_is_read_from_one_row() {
    let tz = chrono_tz::Asia::Shanghai;
    assert_eq!(meta_query_statement("db"), "SELECT * FROM db.metas final WHERE strategy = %(strategy)s");
    let none = meta_client(vec![]);
    assert!(get_meta("s", &none, "db", &tz).unwrap().is_none());
    assert_eq!(none.log.borrow()[0], "SELECT * FROM db.metas final WHERE strategy = %(strategy)s [s]");
    let one = meta_client(vec![vec![("author", "me")]]);
    assert_eq!(get_meta("s", &one, "db", &tz).unwrap().unwrap().get("author"), Some(&"me".to_string()));
    let two = meta_client(vec![vec![], vec![]]);
    assert_eq!(get_meta("s", &two, "db", &tz).err(), Some("策略 {} 存在多条元数据，请检查".to_string()));
    assert_eq!(meta_from_rows(Err("x".to_string())).err(), Some("x".to_string()));
}

#[test]
fn metadata_rows_keep_the_creation_time() {
    let tz = chrono_tz::Asia::Shanghai;
    let fresh = meta_client(vec![]);
    set_meta("s", "日线", "d", "me", "20230101", None, None, None, false, "db", &fresh, &tz).unwrap();
    let ins = fresh.inserted.borrow();
    assert_eq!(ins[0].0, "db.metas");
    let r = &ins[0].1[0];
    assert!(r.contains(&("weight_type".to_string(), "ts".to_string())));
    assert!(r.contains(&("status".to_string(), "实盘".to_string())));
    assert!(r.contains(&("memo".to_string(), "".to_string())));
    let stored = meta_client(vec![vec![("create_time", "old")]]);
    set_meta("s", "日线", "d", "me", "20230101", None, None, None, false, "db", &stored, &tz).unwrap();
    assert!(stored.inserted.borrow().is_empty());
    set_meta("s", "日线", "d", "me", "20230101", Some("cs"), None, Some("m"), true, "db", &stored, &tz).unwrap();
    let r = &stored.inserted.borrow()[0].1[0];
    assert!(r.contains(&("create_time".to_string(), "old".to_string())));
    assert!(r.contains(&("weight_type".to_string(), "cs".to_string())));
    let m = meta_row("s", "f", "d", "a", "o", None, Some("废弃"), None, None, "t0".to_string(), "t1".to_string());
    assert_eq!(m.get("create_time"), Some(&"t0".to_string()));
    assert_eq!(m.get("heartbeat_time"), Some(&"t1".to_string()));
    assert_eq!(m.get("status"), Some(&"废弃".to_string()));
    assert_eq!(m.len(), 11);
}

#[test]
fn weights_are_published_in_date_order_and_batches() {
    let tz = chrono_tz::Asia::Shanghai;
    let c = meta_client(vec![vec![("strategy", "s")]]);
    let df = vec![
        row(&[("dt", "2023-01-02"), ("symbol", "A"), ("weight", "1")]),
        row(&[("dt", "2023-01-01"), ("symbol", "B"), ("weight", "2")]),
        row(&[("dt", "2023-01-01"), ("symbol", "C")]),
        row(&[("dt", "2023-01-01"), ("symbol", "D"), ("weight", "3")]),
    ];
    publish_weights("s", df, 2, &c, "db", &tz).unwrap();
    let ins = c.inserted.borrow();
    assert_eq!(ins.len(), 2);
    assert_eq!(ins[0].0, "db.weights");
    let syms: Vec<String> = ins.iter().flat_map(|(_, rows)| rows.iter()).map(|r| r.iter().find(|(k, _)| k == "symbol").unwrap().1.clone()).collect();
    assert_eq!(syms, vec!["B", "D", "A"]);
    assert!(ins[0].1[0].contains(&("strategy".to_string(), "s".to_string())));
    let beats = c.log.borrow().iter().filter(|s| s.contains("heartbeat_time")).count();
    assert_eq!(beats, 3);
    let rows = weight_rows(vec![row(&[("dt", "x"), ("symbol", "y"), ("weight", "z")]), row(&[])], "s");
    assert_eq!(rows.len(), 1);
    assert!(rows[0].get("update_time").is_some());
}

#[test]
fn status_updates_check_the_status() {
    let tz = chrono_tz::Asia::Shanghai;
    let c = meta_client(vec![vec![("strategy", "s")]]);
    assert_eq!(
        update_strategy_status("s", "暂停", &c, "db", &tz),
        Err("无效的策略状态: 暂停，有效状态为: [\"实盘\", \"废弃\"]".to_string())
    );
    assert!(c.log.borrow().is_empty());
    update_strategy_status("s", "废弃", &c, "db", &tz).unwrap();
    assert!(c.log.borrow()[1].starts_with("ALTER TABLE db.metas UPDATE status = '废弃', update_time = '"));
    assert_eq!(status_statement("db", "实盘", "t", "s"), "ALTER TABLE db.metas UPDATE status = '实盘', update_time = 't' WHERE strategy = 's'");
    assert_eq!(heartbeat_statement("db", "t", "s"), "ALTER TABLE db.metas UPDATE heartbeat_time = 't' WHERE strategy = 's'");
    let none = meta_client(vec![]);
    update_strategy_status("s", "实盘", &none, "db", &tz).unwrap();
    assert_eq!(none.log.borrow().len(), 1);
}

struct FailingClient {
    query_fails: bool,
    inserts: RefCell<usize>,
}

impl ClickHouseClient for FailingClient {
    fn command(&self, _sql: &str, _params: Option<&StringHashMap<String>>) -> Result<(), String> {
        Ok(())
    }

    fn query_df(&self, _sql: &str, _params: Option<&StringHashMap<String>>) -> Result<Vec<StringHashMap<String>>, String> {
        if self.query_fails {
            Err("down".to_string())
        } else {
            Ok(vec![row(&[("strategy", "s")])])
        }
    }

    fn insert_df(&self, _table: &str, _data: &Vec<StringHashMap<String>>) -> Result<(), String> {
        *self.inserts.borrow_mut() += 1;
        Err("full".to_string())
    }
}

#[test]
fn failures_of_the_connection_are_returned() {
    let tz = chrono_tz::Asia::Shanghai;
    let down = FailingClient { query_fails: true, inserts: RefCell::new(0) };
    assert_eq!(set_meta("s", "f", "d", "a", "o", None, None, None, true, "db", &down, &tz), Err("down".to_string()));
    assert_eq!(publish_weights("s", vec![], 2, &down, "db", &tz), Err("down".to_string()));
    assert_eq!(*down.inserts.borrow(), 0);
    let full = FailingClient { query_fails: false, inserts: RefCell::new(0) };
    let df = vec![
        row(&[("dt", "1"), ("symbol", "A"), ("weight", "1")]),
        row(&[("dt", "2"), ("symbol", "B"), ("weight", "1")]),
        row(&[("dt", "3"), ("symbol", "C"), ("weight", "1")]),
    ];
    assert_eq!(publish_weights("s", df, 2, &full, "db", &tz), Err("full".to_string()));
    assert_eq!(*full.inserts.borrow(), 1);
    assert_eq!(set_meta("s", "f", "d", "a", "o", None, None, None, true, "db", &full, &tz), Err("full".to_string()));
}
