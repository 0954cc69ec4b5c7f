use network_device_logger::order::order_by_last_seen;
use network_device_logger::record::AddrRecord;
use network_device_logger::store::{
    probe_outcome, records_from_rows, row_values, rows_in_order, seed_outcome, seed_plan, Database, SeedPlan, StoreError,
};
use network_device_logger::timestamp::Timestamp;

const SCHEMA: &str = "CREATE TABLE addrs (ip TEXT PRIMARY KEY, mac TEXT NOT NULL, last_seen TEXT NOT NULL);";

fn ts(day: u32, hour: u32, second: u32, nanosecond: u32) -> Timestamp {
    Timestamp { year: 2024, month: 6, day, hour, minute: 0, second, nanosecond }
}

fn rec(ip: &str, mac: &str, last_seen: Timestamp) -> AddrRecord {
    AddrRecord { ip: ip.to_string(), mac: mac.to_string(), last_seen }
}

fn memory_db() -> Database {
    Database::new(":memory:", Some(SCHEMA)).unwrap()
}

fn listing(db: &Database) -> Vec<(String, String, Timestamp)> {
    db.get_all_records().unwrap().into_iter().map(|r| (r.ip, r.mac, r.last_seen)).collect()
}

#[test]
fn two_cycles_replace_mac_for_same_ip() {
    let db = memory_db();
    let t1 = ts(1, 10, 0, 0);
    for r in [rec("1.2.3.4", "AA:AA", t1), rec("5.6.7.8", "BB:BB", t1)] {
        db.insert(r).unwrap();
    }
    assert_eq!(listing(&db).len(), 2);
    let t2 = ts(1, 10, 30, 0);
    db.insert(rec("1.2.3.4", "CC:CC", t2)).unwrap();
    let all = listing(&db);
    assert_eq!(all.len(), 2);
    assert_eq!(all[0], ("1.2.3.4".to_string(), "CC:CC".to_string(), t2));
    assert!(all.iter().all(|r| r.1 != "AA:AA"));
}

#[test]
fn upsert_twice_same_as_once() {
    let db = memory_db();
    let r = rec("9.9.9.9", "99:99", ts(3, 4, 5, 6));
    db.insert(r.clone()).unwrap();
    let once = listing(&db);
    db.insert(r).unwrap();
    assert_eq!(listing(&db), once);
    assert_eq!(once.len(), 1);
}

#[test]
fn stored_timestamp_is_truncated_to_seconds() {
    let db = memory_db();
    let t = ts(2, 13, 45, 987_654_321);
    db.insert(rec("10.1.1.1", "AB:CD", t)).unwrap();
    let all = listing(&db);
    assert_eq!(all[0].2, t.truncated());
    assert_eq!(all[0].2.second, 45);
    assert_eq!(all[0].2.nanosecond, 0);
}

#[test]
fn listing_is_most_recent_first() {
    let db = memory_db();
    db.insert(rec("1.0.0.2", "02", ts(5, 1, 0, 0))).unwrap();
    db.insert(rec("1.0.0.1", "01", ts(4, 1, 0, 0))).unwrap();
    db.insert(rec("1.0.0.3", "03", ts(6, 1, 0, 0))).unwrap();
    let ips: Vec<String> = listing(&db).into_iter().map(|r| r.0).collect();
    assert_eq!(ips, vec!["1.0.0.3", "1.0.0.2", "1.0.0.1"]);
}

#[test]
fn ordering_keeps_ties_in_place() {
    let t = ts(1, 1, 1, 0);
    let out = order_by_last_seen(vec![
        rec("a", "1", t),
        rec("b", "2", ts(1, 2, 0, 0)),
        rec("c", "3", t),
    ]);
    let ips: Vec<&str> = out.iter().map(|r| r.ip.as_str()).collect();
    assert_eq!(ips, vec!["b", "a", "c"]);
}

#[test]
fn reopening_seeded_store_keeps_data() {
    let path = "/tmp/network_device_logger_reopen.sqlite3";
    let first = Database::new(path, Some(SCHEMA)).unwrap();
    first.clear_all().unwrap();
    first.insert(rec("7.7.7.7", "77:77", ts(7, 7, 7, 0))).unwrap();
    drop(first);
    let again = Database::new(path, Some(SCHEMA)).unwrap();
    assert!(again.is_seeded().unwrap());
    assert_eq!(listing(&again).len(), 1);
    let without_seed = Database::new(path, None).unwrap();
    assert_eq!(listing(&without_seed)[0].0, "7.7.7.7");
    without_seed.clear_all().unwrap();
    assert!(listing(&without_seed).is_empty());
}

#[test]
fn seed_plan_decisions() {
    assert_eq!(seed_plan(true, true), SeedPlan::Ready);
    assert_eq!(seed_plan(true, false), SeedPlan::Ready);
    assert_eq!(seed_plan(false, true), SeedPlan::Apply);
    assert_eq!(seed_plan(false, false), SeedPlan::Unavailable);
}

#[test]
fn seeding_errors() {
    assert!(matches!(Database::new(":memory:", None), Err(StoreError::SeedUnavailable)));
    assert!(matches!(
        Database::new(":memory:", Some("CREATE TABLE other (x TEXT);")),
        Err(StoreError::SeedIneffective)
    ));
    assert!(matches!(Database::new(":memory:", Some("THIS IS NOT SQL")), Err(StoreError::SeedFailed(_))));
    assert!(matches!(Database::new("/nonexistent-dir/x/y.sqlite3", Some(SCHEMA)), Err(StoreError::Open(_))));
}

#[test]
fn unstorable_timestamp_is_refused() {
    let db = memory_db();
    let far = Timestamp { year: 10000, month: 1, day: 1, hour: 0, minute: 0, second: 0, nanosecond: 0 };
    assert!(matches!(db.insert(rec("1.1.1.1", "x", far)), Err(StoreError::UnstorableTimestamp)));
    let invalid = Timestamp { year: 2024, month: 2, day: 31, hour: 0, minute: 0, second: 0, nanosecond: 0 };
    assert!(row_values(&rec("1.1.1.1", "x", invalid)).is_none());
    let failures = db.persist_all(&vec![rec("2.2.2.2", "y", ts(1, 1, 1, 0)), rec("1.1.1.1", "x", far)]);
    assert_eq!(failures.len(), 1);
    assert_eq!(failures[0].0, 1);
    assert_eq!(listing(&db).len(), 1);
}

#[test]
fn row_values_layout() {
    let v = row_values(&rec("1.2.3.4", "AA:AA", ts(9, 8, 7, 6))).unwrap();
    assert_eq!(v, vec!["1.2.3.4", "AA:AA", "2024-06-09 08:00:07"]);
}

#[test]
fn rows_with_bad_timestamp_are_reported() {
    let rows = vec![
        ("1".to_string(), "a".to_string(), "2024-01-01 00:00:00".to_string()),
        ("2".to_string(), "b".to_string(), "yesterday".to_string()),
    ];
    assert!(matches!(records_from_rows(rows), Err(1)));
    let good = vec![("1".to_string(), "a".to_string(), "2024-01-01 00:00:01".to_string())];
    let recs = records_from_rows(good).unwrap();
    assert_eq!(recs[0].last_seen.second, 1);
}

#[test]
fn probe_and_seed_outcomes() {
    assert!(matches!(probe_outcome(Ok(1)), Ok(true)));
    assert!(matches!(probe_outcome(Ok(0)), Ok(false)));
    assert!(matches!(probe_outcome(Err("locked".to_string())), Err(StoreError::Probe(m)) if m == "locked"));
    assert!(matches!(seed_outcome(Ok(true)), Ok(())));
    assert!(matches!(seed_outcome(Ok(false)), Err(StoreError::SeedIneffective)));
    assert!(matches!(seed_outcome(Err(StoreError::Probe("x".to_string()))), Err(StoreError::Probe(_))));
}

#[test]
fn rows_in_any_order_come_out_most_recent_first() {
    let row = |ip: &str, t: &str| (ip.to_string(), "m".to_string(), t.to_string());
    let t1 = "2024-01-01 00:00:01";
    let t2 = "2024-01-01 00:00:02";
    let t3 = "2024-01-02 00:00:00";
    for rows in [
        vec![row("a", t1), row("b", t2), row("c", t3)],
        vec![row("c", t3), row("a", t1), row("b", t2)],
        vec![row("b", t2), row("c", t3), row("a", t1)],
        vec![row("c", t3), row("b", t2), row("a", t1)],
    ] {
        let ips: Vec<String> = rows_in_order(rows).unwrap().into_iter().map(|r| r.ip).collect();
        assert_eq!(ips, vec!["c", "b", "a"]);
    }
    assert!(matches!(rows_in_order(vec![row("a", t1), row("b", "bad")]), Err(1)));
}
