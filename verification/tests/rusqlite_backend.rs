use litewire::backend::rusqlite_backend::{
    classify_target, coerce_text, execute_result, extract_value, fingerprint_sql, regexp,
    regexp_match, regexp_pattern, temp_db_name, worker_gone, IdlePool, RawValue, ResetAction,
    ResetEvent, ReuseStats, RusqliteBuilder, Synchronous, Target,
};
use litewire::backend::write_admission::Timeout;
use litewire::backend::{BackendError, Double, Value};
use rusqlite::Connection;

fn double(f: f64) -> Double {
    Double { bits: f.to_bits(), text: f.to_string(), whole: f as i64 }
}

fn text(s: &str) -> RawValue {
    RawValue::Text(s.as_bytes().to_vec())
}

fn pool(max_idle: usize, secs: u64) -> IdlePool<&'static str> {
    IdlePool::new(max_idle, Timeout { secs, nanos: 0 }, 386)
}

fn fingerprint(conn: &Connection) -> Option<i64> {
    conn.prepare(&fingerprint_sql()).ok()?.query_row([], |r| r.get(0)).ok()
}

fn text_that_is_not_utf8_is_a_blob() {
    assert_eq!(extract_value(text("hello")), Value::Text("hello".into()));
    assert_eq!(
        extract_value(RawValue::Text(vec![0xFF, 0x41])),
        Value::Blob(vec![0xFF, 0x41])
    );
    assert_eq!(extract_value(RawValue::Null), Value::Null);
    assert_eq!(extract_value(RawValue::Integer(-3)), Value::Integer(-3));
    assert_eq!(extract_value(RawValue::Real(double(2.5))), Value::Float(double(2.5)));
    assert_eq!(extract_value(RawValue::Blob(vec![0x41])), Value::Blob(vec![0x41]));
}

fn zero_row_id_is_none() {
    assert_eq!(execute_result(3, 0).last_insert_rowid, None);
    assert_eq!(execute_result(3, 9).last_insert_rowid, Some(9));
    assert_eq!(execute_result(3, -9).last_insert_rowid, Some(-9));
    assert_eq!(execute_result(3, 9).affected_rows, 3);
}

fn regexp_matches_anywhere_and_minds_case() {
    let hit = |p: &str, h: &str| regexp(&text(p), &text(h)).unwrap();
    assert_eq!(hit("^rss_[0-9]+$", "rss_12"), Some(true));
    assert_eq!(hit("^rss_[0-9]+$", "xrss_12"), Some(false));
    assert_eq!(hit("b", "abc"), Some(true));
    assert_eq!(hit("B", "abc"), Some(false));
}

fn regexp_of_null_is_null() {
    assert_eq!(regexp(&RawValue::Null, &text("x")).unwrap(), None);
    assert_eq!(regexp(&text("x"), &RawValue::Null).unwrap(), None);
    assert_eq!(regexp(&text("("), &RawValue::Null).unwrap(), None);
}

fn regexp_reads_numbers_as_text() {
    assert_eq!(regexp(&text("^-4$"), &RawValue::Integer(-4)).unwrap(), Some(true));
    assert_eq!(regexp(&RawValue::Integer(4), &text("x4y")).unwrap(), Some(true));
    assert_eq!(regexp(&text("^2.5$"), &RawValue::Real(double(2.5))).unwrap(), Some(true));
    assert_eq!(coerce_text(&RawValue::Blob(vec![0x41, 0xFF])), Some("A\u{FFFD}".to_string()));
    assert_eq!(coerce_text(&RawValue::Null), None);
}

fn bad_pattern_is_an_error() {
    assert!(regexp(&text("("), &text("x")).is_err());
    assert!(regexp_pattern(&text("[")).is_err());
}

fn compiled_pattern_serves_many_values() {
    let re = regexp_pattern(&text("^a")).unwrap();
    assert_eq!(regexp_match(&re, &text("ab")), Some(true));
    assert_eq!(regexp_match(&re, &text("ba")), Some(false));
    assert_eq!(regexp_match(&re, &RawValue::Null), None);
}

fn memory_paths() {
    for p in ["", ":memory:", "file::memory:?cache=shared"] {
        assert_eq!(classify_target(p), Target::MemoryTempFile, "{p:?}");
    }
    for p in ["/tmp/x.db", "memory", ":Memory:", "data/x:memory:.db", "/file::memory:", ":memory:x"] {
        assert_eq!(classify_target(p), Target::File, "{p:?}");
    }
    assert_eq!(temp_db_name(12, 3), "litewire-mem-12-3.sqlite");
}

fn builder_defaults_and_setters() {
    let b = RusqliteBuilder::new("/tmp/x.db");
    assert_eq!(b.target, Target::File);
    assert_eq!(b.busy_timeout_ms, 5000);
    assert_eq!(b.synchronous, Synchronous::Normal);
    assert_eq!(b.max_idle, 0);
    assert_eq!(b.max_idle_age, Timeout { secs: 60, nanos: 0 });
    let b = b
        .busy_timeout_ms(10)
        .synchronous(Synchronous::Full)
        .handle_reuse(4)
        .idle_max_age(Timeout { secs: 1, nanos: 5 });
    assert_eq!(b.busy_timeout_ms, 10);
    assert_eq!(b.synchronous.as_pragma_str(), "FULL");
    assert_eq!(b.max_idle, 4);
    let p = b.build_pool::<u8>(Some(7)).unwrap().unwrap();
    assert_eq!((p.max_idle, p.max_idle_age, p.pristine), (4, 1_000_000_005, 7));
    assert_eq!(Synchronous::Off.as_pragma_str(), "OFF");
    assert_eq!(Synchronous::Normal.as_pragma_str(), "NORMAL");
}

#[test]
fn reuse_disabled_by_default() {
    assert!(RusqliteBuilder::new("x").build_pool::<u8>(None).unwrap().is_none());
}

fn reuse_without_a_probe_is_an_error() {
    let e = RusqliteBuilder::new("x").handle_reuse(1).build_pool::<u8>(None).unwrap_err();
    assert_eq!(
        e,
        BackendError::Sqlite(
            "handle reuse enabled but the session-state fingerprint probe did not run \
             against this SQLite build"
                .into()
        )
    );
}

fn fingerprint_sql_text() {
    let sql = fingerprint_sql();
    assert!(sql.starts_with("SELECT 1024 * ((SELECT count(*) FROM sqlite_temp_master)"));
    assert!(sql.contains(" + 1 * (SELECT * FROM pragma_query_only)"));
    assert!(sql.ends_with(" + 256 * (SELECT * FROM pragma_trusted_schema)"));
}

#[test]
fn fingerprint_matches_between_bootstrap_and_fresh_session() {
    let a = Connection::open_in_memory().unwrap();
    let b = Connection::open_in_memory().unwrap();
    assert!(fingerprint(&a).is_some());
    assert_eq!(fingerprint(&a), fingerprint(&b));
}

#[test]
fn fingerprint_distinguishes_each_kind_of_dirt() {
    let clean = fingerprint(&Connection::open_in_memory().unwrap()).unwrap();
    for dirt in [
        "CREATE TEMP TABLE x (a)",
        "CREATE TEMP VIEW x AS SELECT 1",
        "ATTACH ':memory:' AS other",
        "PRAGMA query_only = 1",
        "PRAGMA foreign_keys = NOT_THE_DEFAULT",
        "PRAGMA recursive_triggers = 1",
        "PRAGMA read_uncommitted = 1",
        "PRAGMA reverse_unordered_selects = 1",
        "PRAGMA cell_size_check = 1",
        "PRAGMA automatic_index = 0",
        "PRAGMA trusted_schema = 0",
    ] {
        let conn = Connection::open_in_memory().unwrap();
        let sql = if dirt.contains("foreign_keys") {
            let on: i64 = conn.query_row("PRAGMA foreign_keys", [], |r| r.get(0)).unwrap();
            format!("PRAGMA foreign_keys = {}", 1 - on)
        } else {
            dirt.to_string()
        };
        conn.execute_batch(&sql).unwrap();
        assert_ne!(fingerprint(&conn), Some(clean), "{sql}");
    }
}

fn take_prefers_the_youngest() {
    let mut p = pool(3, 60);
    assert!(p.park("a", 1).is_none());
    assert!(p.park("b", 2).is_none());
    let (got, retired) = p.take(3);
    assert_eq!(got, Some("b"));
    assert!(retired.is_empty());
    let (got, _) = p.take(3);
    assert_eq!(got, Some("a"));
    let (got, _) = p.take(3);
    assert_eq!(got, None);
    assert_eq!(
        p.reuse_stats(),
        ReuseStats { hits: 2, misses: 1, returned: 2, discarded: 0, expired: 0, idle: 0 }
    );
}

#[test]
fn idle_workers_expire() {
    let mut p = pool(3, 1);
    p.park("a", 0);
    p.park("b", 600_000_000);
    let (got, retired) = p.take(1_000_000_000);
    assert_eq!(got, Some("b"));
    assert_eq!(retired.len(), 1);
    assert_eq!(retired[0].worker, "a");
    assert_eq!(p.reuse_stats().expired, 1);

    p.park("c", 0);
    p.park("d", 0);
    let (got, retired) = p.take(2_000_000_000);
    assert_eq!(got, None);
    assert_eq!(retired.len(), 2);
    assert_eq!(p.reuse_stats().misses, 1);
}

fn clock_that_went_back_expires_nothing() {
    let mut p = pool(3, 1);
    p.park("a", 5_000_000_000);
    assert_eq!(p.take(0).0, Some("a"));
}

#[test]
fn idle_list_is_bounded() {
    let mut p = pool(2, 60);
    assert!(p.has_room());
    assert!(p.park("a", 0).is_none());
    assert!(p.park("b", 0).is_none());
    assert_eq!(p.park("c", 0), Some("c"));
    assert!(!p.has_room());
    let stats = p.reuse_stats();
    assert_eq!(stats.idle, 2);
    assert_eq!(stats.returned, 2);
    assert_eq!(stats.discarded, 2);
}

#[test]
fn handle_returned_mid_transaction_is_rolled_back() {
    let mut p = pool(2, 60);
    assert_eq!(p.reset(ResetEvent::Ended { autocommit: false }), ResetAction::RollBack);
    assert_eq!(p.reset(ResetEvent::RolledBack { done: true }), ResetAction::Probe);
    assert_eq!(p.reset(ResetEvent::Probed(Some(386))), ResetAction::Restore);
    assert_eq!(p.reset(ResetEvent::Restored { done: true }), ResetAction::Park);
    assert_eq!(p.reuse_stats().discarded, 0);
}

#[test]
fn dirty_handles_are_discarded_not_pooled() {
    let mut p = pool(2, 60);
    assert_eq!(p.reset(ResetEvent::Ended { autocommit: true }), ResetAction::Probe);
    assert_eq!(p.reset(ResetEvent::Probed(Some(387))), ResetAction::Retire);
    assert_eq!(p.reset(ResetEvent::Probed(None)), ResetAction::Retire);
    assert_eq!(p.reset(ResetEvent::RolledBack { done: false }), ResetAction::Retire);
    assert_eq!(p.reset(ResetEvent::Restored { done: false }), ResetAction::Retire);
    assert_eq!(p.reuse_stats().discarded, 4);
    assert_eq!(p.reuse_stats().idle, 0);
}

fn new_stats_are_zero() {
    assert_eq!(pool(2, 60).reuse_stats(), ReuseStats::default());
}

fn statement_of_a_gone_session_fails() {
    assert_eq!(
        worker_gone().to_text(),
        "backend error: SQLite session worker is no longer running"
    );
}

#[test]
fn values_out_of_sqlite() {
    text_that_is_not_utf8_is_a_blob();
    zero_row_id_is_none();
    statement_of_a_gone_session_fails();
}

#[test]
fn regexp_function() {
    regexp_matches_anywhere_and_minds_case();
    regexp_of_null_is_null();
    regexp_reads_numbers_as_text();
    bad_pattern_is_an_error();
    compiled_pattern_serves_many_values();
}

#[test]
fn settings_of_a_factory() {
    memory_paths();
    builder_defaults_and_setters();
    reuse_without_a_probe_is_an_error();
    fingerprint_sql_text();
}

#[test]
fn pool_at_the_edges() {
    take_prefers_the_youngest();
    clock_that_went_back_expires_nothing();
    new_stats_are_zero();
}
