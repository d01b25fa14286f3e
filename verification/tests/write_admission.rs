use litewire::backend::hrana_client::HranaClient;
use litewire::backend::write_admission::{
    default_acquire_timeout, Acquired, Go, SessionAdmission, Timeout, WriteAdmission, WriteIntent,
};
use litewire::backend::BackendError;
use litewire::statement::StatementKind;
use std::sync::Arc;
use tokio::sync::OwnedSemaphorePermit;

type Session = SessionAdmission<OwnedSemaphorePermit>;

fn kind(sql: &str) -> StatementKind {
    let first = sql.split_whitespace().next().unwrap_or("").to_ascii_uppercase();
    match first.as_str() {
        "SELECT" | "PRAGMA" | "EXPLAIN" | "SHOW" => StatementKind::Query,
        "INSERT" | "UPDATE" | "DELETE" | "REPLACE" => StatementKind::Mutation,
        "CREATE" | "DROP" | "ALTER" => StatementKind::Ddl,
        "BEGIN" | "START" | "COMMIT" | "ROLLBACK" | "SAVEPOINT" | "RELEASE" => {
            StatementKind::Transaction
        }
        _ => StatementKind::Other,
    }
}

fn of(sql: &str) -> WriteIntent {
    WriteIntent::of(sql, kind(sql))
}

fn admission(permits: usize) -> Option<WriteAdmission> {
    WriteAdmission::new(permits, default_acquire_timeout())
}

/// Runs a statement past admission; a permit that is not free at once counts
/// as one that never came.
fn step(
    session: &mut Session,
    sql: &str,
) -> Result<Option<OwnedSemaphorePermit>, BackendError> {
    match session.request(sql, kind(sql)) {
        Go::Run(permit) => Ok(permit),
        Go::Wait => {
            let sem = Arc::clone(&session.admission.as_ref().unwrap().sem);
            let outcome = match sem.try_acquire_owned() {
                Ok(p) => Acquired::Permit(p),
                Err(_) => Acquired::TimedOut,
            };
            session.resume(sql, kind(sql), outcome)
        }
    }
}

#[test]
fn reads_are_reads() {
    for sql in [
        "SELECT * FROM t",
        "  select 1",
        "PRAGMA table_info('t')",
        "EXPLAIN SELECT 1",
    ] {
        assert_eq!(of(sql), WriteIntent::Read, "{sql}");
        assert!(!of(sql).needs_permit(), "{sql}");
    }
}

#[test]
fn mutations_and_ddl_are_writes() {
    for sql in [
        "INSERT INTO t VALUES (1)",
        "update t set a = 1",
        "DELETE FROM t",
        "REPLACE INTO t VALUES (1)",
        "CREATE TABLE t (a INT)",
        "DROP TABLE t",
    ] {
        assert_eq!(of(sql), WriteIntent::Write, "{sql}");
        assert!(of(sql).needs_permit(), "{sql}");
    }
}

#[test]
fn begin_is_deferred_but_immediate_and_exclusive_are_not() {
    assert_eq!(of("BEGIN"), WriteIntent::BeginDeferred);
    assert_eq!(of("START TRANSACTION"), WriteIntent::BeginDeferred);
    assert_eq!(of("BEGIN DEFERRED"), WriteIntent::BeginDeferred);
    assert_eq!(of("BEGIN IMMEDIATE"), WriteIntent::BeginImmediate);
    assert_eq!(of("begin exclusive"), WriteIntent::BeginImmediate);
    assert!(of("BEGIN IMMEDIATE").needs_permit());
    assert!(!of("BEGIN").needs_permit());
}

#[test]
fn rollback_to_savepoint_is_not_an_end_of_transaction() {
    assert_eq!(of("ROLLBACK"), WriteIntent::EndTransaction);
    assert_eq!(of("COMMIT"), WriteIntent::EndTransaction);
    assert_eq!(of("END"), WriteIntent::EndTransaction);
    assert_eq!(of("ROLLBACK TO sp1"), WriteIntent::RollbackTo);
    assert_eq!(of("rollback to savepoint sp1"), WriteIntent::RollbackTo);
}

#[test]
fn savepoint_and_release_are_distinguished() {
    assert_eq!(of("SAVEPOINT sp1"), WriteIntent::Savepoint);
    assert_eq!(of("RELEASE SAVEPOINT sp1"), WriteIntent::ReleaseSavepoint);
    assert_eq!(of("RELEASE sp1"), WriteIntent::ReleaseSavepoint);
}

#[test]
fn data_modifying_cte_and_vacuum_are_treated_as_writes() {
    for sql in [
        "WITH x AS (SELECT 1) INSERT INTO t SELECT * FROM x",
        "VACUUM",
        "ANALYZE",
        "REINDEX",
    ] {
        assert_eq!(of(sql), WriteIntent::Write, "{sql}");
    }
    assert_eq!(
        of("WITH x AS (SELECT 1) SELECT * FROM x"),
        WriteIntent::Write,
        "read-only CTE is conservatively admitted as a write"
    );
}

#[test]
fn neutral_statements_take_no_permit() {
    for sql in ["SET foo = 1", "USE db", ""] {
        assert_eq!(of(sql), WriteIntent::Neutral, "{sql:?}");
    }
}

#[test]
fn permits_zero_disables_everything() {
    assert!(WriteAdmission::new(0, default_acquire_timeout()).is_none());
    let mut session = Session::new(admission(0));
    assert!(!session.is_enabled());
    for sql in [
        "BEGIN",
        "INSERT INTO t VALUES (1)",
        "INSERT INTO t VALUES (2)",
        "COMMIT",
        "SELECT 1",
    ] {
        assert!(step(&mut session, sql).unwrap().is_none(), "{sql}");
    }
    assert!(!session.holds_permit());
    assert!(!session.in_transaction());
}

#[test]
fn autocommit_write_acquires_and_releases_per_statement() {
    let adm = admission(1).unwrap();
    let mut session = Session::new(Some(adm.clone()));
    assert_eq!(adm.available_permits(), 1);
    let permit = step(&mut session, "INSERT INTO t VALUES (1)").unwrap();
    assert!(permit.is_some(), "autocommit write must hold a permit");
    assert_eq!(adm.available_permits(), 0);
    assert!(!session.holds_permit());
    drop(permit);
    assert_eq!(adm.available_permits(), 1, "permit returns when stmt ends");
}

#[test]
fn reads_never_take_a_permit() {
    let adm = admission(1).unwrap();
    let mut session = Session::new(Some(adm.clone()));
    for _ in 0..100 {
        assert!(step(&mut session, "SELECT * FROM t").unwrap().is_none());
    }
    assert_eq!(adm.available_permits(), 1);
}

#[test]
fn permit_is_held_across_an_explicit_transaction() {
    let adm = admission(1).unwrap();
    let mut session = Session::new(Some(adm.clone()));

    assert!(step(&mut session, "BEGIN").unwrap().is_none());
    assert_eq!(adm.available_permits(), 1, "deferred BEGIN must not acquire");
    assert!(session.in_transaction());

    assert!(step(&mut session, "INSERT INTO t VALUES (1)").unwrap().is_none());
    assert_eq!(adm.available_permits(), 0);
    assert!(session.holds_permit());

    assert!(step(&mut session, "INSERT INTO t VALUES (2)").unwrap().is_none());
    assert_eq!(adm.available_permits(), 0);
    assert!(session.holds_permit());

    assert!(step(&mut session, "SELECT 1").unwrap().is_none());
    assert_eq!(adm.available_permits(), 0);

    let commit_permit = step(&mut session, "COMMIT").unwrap();
    assert!(commit_permit.is_some(), "COMMIT must carry the permit");
    assert_eq!(adm.available_permits(), 0, "still held during COMMIT");
    assert!(!session.holds_permit());
    assert!(!session.in_transaction());

    drop(commit_permit);
    assert_eq!(adm.available_permits(), 1);
}

#[test]
fn second_writer_is_blocked_until_the_first_commits() {
    let adm = admission(1).unwrap();
    let mut a = Session::new(Some(adm.clone()));
    let mut b = Session::new(Some(adm.clone()));
    step(&mut a, "BEGIN").unwrap();
    step(&mut a, "INSERT INTO t VALUES (1)").unwrap();
    assert_eq!(adm.available_permits(), 0);
    assert!(step(&mut b, "INSERT INTO t VALUES (9)").is_err());
    step(&mut a, "INSERT INTO t VALUES (2)").unwrap();
    assert!(step(&mut b, "INSERT INTO t VALUES (9)").is_err());
    let commit_permit = step(&mut a, "COMMIT").unwrap();
    assert!(step(&mut b, "INSERT INTO t VALUES (9)").is_err());
    drop(commit_permit);
    assert!(step(&mut b, "INSERT INTO t VALUES (9)").unwrap().is_some());
}

#[test]
fn reads_proceed_while_all_permits_are_held() {
    let adm = admission(2).unwrap();
    let mut holders = Vec::new();
    for _ in 0..2 {
        let mut s = Session::new(Some(adm.clone()));
        holders.push(step(&mut s, "INSERT INTO t VALUES (1)").unwrap());
    }
    assert_eq!(adm.available_permits(), 0);
    let mut reader = Session::new(Some(adm.clone()));
    for _ in 0..1000 {
        step(&mut reader, "SELECT 1").unwrap();
    }
    drop(holders);
}

#[test]
fn end_commits_and_returns_the_permit() {
    let adm = admission(1).unwrap();
    let mut session = Session::new(Some(adm.clone()));
    step(&mut session, "BEGIN").unwrap();
    step(&mut session, "INSERT INTO t VALUES (1)").unwrap();
    assert_eq!(adm.available_permits(), 0);
    let p = step(&mut session, "END").unwrap();
    assert!(p.is_some(), "END must commit and hand back the permit");
    assert!(!session.in_transaction());
    drop(p);
    assert_eq!(adm.available_permits(), 1, "END leaked a permit");
}

#[test]
fn begin_immediate_acquires_eagerly() {
    let adm = admission(1).unwrap();
    let mut session = Session::new(Some(adm.clone()));
    assert!(step(&mut session, "BEGIN IMMEDIATE").unwrap().is_none());
    assert_eq!(adm.available_permits(), 0, "IMMEDIATE takes the lock at once");
    assert!(session.holds_permit());
    let p = step(&mut session, "ROLLBACK").unwrap();
    assert!(p.is_some());
    drop(p);
    assert_eq!(adm.available_permits(), 1);
}

#[test]
fn dropping_a_session_mid_transaction_releases_the_permit() {
    let adm = admission(1).unwrap();
    {
        let mut session = Session::new(Some(adm.clone()));
        step(&mut session, "BEGIN").unwrap();
        step(&mut session, "INSERT INTO t VALUES (1)").unwrap();
        assert_eq!(adm.available_permits(), 0);
        assert!(session.holds_permit());
    }
    assert_eq!(adm.available_permits(), 1);
    let mut next = Session::new(Some(adm.clone()));
    assert!(step(&mut next, "INSERT INTO t VALUES (2)").unwrap().is_some());
}

#[test]
fn savepoint_nesting_holds_the_permit_until_the_outermost_release() {
    let adm = admission(1).unwrap();
    let mut session = Session::new(Some(adm.clone()));
    step(&mut session, "SAVEPOINT sp1").unwrap();
    step(&mut session, "SAVEPOINT sp2").unwrap();
    assert_eq!(adm.available_permits(), 1, "savepoints take no write lock");
    step(&mut session, "INSERT INTO t VALUES (1)").unwrap();
    assert_eq!(adm.available_permits(), 0);
    assert!(step(&mut session, "RELEASE sp2").unwrap().is_none());
    assert_eq!(adm.available_permits(), 0);
    assert!(session.holds_permit());
    assert!(step(&mut session, "ROLLBACK TO sp1").unwrap().is_none());
    assert_eq!(adm.available_permits(), 0);
    assert!(session.holds_permit());
    let p = step(&mut session, "RELEASE sp1").unwrap();
    assert!(p.is_some(), "outermost RELEASE commits and returns the permit");
    drop(p);
    assert_eq!(adm.available_permits(), 1);
}

#[test]
fn savepoint_inside_begin_does_not_end_the_transaction_on_release() {
    let adm = admission(1).unwrap();
    let mut session = Session::new(Some(adm.clone()));
    step(&mut session, "BEGIN").unwrap();
    step(&mut session, "SAVEPOINT sp1").unwrap();
    step(&mut session, "INSERT INTO t VALUES (1)").unwrap();
    assert_eq!(adm.available_permits(), 0);
    assert!(step(&mut session, "RELEASE sp1").unwrap().is_none());
    assert_eq!(adm.available_permits(), 0, "BEGIN still open");
    assert!(session.holds_permit());
    let p = step(&mut session, "COMMIT").unwrap();
    assert!(p.is_some());
    drop(p);
    assert_eq!(adm.available_permits(), 1);
}

#[test]
fn acquire_timeout_returns_a_busy_error_rather_than_hanging() {
    let adm = WriteAdmission::new(1, Timeout { secs: 0, nanos: 100_000_000 }).unwrap();
    let mut holder = Session::new(Some(adm.clone()));
    let held = step(&mut holder, "INSERT INTO t VALUES (1)").unwrap();
    assert_eq!(adm.available_permits(), 0);
    let mut waiter = Session::new(Some(adm.clone()));
    let err = step(&mut waiter, "INSERT INTO t VALUES (2)").expect_err("a timeout error");
    assert!(matches!(err, BackendError::Sqlite(_)), "{err:?}");
    assert_eq!(
        err.to_text(),
        "SQLite error: [SQLITE_BUSY] timed out after 100ms waiting for a write permit \
         (1 concurrent writes allowed)"
    );
    drop(held);
}

#[test]
fn timeout_leaves_transaction_state_intact_for_a_retry() {
    let adm = WriteAdmission::new(1, Timeout { secs: 0, nanos: 50_000_000 }).unwrap();
    let mut holder = Session::new(Some(adm.clone()));
    let held = step(&mut holder, "INSERT INTO t VALUES (1)").unwrap();
    let mut session = Session::new(Some(adm.clone()));
    step(&mut session, "BEGIN").unwrap();
    assert!(step(&mut session, "INSERT INTO t VALUES (2)").is_err());
    assert!(session.in_transaction(), "transaction was torn down");
    assert!(!session.holds_permit());
    drop(held);
    assert!(step(&mut session, "INSERT INTO t VALUES (2)").unwrap().is_none());
    assert!(session.holds_permit());
}

fn begin_immediate_that_times_out_opens_no_transaction() {
    let adm = admission(1).unwrap();
    let mut holder = Session::new(Some(adm.clone()));
    let held = step(&mut holder, "INSERT INTO t VALUES (1)").unwrap();
    let mut session = Session::new(Some(adm.clone()));
    assert!(step(&mut session, "BEGIN IMMEDIATE").is_err());
    assert!(!session.in_transaction());
    drop(held);
    assert!(step(&mut session, "BEGIN IMMEDIATE").unwrap().is_none());
    assert!(session.in_transaction());
}

#[test]
fn permit_count_is_the_concurrency_ceiling() {
    let adm = admission(4).unwrap();
    let mut held = Vec::new();
    for _ in 0..4 {
        let mut s = Session::new(Some(adm.clone()));
        held.push(step(&mut s, "INSERT INTO t VALUES (1)").unwrap());
    }
    assert_eq!(adm.available_permits(), 0);
    assert_eq!(adm.permits(), 4);
    let mut extra = Session::new(Some(adm.clone()));
    assert!(step(&mut extra, "INSERT INTO t VALUES (2)").is_err());
    held.pop();
    assert!(step(&mut extra, "INSERT INTO t VALUES (2)").unwrap().is_some());
}

fn closed_semaphore_is_an_error() {
    let adm = admission(1).unwrap();
    let mut session = Session::new(Some(adm));
    assert!(matches!(session.request("DELETE FROM t", StatementKind::Mutation), Go::Wait));
    let err = session
        .resume("DELETE FROM t", StatementKind::Mutation, Acquired::Closed)
        .expect_err("closed");
    assert_eq!(err, BackendError::Other("write admission semaphore closed".into()));
}

fn default_timeout_is_half_a_minute() {
    assert_eq!(default_acquire_timeout(), Timeout { secs: 30, nanos: 0 });
}

fn client(permits: usize) -> HranaClient {
    HranaClient::new("http://127.0.0.1:8080").write_permits(permits)
}

#[test]
fn write_cannot_interleave_into_an_open_transaction() {
    let client = client(1);
    let mut a: Session = client.connect();
    let mut b: Session = client.connect();
    step(&mut a, "BEGIN").unwrap();
    step(&mut a, "INSERT INTO t (v) VALUES (1)").unwrap();
    assert!(step(&mut b, "INSERT INTO t (v) VALUES (99)").is_err());
    step(&mut a, "INSERT INTO t (v) VALUES (2)").unwrap();
    assert!(step(&mut b, "INSERT INTO t (v) VALUES (99)").is_err());
    drop(step(&mut a, "COMMIT").unwrap());
    assert!(step(&mut b, "INSERT INTO t (v) VALUES (99)").unwrap().is_some());
}

#[test]
fn reads_proceed_while_the_only_permit_is_held() {
    let client = client(1);
    let mut writer: Session = client.connect();
    step(&mut writer, "BEGIN").unwrap();
    step(&mut writer, "INSERT INTO t (v) VALUES (1)").unwrap();
    let mut reader: Session = client.connect();
    for _ in 0..50 {
        assert!(step(&mut reader, "SELECT COUNT(*) FROM t").unwrap().is_none());
    }
}

#[test]
fn dropping_a_session_mid_transaction_frees_the_pool() {
    let client = client(1);
    {
        let mut doomed: Session = client.connect();
        step(&mut doomed, "BEGIN").unwrap();
        step(&mut doomed, "INSERT INTO t (v) VALUES (1)").unwrap();
    }
    let mut next: Session = client.connect();
    assert!(step(&mut next, "INSERT INTO t (v) VALUES (2)").unwrap().is_some());
}

#[test]
fn rollback_releases_the_permit() {
    let client = client(1);
    let mut a: Session = client.connect();
    step(&mut a, "BEGIN").unwrap();
    step(&mut a, "INSERT INTO t (v) VALUES (1)").unwrap();
    drop(step(&mut a, "ROLLBACK").unwrap());
    let mut b: Session = client.connect();
    assert!(step(&mut b, "INSERT INTO t (v) VALUES (2)").unwrap().is_some());
}

#[test]
fn queued_write_times_out_with_a_busy_error() {
    let client = client(1).write_acquire_timeout(Timeout { secs: 0, nanos: 150_000_000 });
    let mut holder: Session = client.connect();
    step(&mut holder, "BEGIN").unwrap();
    step(&mut holder, "INSERT INTO t (v) VALUES (1)").unwrap();
    let mut blocked: Session = client.connect();
    let err = step(&mut blocked, "INSERT INTO t (v) VALUES (2)").expect_err("a busy error");
    assert!(
        matches!(&err, BackendError::Sqlite(m) if m.contains("SQLITE_BUSY") && m.contains("150ms")),
        "{err:?}"
    );
}

#[test]
fn permits_zero_does_not_serialise_writers() {
    let client = HranaClient::new("http://127.0.0.1:8080");
    let mut a: Session = client.connect();
    step(&mut a, "BEGIN").unwrap();
    step(&mut a, "INSERT INTO t (v) VALUES (1)").unwrap();
    let mut b: Session = client.connect();
    assert!(step(&mut b, "INSERT INTO t (v) VALUES (2)").unwrap().is_none());
    assert!(client.write_permits(0).admission.is_none());
}

#[test]
fn permits_that_do_not_come() {
    begin_immediate_that_times_out_opens_no_transaction();
    closed_semaphore_is_an_error();
    default_timeout_is_half_a_minute();
}
