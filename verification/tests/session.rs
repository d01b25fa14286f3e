use litewire::backend::rusqlite_backend::{execute_result, extract_value, RawValue};
use litewire::backend::{BackendError, Column, Double, ExecuteResult, ResultSet, Value};
use litewire::session::{
    count_value, map_backend_err, Dialect, Prepared, Session, SessionError, SessionResult, Special,
    Statement, TranslateError, Work,
};
use litewire::statement::{StatementKind, Translated};
use rusqlite::types::ValueRef;
use rusqlite::Connection;

fn double(f: f64) -> Double {
    Double { bits: f.to_bits(), text: f.to_string(), whole: f as i64 }
}

fn raw(v: ValueRef<'_>) -> RawValue {
    match v {
        ValueRef::Null => RawValue::Null,
        ValueRef::Integer(i) => RawValue::Integer(i),
        ValueRef::Real(f) => RawValue::Real(double(f)),
        ValueRef::Text(t) => RawValue::Text(t.to_vec()),
        ValueRef::Blob(b) => RawValue::Blob(b.to_vec()),
    }
}

fn bound(params: &[Value]) -> Vec<rusqlite::types::Value> {
    params
        .iter()
        .map(|v| match v {
            Value::Null => rusqlite::types::Value::Null,
            Value::Integer(i) => rusqlite::types::Value::Integer(*i),
            Value::Float(d) => rusqlite::types::Value::Real(f64::from_bits(d.bits)),
            Value::Text(s) => rusqlite::types::Value::Text(s.clone()),
            Value::Blob(b) => rusqlite::types::Value::Blob(b.clone()),
        })
        .collect()
}

fn failure(e: rusqlite::Error) -> BackendError {
    BackendError::Sqlite(e.to_string())
}

fn query(conn: &Connection, sql: &str, params: &[Value]) -> Result<ResultSet, BackendError> {
    let mut stmt = conn.prepare(sql).map_err(failure)?;
    let columns: Vec<Column> = stmt
        .columns()
        .iter()
        .map(|c| Column {
            name: c.name().to_string(),
            decltype: c.decl_type().map(str::to_string),
        })
        .collect();
    let n = columns.len();
    let mut rows = stmt.query(rusqlite::params_from_iter(bound(params))).map_err(failure)?;
    let mut out = Vec::new();
    while let Some(row) = rows.next().map_err(failure)? {
        let mut values = Vec::new();
        for i in 0..n {
            values.push(extract_value(raw(row.get_ref(i).map_err(failure)?)));
        }
        out.push(values);
    }
    Ok(ResultSet { columns, rows: out })
}

fn execute(conn: &Connection, sql: &str, params: &[Value]) -> Result<ExecuteResult, BackendError> {
    let mut stmt = conn.prepare(sql).map_err(failure)?;
    let n = stmt.execute(rusqlite::params_from_iter(bound(params))).map_err(failure)?;
    Ok(execute_result(n, conn.last_insert_rowid()))
}

fn session() -> Session<Connection> {
    Session::new(Connection::open_in_memory().unwrap(), Dialect::MySQL)
}

fn seeded_session(n: i64) -> Session<Connection> {
    let s = session();
    s.conn.execute_batch("CREATE TABLE t (id INTEGER PRIMARY KEY, v TEXT)").unwrap();
    for i in 1..=n {
        s.conn.execute("INSERT INTO t VALUES (?1, 'x')", [i]).unwrap();
    }
    s
}

fn work(
    s: &mut Session<Connection>,
    w: Work,
    params: &[Value],
) -> Result<SessionResult, SessionError> {
    match w {
        Work::Answer(a) => Ok(a),
        Work::Query { sql, bind, count } => {
            let params: &[Value] = if bind { params } else { &[] };
            let outcome = query(&s.conn, &sql, params);
            let counted = match (&outcome, count) {
                (Ok(_), Some(c)) => count_value(&query(&s.conn, &c, params)),
                _ => None,
            };
            s.finish_query(outcome, counted)
        }
        Work::Transaction(sql) => {
            let outcome = execute(&s.conn, &sql, &[]);
            s.finish_transaction(&sql, outcome)
        }
        Work::Execute(sql) => {
            let outcome = execute(&s.conn, &sql, params);
            s.finish_execute(outcome)
        }
    }
}

fn run(
    s: &mut Session<Connection>,
    translated: Result<Vec<Statement>, TranslateError>,
    params: &[Value],
) -> Result<SessionResult, SessionError> {
    let mut batch = s.query(translated, params.len())?;
    while let Some(statement) = batch.next() {
        let w = s.start(statement);
        let result = work(s, w, params);
        batch.record(result);
    }
    batch.finish()
}

fn sql(text: &str, kind: StatementKind) -> Statement {
    Statement::Translated(Translated::Sql(text.into()), kind)
}

fn one(text: &str, kind: StatementKind) -> Result<Vec<Statement>, TranslateError> {
    Ok(vec![sql(text, kind)])
}

fn calc(text: &str, count: Option<&str>) -> Result<Vec<Statement>, TranslateError> {
    Ok(vec![Statement::CalcFoundRows { sql: text.into(), count: count.map(str::to_string) }])
}

fn rows(r: SessionResult) -> ResultSet {
    match r {
        SessionResult::Rows(rs) => rs,
        other => panic!("expected rows, got {other:?}"),
    }
}

fn found_rows(s: &mut Session<Connection>, column: &str) -> (String, i64) {
    let asked = Ok(vec![Statement::FoundRows { column: column.into() }]);
    let rs = rows(run(s, asked, &[]).unwrap());
    match rs.rows[0][0] {
        Value::Integer(n) => (rs.columns[0].name.clone(), n),
        _ => panic!("not an integer"),
    }
}

#[test]
fn calc_query_with_limit_reports_full_count() {
    let mut s = seeded_session(5);
    let asked = calc("SELECT * FROM t ORDER BY id LIMIT 2", Some("SELECT COUNT(*) FROM t"));
    let rs = rows(run(&mut s, asked, &[]).unwrap());
    assert_eq!(rs.rows.len(), 2, "LIMIT must still apply");
    let (col, n) = found_rows(&mut s, "FOUND_ROWS()");
    assert_eq!(col, "FOUND_ROWS()");
    assert_eq!(n, 5);
    assert_eq!(s.found_rows(), 1, "FOUND_ROWS() itself returns 1 row");
}

#[test]
fn calc_query_with_offset_and_where() {
    let mut s = seeded_session(5);
    let asked = calc(
        "SELECT id FROM t WHERE id > 1 ORDER BY id LIMIT 1 OFFSET 1",
        Some("SELECT COUNT(*) FROM t WHERE id > 1"),
    );
    let rs = rows(run(&mut s, asked, &[]).unwrap());
    assert_eq!(rs.rows.len(), 1);
    assert_eq!(found_rows(&mut s, "FOUND_ROWS()").1, 4);
}

#[test]
fn calc_query_with_bound_where_params() {
    let mut s = seeded_session(5);
    let asked = calc(
        "SELECT id FROM t WHERE id > ? ORDER BY id LIMIT 1",
        Some("SELECT COUNT(*) FROM t WHERE id > ?"),
    );
    let rs = rows(run(&mut s, asked, &[Value::Integer(2)]).unwrap());
    assert_eq!(rs.rows.len(), 1);
    assert_eq!(found_rows(&mut s, "FOUND_ROWS()").1, 3, "rows with id > 2");
}

#[test]
fn placeholder_limit_falls_back_to_returned_row_count() {
    let mut s = seeded_session(5);
    let rs = rows(
        run(&mut s, calc("SELECT id FROM t LIMIT ?", None), &[Value::Integer(2)]).unwrap(),
    );
    assert_eq!(rs.rows.len(), 2);
    assert_eq!(found_rows(&mut s, "FOUND_ROWS()").1, 2);
}

#[test]
fn without_calc_hint_reports_last_select_row_count() {
    let mut s = seeded_session(5);
    rows(
        run(&mut s, one("SELECT id FROM t ORDER BY id LIMIT 2", StatementKind::Query), &[])
            .unwrap(),
    );
    assert_eq!(found_rows(&mut s, "FOUND_ROWS()").1, 2);
}

#[test]
fn fresh_session_reports_zero() {
    let mut s = seeded_session(3);
    assert_eq!(found_rows(&mut session(), "FOUND_ROWS()").1, 0);
    assert_eq!(found_rows(&mut s, "FOUND_ROWS()").1, 0, "seeded session never ran a select");
    assert_eq!(found_rows(&mut s, "FOUND_ROWS()").1, 1);
}

#[test]
fn prepared_path_calc_and_found_rows() {
    let mut s = seeded_session(5);
    let calc = Session::<Connection>::prepare(calc(
        "SELECT id FROM t WHERE id > ? ORDER BY id LIMIT 1",
        Some("SELECT COUNT(*) FROM t WHERE id > ?"),
    ))
    .unwrap();
    let w = s.execute_prepared(&calc);
    let rs = rows(work(&mut s, w, &[Value::Integer(1)]).unwrap());
    assert_eq!(rs.rows.len(), 1);

    let fr = Session::<Connection>::prepare(Ok(vec![Statement::FoundRows {
        column: "FOUND_ROWS()".into(),
    }]))
    .unwrap();
    let w = s.execute_prepared(&fr);
    let rs = rows(work(&mut s, w, &[]).unwrap());
    assert_eq!(rs.columns[0].name, "FOUND_ROWS()");
    assert_eq!(rs.rows, vec![vec![Value::Integer(4)]]);

    let w = s.execute_prepared(&calc);
    rows(work(&mut s, w, &[Value::Integer(3)]).unwrap());
    let w = s.execute_prepared(&fr);
    let rs = rows(work(&mut s, w, &[]).unwrap());
    assert_eq!(rs.rows, vec![vec![Value::Integer(2)]]);
}

#[test]
fn set_names_is_ok_and_never_touches_backend() {
    let mut s = session();
    let asked = Ok(vec![Statement::Translated(Translated::Noop, StatementKind::Other)]);
    match run(&mut s, asked, &[]).unwrap() {
        SessionResult::Done(ok) => {
            assert!(ok.noop);
            assert_eq!(ok.affected_rows, 0);
        }
        other => panic!("expected an OK, got {other:?}"),
    }
}

#[test]
fn empty_input_is_noop_ok() {
    let mut s = session();
    match run(&mut s, Ok(vec![]), &[]).unwrap() {
        SessionResult::Done(ok) => assert!(ok.noop),
        other => panic!("expected an OK, got {other:?}"),
    }
}

#[test]
fn crud_with_params() {
    let mut s = session();
    run(
        &mut s,
        one("CREATE TABLE users (id INTEGER PRIMARY KEY, name TEXT)", StatementKind::Ddl),
        &[],
    )
    .unwrap();
    let r = run(
        &mut s,
        one("INSERT INTO users (name) VALUES (?)", StatementKind::Mutation),
        &[Value::Text("Alice".into())],
    )
    .unwrap();
    match r {
        SessionResult::Done(ok) => {
            assert_eq!(ok.affected_rows, 1);
            assert_eq!(ok.last_insert_id, 1);
            assert!(!ok.noop);
        }
        other => panic!("expected an OK, got {other:?}"),
    }
    let rs = rows(
        run(
            &mut s,
            one("SELECT name FROM users WHERE id = ?", StatementKind::Query),
            &[Value::Integer(1)],
        )
        .unwrap(),
    );
    assert_eq!(rs.rows, vec![vec![Value::Text("Alice".into())]]);
}

fn metadata_runs_without_parameters() {
    let mut s = session();
    let w = s.start(Statement::Translated(
        Translated::Metadata("SELECT 1".into()),
        StatementKind::Other,
    ));
    match w {
        Work::Query { sql, bind, count } => {
            assert_eq!(sql, "SELECT 1");
            assert!(!bind);
            assert!(count.is_none());
        }
        other => panic!("expected a query, got {other:?}"),
    }
}

#[test]
fn transaction_state_tracks_begin_commit_rollback() {
    let mut s = session();
    for (text, after) in [("BEGIN", true), ("COMMIT", false), ("BEGIN", true), ("ROLLBACK", false)]
    {
        match run(&mut s, one(text, StatementKind::Transaction), &[]).unwrap() {
            SessionResult::Done(ok) => assert_eq!(ok.in_transaction, after, "{text}"),
            other => panic!("expected an OK, got {other:?}"),
        }
        assert_eq!(s.in_transaction, after, "{text}");
    }
}

#[test]
fn failed_transaction_statement_does_not_change_state() {
    let mut s = session();
    assert!(run(&mut s, one("COMMIT", StatementKind::Transaction), &[]).is_err());
    assert!(!s.in_transaction);
    run(&mut s, one("BEGIN", StatementKind::Transaction), &[]).unwrap();
    assert!(run(&mut s, one("BEGIN", StatementKind::Transaction), &[]).is_err());
    assert!(s.in_transaction);
}

#[test]
fn duplicate_key_maps_to_1062() {
    let mut s = seeded_session(1);
    let e = run(
        &mut s,
        one("INSERT INTO t VALUES (1, 'y')", StatementKind::Mutation),
        &[],
    )
    .unwrap_err();
    assert_eq!(e.code(), 1062);
    assert_eq!(&e.sqlstate(), b"23000");
    match e {
        SessionError::Db { message, .. } => assert_eq!(
            message,
            "Duplicate entry '<unknown>' for key 't.id' \
             (SQLite error: UNIQUE constraint failed: t.id)"
        ),
        other => panic!("expected a database error, got {other:?}"),
    }
}

#[test]
fn missing_table_is_1146() {
    let mut s = session();
    let e = run(&mut s, one("SELECT * FROM nowhere", StatementKind::Query), &[]).unwrap_err();
    assert_eq!(e.code(), 1146);
    assert_eq!(&e.sqlstate(), b"42S02");
}

#[test]
fn missing_table_is_1146_for_writes_too() {
    let mut s = session();
    let e = run(&mut s, one("DELETE FROM nowhere", StatementKind::Mutation), &[]).unwrap_err();
    assert_eq!(e.code(), 1146);
}

#[test]
fn parse_error_maps_to_1064() {
    let mut s = session();
    let e = run(&mut s, Err(TranslateError::Failed("bad".into())), &[]).unwrap_err();
    assert_eq!(e.code(), 1064);
    assert_eq!(&e.sqlstate(), b"42000");
}

#[test]
fn multi_statement_input_executes_all_and_returns_last() {
    let mut s = seeded_session(0);
    let asked = Ok(vec![
        sql("INSERT INTO t VALUES (1, 'a')", StatementKind::Mutation),
        sql("INSERT INTO t VALUES (2, 'b')", StatementKind::Mutation),
        sql("SELECT COUNT(*) FROM t", StatementKind::Query),
    ]);
    let rs = rows(run(&mut s, asked, &[]).unwrap());
    assert_eq!(rs.rows, vec![vec![Value::Integer(2)]]);
}

#[test]
fn params_with_multi_statement_expansion_is_an_error() {
    let mut s = seeded_session(0);
    let asked = Ok(vec![
        sql("INSERT INTO t VALUES (1, 'a')", StatementKind::Mutation),
        sql("SELECT 1", StatementKind::Query),
    ]);
    let e = run(&mut s, asked, &[Value::Integer(1)]).unwrap_err();
    assert_eq!(
        e,
        SessionError::Translate(TranslateError::Unsupported(
            "parameters cannot be bound to a statement that expands to multiple SQLite statements"
                .into()
        ))
    );
    assert_eq!(e.code(), 1064);
}

#[test]
fn multi_statement_error_stops_execution() {
    let mut s = seeded_session(0);
    let asked = Ok(vec![
        sql("INSERT INTO t VALUES (1, 'a')", StatementKind::Mutation),
        sql("INSERT INTO nowhere VALUES (1)", StatementKind::Mutation),
        sql("INSERT INTO t VALUES (2, 'b')", StatementKind::Mutation),
    ]);
    assert!(run(&mut s, asked, &[]).is_err());
    let rs = query(&s.conn, "SELECT COUNT(*) FROM t", &[]).unwrap();
    assert_eq!(rs.rows, vec![vec![Value::Integer(1)]]);
}

#[test]
fn translate_sql_first_result_semantics() {
    let t = Session::<u8>::translate_sql(Ok(vec![
        (Translated::Sql("SELECT 1".into()), StatementKind::Query),
        (Translated::Sql("SELECT 2".into()), StatementKind::Query),
    ]));
    assert_eq!(t, Ok(("SELECT 1".to_string(), StatementKind::Query)));
    let t = Session::<u8>::translate_sql(Ok(vec![]));
    assert_eq!(t, Ok((String::new(), StatementKind::Other)));
}

fn empty_prepared_statement_is_a_noop() {
    let mut s = session();
    let p = Prepared {
        sqlite_sql: String::new(),
        kind: StatementKind::Other,
        special: Special::Nothing,
    };
    match s.execute_prepared(&p) {
        Work::Answer(SessionResult::Done(ok)) => assert!(ok.noop),
        other => panic!("expected an answer, got {other:?}"),
    }
}

fn negative_row_id_is_reported_as_zero() {
    let s = session();
    let done = ExecuteResult { affected_rows: 1, last_insert_rowid: Some(-4) };
    match s.finish_execute(Ok(done)).unwrap() {
        SessionResult::Done(ok) => assert_eq!(ok.last_insert_id, 0),
        other => panic!("expected an OK, got {other:?}"),
    }
}

fn count_is_none_where_it_is_no_count() {
    let count = |v: Value| ResultSet {
        columns: vec![Column { name: "n".into(), decltype: None }],
        rows: vec![vec![v]],
    };
    assert_eq!(count_value(&Ok(count(Value::Integer(7)))), Some(7));
    assert_eq!(count_value(&Ok(count(Value::Integer(-7)))), None);
    assert_eq!(count_value(&Ok(count(Value::Null))), None);
    assert_eq!(count_value(&Ok(ResultSet { columns: vec![], rows: vec![] })), None);
    assert_eq!(count_value(&Err(BackendError::Other("x".into()))), None);
}

fn backend_failure_is_classified() {
    let e = map_backend_err(&BackendError::Sqlite("database is locked".into()));
    assert_eq!(e.code(), 1205);
    assert_eq!(&e.sqlstate(), b"HY000");
}

fn dialect_is_kept() {
    assert_eq!(Session::new(0u8, Dialect::TDS).dialect(), Dialect::TDS);
}

#[test]
fn count_round_trip_only_for_calc_statements() {
    let mut s = seeded_session(7);
    let plain = s.start(sql("SELECT * FROM t LIMIT 2", StatementKind::Query));
    assert!(matches!(&plain, Work::Query { count: None, .. }));
    work(&mut s, plain, &[]).unwrap();
    assert_eq!(s.found_rows(), 2);
    let calc = s.start(Statement::CalcFoundRows {
        sql: "SELECT * FROM t LIMIT 2".into(),
        count: Some("SELECT COUNT(*) FROM t".into()),
    });
    assert!(matches!(&calc, Work::Query { count: Some(_), .. }));
    work(&mut s, calc, &[]).unwrap();
    assert_eq!(s.found_rows(), 7, "stored from the count query");
    match s.start(Statement::FoundRows { column: "FOUND_ROWS()".into() }) {
        Work::Answer(SessionResult::Rows(rs)) => {
            assert_eq!(rs.rows, vec![vec![Value::Integer(7)]]);
        }
        other => panic!("the backend was asked: {other:?}"),
    }
    assert_eq!(s.found_rows(), 1);
}

#[test]
fn session_at_the_edges() {
    metadata_runs_without_parameters();
    empty_prepared_statement_is_a_noop();
    negative_row_id_is_reported_as_zero();
    count_is_none_where_it_is_no_count();
    backend_failure_is_classified();
    dialect_is_kept();
}
