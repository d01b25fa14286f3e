use litewire::backend::conn_limit::ConnectionLimiter;
use litewire::backend::{BackendError, Column, Double, ResultSet, Value};
use litewire::mysql::error_map::classify;
use litewire::mysql::handler::{
    execute_reply, ok_response, param_count, param_to_value, query_reply, random_scramble,
    result_columns, scramble_from, session_error_reply, LiteWireHandler, ParamInner, Preparing,
    Reply, MAX_PREPARED_STMTS_PER_CONN, SERVER_STATUS_IN_TRANS,
};
use litewire::mysql::native_password::{constant_time_eq, password_hash, verify};
use litewire::mysql::types::{mysql_type_for_value, sqlite_to_mysql_column_type, ColumnType};
use litewire::mysql::{allow_change_user, seat, too_many_packet, BackendSource, Seating};
use litewire::session::{
    map_backend_err, Dialect, Prepared, Session, SessionError, SessionOk, SessionResult, Special,
    Statement, TranslateError, Work,
};
use litewire::statement::{transaction_verb, StatementKind, TransactionVerb, Translated};
use opensrv_mysql::ErrorKind;
use sha1::{Digest, Sha1};

fn double(f: f64) -> Double {
    Double { bits: f.to_bits(), text: f.to_string(), whole: f as i64 }
}

fn handler() -> LiteWireHandler<u8> {
    LiteWireHandler::new(Session::new(0u8, Dialect::MySQL))
}

fn sql(text: &str, kind: StatementKind) -> Statement {
    Statement::Translated(Translated::Sql(text.into()), kind)
}

#[test]
fn error_map_unique_constraint_maps_to_1062() {
    let e = classify("UNIQUE constraint failed: users.email");
    assert!(matches!(e.code, ErrorKind::ER_DUP_ENTRY));
    assert_eq!(&e.sqlstate, b"23000");
}

#[test]
fn error_map_primary_key_constraint_maps_to_1062() {
    let e = classify("PRIMARY KEY constraint failed: users.id");
    assert!(matches!(e.code, ErrorKind::ER_DUP_ENTRY));
    assert_eq!(&e.sqlstate, b"23000");
}

#[test]
fn error_map_foreign_key_maps_to_1452() {
    let e = classify("FOREIGN KEY constraint failed");
    assert!(matches!(e.code, ErrorKind::ER_NO_REFERENCED_ROW_2));
    assert_eq!(&e.sqlstate, b"23000");
}

#[test]
fn error_map_busy_maps_to_1205() {
    let e = classify("database is locked");
    assert!(matches!(e.code, ErrorKind::ER_LOCK_WAIT_TIMEOUT));
    assert_eq!(&e.sqlstate, b"HY000");
}

#[test]
fn error_map_readonly_maps_to_1290() {
    let e = classify("attempt to write a readonly database");
    assert!(matches!(e.code, ErrorKind::ER_OPTION_PREVENTS_STATEMENT));
    assert_eq!(&e.sqlstate, b"HY000");
}

#[test]
fn error_map_unknown_falls_back_to_1105() {
    for msg in ["disk I/O error", "something the classifier never heard of"] {
        let e = classify(msg);
        assert!(matches!(e.code, ErrorKind::ER_UNKNOWN_ERROR), "{msg}");
        assert_eq!(&e.sqlstate, b"HY000", "{msg}");
    }
}

#[test]
fn error_map_classify_preserves_message() {
    let msg = "UNIQUE constraint failed: users.email";
    let e = classify(msg);
    assert!(e.message.contains(msg), "lost SQLite's text: {}", e.message);
    for msg in ["database is locked", "no such table: sprockets"] {
        assert_eq!(classify(msg).message, msg, "{msg} must be forwarded as-is");
    }

    let msg = "UNIQUE constraint failed: users.email";
    let e = litewire::postgres::error_map::classify(msg);
    assert_eq!(e.message, msg);
}

#[test]
fn error_map_no_such_table_maps_to_1146() {
    let e = classify("no such table: sprockets");
    assert!(matches!(e.code, ErrorKind::ER_NO_SUCH_TABLE));
    assert_eq!(&e.sqlstate, b"42S02");
    assert_eq!(e.code.sqlstate(), b"42S02");
}

#[test]
fn duplicate_entry_message_reaches_the_wire_layer_reshaped() {
    let e = classify("UNIQUE constraint failed: users.email");
    assert!(matches!(e.code, ErrorKind::ER_DUP_ENTRY));
    assert!(e.message.starts_with("Duplicate entry "), "{}", e.message);
    assert!(e.message.contains("for key 'users.email'"), "{}", e.message);
}

#[test]
fn type_mapping_integer() {
    assert_eq!(sqlite_to_mysql_column_type(Some("INTEGER")), ColumnType::MYSQL_TYPE_LONGLONG);
}

#[test]
fn type_mapping_int_substring() {
    assert_eq!(sqlite_to_mysql_column_type(Some("BIGINT")), ColumnType::MYSQL_TYPE_LONGLONG);
    assert_eq!(sqlite_to_mysql_column_type(Some("TINYINT")), ColumnType::MYSQL_TYPE_LONGLONG);
}

#[test]
fn type_mapping_real() {
    assert_eq!(sqlite_to_mysql_column_type(Some("REAL")), ColumnType::MYSQL_TYPE_DOUBLE);
}

#[test]
fn type_mapping_float() {
    assert_eq!(sqlite_to_mysql_column_type(Some("FLOAT")), ColumnType::MYSQL_TYPE_DOUBLE);
}

#[test]
fn type_mapping_double() {
    assert_eq!(sqlite_to_mysql_column_type(Some("DOUBLE")), ColumnType::MYSQL_TYPE_DOUBLE);
}

#[test]
fn type_mapping_text() {
    assert_eq!(sqlite_to_mysql_column_type(Some("TEXT")), ColumnType::MYSQL_TYPE_VAR_STRING);
}

#[test]
fn type_mapping_varchar() {
    assert_eq!(
        sqlite_to_mysql_column_type(Some("VARCHAR(255)")),
        ColumnType::MYSQL_TYPE_VAR_STRING
    );
}

#[test]
fn type_mapping_char() {
    assert_eq!(sqlite_to_mysql_column_type(Some("CHAR(10)")), ColumnType::MYSQL_TYPE_VAR_STRING);
}

#[test]
fn type_mapping_blob() {
    assert_eq!(sqlite_to_mysql_column_type(Some("BLOB")), ColumnType::MYSQL_TYPE_BLOB);
}

#[test]
fn type_mapping_bytea() {
    assert_eq!(sqlite_to_mysql_column_type(Some("BYTEA")), ColumnType::MYSQL_TYPE_BLOB);
    assert_eq!(sqlite_to_mysql_column_type(Some("BYTEA2")), ColumnType::MYSQL_TYPE_VAR_STRING);
}

#[test]
fn type_mapping_none_defaults_to_string() {
    assert_eq!(sqlite_to_mysql_column_type(None), ColumnType::MYSQL_TYPE_VAR_STRING);
}

#[test]
fn type_mapping_unknown_defaults_to_string() {
    assert_eq!(
        sqlite_to_mysql_column_type(Some("UNKNOWN_TYPE")),
        ColumnType::MYSQL_TYPE_VAR_STRING
    );
}

#[test]
fn type_mapping_case_insensitive() {
    assert_eq!(sqlite_to_mysql_column_type(Some("integer")), ColumnType::MYSQL_TYPE_LONGLONG);
    assert_eq!(sqlite_to_mysql_column_type(Some("real")), ColumnType::MYSQL_TYPE_DOUBLE);
    assert_eq!(sqlite_to_mysql_column_type(Some("text")), ColumnType::MYSQL_TYPE_VAR_STRING);
    assert_eq!(sqlite_to_mysql_column_type(Some("blob")), ColumnType::MYSQL_TYPE_BLOB);
}

fn type_of_a_value() {
    assert_eq!(mysql_type_for_value(&Value::Integer(1)), ColumnType::MYSQL_TYPE_LONGLONG);
    assert_eq!(mysql_type_for_value(&Value::Float(double(1.5))), ColumnType::MYSQL_TYPE_DOUBLE);
    assert_eq!(mysql_type_for_value(&Value::Blob(vec![1])), ColumnType::MYSQL_TYPE_BLOB);
    assert_eq!(mysql_type_for_value(&Value::Text("x".into())), ColumnType::MYSQL_TYPE_VAR_STRING);
    assert_eq!(mysql_type_for_value(&Value::Null), ColumnType::MYSQL_TYPE_VAR_STRING);
}

fn client_response(password: &[u8], salt: &[u8]) -> Vec<u8> {
    let stage1: [u8; 20] = Sha1::digest(password).into();
    let stage2: [u8; 20] = Sha1::digest(stage1).into();
    let mut hasher = Sha1::new();
    hasher.update(salt);
    hasher.update(stage2);
    let mask = hasher.finalize();
    stage1.iter().zip(mask).map(|(s, m)| s ^ m).collect()
}

const SALT: &[u8] = b"12345678901234567890";

#[test]
fn correct_password_verifies() {
    let stored = password_hash(b"hunter2");
    assert!(verify(&stored, SALT, &client_response(b"hunter2", SALT)));
}

#[test]
fn wrong_password_is_rejected() {
    let stored = password_hash(b"hunter2");
    assert!(!verify(&stored, SALT, &client_response(b"hunter3", SALT)));
}

#[test]
fn another_accounts_response_is_rejected() {
    let site_a = password_hash(b"secret-for-a");
    let response_from_b = client_response(b"secret-for-b", SALT);
    assert!(!verify(&site_a, SALT, &response_from_b));
}

#[test]
fn response_does_not_replay_across_salts() {
    let stored = password_hash(b"hunter2");
    let captured = client_response(b"hunter2", SALT);
    let other_salt = b"09876543210987654321";
    assert!(verify(&stored, SALT, &captured), "sanity: valid on its own salt");
    assert!(!verify(&stored, other_salt, &captured));
}

#[test]
fn empty_response_is_rejected() {
    let stored = password_hash(b"hunter2");
    assert!(!verify(&stored, SALT, b""));
}

#[test]
fn short_and_long_responses_are_rejected() {
    let stored = password_hash(b"hunter2");
    assert!(!verify(&stored, SALT, &[0u8; 19]));
    assert!(!verify(&stored, SALT, &[0u8; 21]));
}

#[test]
fn password_hash_matches_mysql_authentication_string() {
    let expected = "58815970BE77B3720276F63DB198B1FA42E5CC02";
    let got = password_hash(b"hunter2").iter().map(|b| format!("{b:02X}")).collect::<String>();
    assert_eq!(got, expected);
}

fn digests_are_equal_only_in_every_byte() {
    let a = [7u8; 20];
    let mut b = a;
    assert!(constant_time_eq(&a, &b));
    b[19] = 8;
    assert!(!constant_time_eq(&a, &b));
    b = a;
    b[0] = 0;
    assert!(!constant_time_eq(&a, &b));
}

#[test]
fn an_authenticating_handler_starts_with_no_session() {
    let handler = LiteWireHandler::<u8>::new_authenticating([0x41; 20]);
    assert!(handler.session.is_none());
    assert!(handler.must_authenticate());
    assert_eq!(handler.salt(), [0x41; 20]);
}

#[test]
fn each_authenticating_connection_gets_a_distinct_scramble() {
    let a = random_scramble().unwrap();
    let b = random_scramble().unwrap();
    assert_ne!(a, b, "two connections drew the same challenge");
    assert!(
        a.iter().all(|&c| (0x21..=0x7e).contains(&c)),
        "a NUL or non-printable byte would truncate the challenge on the wire"
    );
}

fn scramble_is_printable() {
    let mut raw = [0u8; 20];
    raw[1] = 93;
    raw[2] = 94;
    raw[3] = 255;
    let s = scramble_from(raw);
    assert_eq!(&s[..4], &[0x21, 0x7e, 0x21, 0x21 + 255 % 94]);
}

#[test]
fn ok_response_not_in_transaction() {
    let resp = ok_response(1, 2, false);
    assert_eq!(resp.affected_rows, 1);
    assert_eq!(resp.last_insert_id, 2);
    assert_eq!(resp.status_flags & SERVER_STATUS_IN_TRANS, 0);
}

#[test]
fn ok_response_in_transaction() {
    let resp = ok_response(0, 0, true);
    assert_eq!(resp.status_flags & SERVER_STATUS_IN_TRANS, SERVER_STATUS_IN_TRANS);
    assert_eq!(
        resp.status_flags,
        opensrv_mysql::StatusFlags::SERVER_STATUS_IN_TRANS.bits()
    );
}

#[test]
fn ok_response_zero_values() {
    let resp = ok_response(0, 0, false);
    assert_eq!(resp.affected_rows, 0);
    assert_eq!(resp.last_insert_id, 0);
    assert_eq!(resp.status_flags, 0);
}

#[test]
fn ok_response_large_values() {
    let resp = ok_response(u64::MAX, u64::MAX, true);
    assert_eq!(resp.affected_rows, u64::MAX);
    assert_eq!(resp.last_insert_id, u64::MAX);
    assert_eq!(resp.status_flags & SERVER_STATUS_IN_TRANS, SERVER_STATUS_IN_TRANS);
}

fn translate(
    translated: Result<Vec<(Translated, StatementKind)>, TranslateError>,
) -> Result<(String, StatementKind), SessionError> {
    Session::<u8>::translate_sql(translated)
}

fn translates(text: &str, kind: StatementKind) {
    let got = translate(Ok(vec![(Translated::Sql(text.into()), kind)])).unwrap();
    assert_eq!(got, (text.to_string(), kind));
}

#[test]
fn translate_simple_select() {
    translates("SELECT 1", StatementKind::Query);
}

#[test]
fn translate_select_from_table() {
    translates("SELECT id, name FROM users WHERE id = 1", StatementKind::Query);
}

#[test]
fn translate_insert() {
    translates("INSERT INTO users (name) VALUES ('Alice')", StatementKind::Mutation);
}

#[test]
fn translate_update() {
    translates("UPDATE users SET name = 'Bob' WHERE id = 1", StatementKind::Mutation);
}

#[test]
fn translate_delete() {
    translates("DELETE FROM users WHERE id = 1", StatementKind::Mutation);
}

#[test]
fn translate_create_table() {
    translates("CREATE TABLE t (id INT PRIMARY KEY, name VARCHAR(255))", StatementKind::Ddl);
}

#[test]
fn translate_begin_returns_transaction() {
    translates("BEGIN", StatementKind::Transaction);
}

#[test]
fn translate_commit_returns_transaction() {
    translates("COMMIT", StatementKind::Transaction);
}

#[test]
fn translate_rollback_returns_transaction() {
    translates("ROLLBACK", StatementKind::Transaction);
}

#[test]
fn translate_set_names_returns_noop() {
    let (sql, kind) = translate(Ok(vec![(Translated::Noop, StatementKind::Other)])).unwrap();
    assert!(sql.is_empty());
    assert_eq!(kind, StatementKind::Other);
}

#[test]
fn translate_show_tables_returns_metadata() {
    let meta = "SELECT name FROM sqlite_master";
    let (sql, kind) =
        translate(Ok(vec![(Translated::Metadata(meta.into()), StatementKind::Other)])).unwrap();
    assert!(!sql.is_empty());
    assert_eq!(kind, StatementKind::Query);
    assert!(sql.contains("sqlite_master"));
}

#[test]
fn translate_invalid_sql_returns_error() {
    let e = translate(Err(TranslateError::Failed("no".into()))).unwrap_err();
    assert_eq!(e.code(), 1064);
    assert_eq!(&e.sqlstate(), b"42000");
}

fn apply_transaction_state(in_transaction: &mut bool, text: &str) {
    let mut session = Session::new(0u8, Dialect::MySQL);
    session.in_transaction = *in_transaction;
    let done = litewire::backend::ExecuteResult { affected_rows: 0, last_insert_rowid: None };
    session.finish_transaction(text, Ok(done)).unwrap();
    *in_transaction = session.in_transaction;
}

#[test]
fn transaction_begin_sets_in_transaction() {
    let mut in_tx = false;
    apply_transaction_state(&mut in_tx, "BEGIN");
    assert!(in_tx);
}

#[test]
fn transaction_commit_clears_in_transaction() {
    let mut in_tx = true;
    apply_transaction_state(&mut in_tx, "COMMIT");
    assert!(!in_tx);
}

#[test]
fn transaction_rollback_clears_in_transaction() {
    let mut in_tx = true;
    apply_transaction_state(&mut in_tx, "ROLLBACK");
    assert!(!in_tx);
}

#[test]
fn transaction_begin_case_insensitive() {
    for sql in &["begin", "BEGIN", "Begin", "bEgIn"] {
        let mut in_tx = false;
        apply_transaction_state(&mut in_tx, sql);
        assert!(in_tx, "expected in_transaction=true for '{sql}'");
    }
}

#[test]
fn transaction_commit_case_insensitive() {
    for sql in &["commit", "COMMIT", "Commit"] {
        let mut in_tx = true;
        apply_transaction_state(&mut in_tx, sql);
        assert!(!in_tx, "expected in_transaction=false for '{sql}'");
    }
}

#[test]
fn transaction_rollback_case_insensitive() {
    for sql in &["rollback", "ROLLBACK", "Rollback"] {
        let mut in_tx = true;
        apply_transaction_state(&mut in_tx, sql);
        assert!(!in_tx, "expected in_transaction=false for '{sql}'");
    }
}

#[test]
fn transaction_start_transaction_variant() {
    let mut in_tx = false;
    apply_transaction_state(&mut in_tx, "START TRANSACTION");
    assert!(in_tx);
}

#[test]
fn transaction_begin_with_leading_whitespace() {
    let mut in_tx = false;
    apply_transaction_state(&mut in_tx, "  BEGIN  ");
    assert!(in_tx);
}

#[test]
fn transaction_commit_with_leading_whitespace() {
    let mut in_tx = true;
    apply_transaction_state(&mut in_tx, "  COMMIT  ");
    assert!(!in_tx);
}

#[test]
fn transaction_full_cycle() {
    let mut in_tx = false;
    apply_transaction_state(&mut in_tx, "BEGIN");
    assert!(in_tx);
    apply_transaction_state(&mut in_tx, "COMMIT");
    assert!(!in_tx);
    apply_transaction_state(&mut in_tx, "START TRANSACTION");
    assert!(in_tx);
    apply_transaction_state(&mut in_tx, "ROLLBACK");
    assert!(!in_tx);
}

#[test]
fn transaction_unknown_sql_does_not_change_state() {
    let mut in_tx = false;
    apply_transaction_state(&mut in_tx, "SELECT 1");
    assert!(!in_tx);

    let mut in_tx = true;
    apply_transaction_state(&mut in_tx, "INSERT INTO t VALUES (1)");
    assert!(in_tx);
}

fn transaction_verbs() {
    assert_eq!(transaction_verb(" begin immediate"), TransactionVerb::Begin);
    assert_eq!(transaction_verb("start transaction"), TransactionVerb::Begin);
    assert_eq!(transaction_verb("Commit"), TransactionVerb::Commit);
    assert_eq!(transaction_verb("rollback to x"), TransactionVerb::Rollback);
    assert_eq!(transaction_verb("SAVEPOINT x"), TransactionVerb::Other);
}

#[test]
fn handler_initial_state() {
    let handler = handler();
    assert!(!handler.session.as_ref().unwrap().in_transaction);
    assert!(handler.stmts.is_empty());
    assert_eq!(handler.next_stmt_id, 1);
    assert!(!handler.must_authenticate());
}

#[test]
fn param_conversion_null() {
    assert_eq!(param_to_value(ParamInner::Null), Value::Null);
}

#[test]
fn param_conversion_positive_int() {
    assert_eq!(param_to_value(ParamInner::Int(42)), Value::Integer(42));
}

#[test]
fn param_conversion_negative_int() {
    assert_eq!(param_to_value(ParamInner::Int(-100)), Value::Integer(-100));
}

#[test]
fn param_conversion_zero_int() {
    assert_eq!(param_to_value(ParamInner::Int(0)), Value::Integer(0));
}

#[test]
fn param_conversion_uint() {
    assert_eq!(param_to_value(ParamInner::UInt(255)), Value::Integer(255));
}

#[test]
fn param_conversion_uint_large() {
    let val = u64::MAX / 2;
    assert_eq!(param_to_value(ParamInner::UInt(val)), Value::Integer(val as i64));
    assert_eq!(param_to_value(ParamInner::UInt(u64::MAX)), Value::Integer(-1));
}

#[test]
fn param_conversion_double() {
    assert_eq!(param_to_value(ParamInner::Double(double(2.5))), Value::Float(double(2.5)));
}

#[test]
fn param_conversion_double_negative() {
    assert_eq!(param_to_value(ParamInner::Double(double(-0.5))), Value::Float(double(-0.5)));
}

#[test]
fn param_conversion_utf8_bytes() {
    assert_eq!(
        param_to_value(ParamInner::Bytes(b"hello world".to_vec())),
        Value::Text("hello world".to_string())
    );
}

#[test]
fn param_conversion_non_utf8_bytes() {
    assert_eq!(
        param_to_value(ParamInner::Bytes(vec![0xFF, 0xFE, 0x00, 0x80])),
        Value::Blob(vec![0xFF, 0xFE, 0x00, 0x80])
    );
}

#[test]
fn param_conversion_empty_bytes() {
    assert_eq!(param_to_value(ParamInner::Bytes(vec![])), Value::Text(String::new()));
}

#[test]
fn param_conversion_date_bytes() {
    assert_eq!(
        param_to_value(ParamInner::Date(b"2024-01-15".to_vec())),
        Value::Text("2024-01-15".to_string())
    );
}

#[test]
fn param_conversion_time_bytes() {
    assert_eq!(
        param_to_value(ParamInner::Time(b"12:30:00".to_vec())),
        Value::Text("12:30:00".to_string())
    );
}

#[test]
fn param_conversion_datetime_bytes() {
    assert_eq!(
        param_to_value(ParamInner::Datetime(b"2024-01-15 12:30:00".to_vec())),
        Value::Text("2024-01-15 12:30:00".to_string())
    );
    assert_eq!(
        param_to_value(ParamInner::Datetime(vec![0x41, 0xFF])),
        Value::Text("A\u{FFFD}".to_string())
    );
}

fn commands_are_denied_before_authentication() {
    let mut handler = LiteWireHandler::<u8>::new_authenticating([0x41; 20]);
    assert!(matches!(handler.on_prepare(Ok(vec![])), Preparing::Refuse(_)));
    assert!(handler.on_query(Ok(vec![])).is_err());
    assert!(handler.on_init().is_err());
    let e = handler.on_execute(1).unwrap_err();
    assert!(matches!(e.kind, ErrorKind::ER_ACCESS_DENIED_ERROR));
    assert_eq!(e.message, "Access denied: connection is not authenticated");
}

fn session_is_installed_once() {
    let mut handler = LiteWireHandler::<u8>::new_authenticating([0x41; 20]);
    assert!(!handler.authenticated(None));
    assert!(handler.session.is_none());
    assert!(handler.authenticated(Some(Session::new(1u8, Dialect::MySQL))));
    assert!(!handler.authenticated(Some(Session::new(2u8, Dialect::MySQL))));
    assert_eq!(handler.session.as_ref().unwrap().conn, 1);
    assert!(handler.on_init().is_ok());
}

fn fixed_salt_of_a_connection_without_a_challenge() {
    assert_eq!(handler().salt().to_vec(), b";X,po_k}>o6^Wz!/kM}N".to_vec());
}

fn prepared_statement_is_described_run_and_closed() {
    let mut handler = handler();
    let prepared = match handler.on_prepare(Ok(vec![sql("SELECT ?, ?", StatementKind::Query)])) {
        Preparing::Describe(p) => p,
        other => panic!("expected a description, got {other:?}"),
    };
    let columns = vec![
        Column { name: "a".into(), decltype: Some("INT".into()) },
        Column { name: "b".into(), decltype: None },
    ];
    let reply = handler.register(prepared, Some(Ok(columns))).unwrap();
    assert_eq!(reply.id, 1);
    assert_eq!(reply.params.len(), 2);
    assert_eq!(reply.params[0].name, "?");
    assert_eq!(reply.params[0].coltype, ColumnType::MYSQL_TYPE_VAR_STRING);
    assert_eq!(reply.columns[0].coltype, ColumnType::MYSQL_TYPE_LONGLONG);
    assert_eq!(reply.columns[1].coltype, ColumnType::MYSQL_TYPE_VAR_STRING);
    match handler.on_execute(1).unwrap() {
        Work::Query { sql, bind, count } => {
            assert_eq!(sql, "SELECT ?, ?");
            assert!(bind);
            assert!(count.is_none());
        }
        other => panic!("expected a query, got {other:?}"),
    }
    handler.on_close(1);
    let e = handler.on_execute(1).unwrap_err();
    assert!(matches!(e.kind, ErrorKind::ER_UNKNOWN_STMT_HANDLER));
    assert_eq!(e.message, "unknown statement id: 1");
}

fn statement_without_columns_needs_no_description() {
    let handler = handler();
    let p = handler.on_prepare(Ok(vec![sql("INSERT INTO t VALUES (?)", StatementKind::Mutation)]));
    assert!(matches!(p, Preparing::Ready(_)));
    let p = handler.on_prepare(Ok(vec![]));
    assert!(matches!(p, Preparing::Ready(_)));
    match handler.on_prepare(Err(TranslateError::Failed("bad".into()))) {
        Preparing::Refuse(e) => {
            assert!(matches!(e.kind, ErrorKind::ER_PARSE_ERROR));
            assert_eq!(e.message, "bad");
        }
        other => panic!("expected a refusal, got {other:?}"),
    }
}

fn failed_description_describes_no_columns() {
    let mut handler = handler();
    let p = Prepared {
        sqlite_sql: "SELECT 1".into(),
        kind: StatementKind::Query,
        special: Special::Nothing,
    };
    let failed = Some(Err(BackendError::Other("x".into())));
    assert!(handler.register(p, failed).unwrap().columns.is_empty());
}

fn prepared_statements_are_capped() {
    let mut handler = handler();
    for i in 0..MAX_PREPARED_STMTS_PER_CONN {
        let p = Prepared {
            sqlite_sql: String::new(),
            kind: StatementKind::Other,
            special: Special::Nothing,
        };
        assert_eq!(handler.register(p, None).unwrap().id as usize, i + 1);
    }
    let p = Prepared {
        sqlite_sql: String::new(),
        kind: StatementKind::Other,
        special: Special::Nothing,
    };
    let e = handler.register(p, None).unwrap_err();
    assert!(matches!(e.kind, ErrorKind::ER_MAX_PREPARED_STMT_COUNT_REACHED));
    assert_eq!(
        e.message,
        "Can't create more than 1024 prepared statements on this connection"
    );
    handler.on_close(5);
    let p = Prepared {
        sqlite_sql: String::new(),
        kind: StatementKind::Other,
        special: Special::Nothing,
    };
    assert_eq!(handler.register(p, None).unwrap().id, 1025);
}

fn pending_reset_drops_statements_and_the_transaction() {
    let mut handler = handler();
    let p = Prepared {
        sqlite_sql: "SELECT 1".into(),
        kind: StatementKind::Query,
        special: Special::Nothing,
    };
    handler.register(p, None).unwrap();
    handler.session.as_mut().unwrap().in_transaction = true;
    assert!(!handler.apply_pending_reset(false));
    assert_eq!(handler.stmts.len(), 1);
    assert!(handler.apply_pending_reset(true));
    assert!(handler.stmts.is_empty());
    handler.rolled_back();
    assert!(!handler.session.as_ref().unwrap().in_transaction);
    assert!(!handler.apply_pending_reset(true));
}

fn replies_of_both_protocols() {
    let noop = SessionOk { affected_rows: 0, last_insert_id: 0, in_transaction: true, noop: true };
    match query_reply(Ok(SessionResult::Done(noop))) {
        Reply::Done(ok) => assert_eq!(ok.status_flags, 0),
        other => panic!("expected an OK, got {other:?}"),
    }
    match execute_reply(Ok(SessionResult::Done(noop))) {
        Reply::Done(ok) => assert_eq!(ok.status_flags, SERVER_STATUS_IN_TRANS),
        other => panic!("expected an OK, got {other:?}"),
    }
    let done = SessionOk { affected_rows: 3, last_insert_id: 9, in_transaction: true, noop: false };
    match query_reply(Ok(SessionResult::Done(done))) {
        Reply::Done(ok) => {
            assert_eq!((ok.affected_rows, ok.last_insert_id), (3, 9));
            assert_eq!(ok.status_flags, SERVER_STATUS_IN_TRANS);
        }
        other => panic!("expected an OK, got {other:?}"),
    }
}

fn session_errors_reach_the_client_with_their_code() {
    let e = map_backend_err(&BackendError::Sqlite("UNIQUE constraint failed: t.a".into()));
    let reply = session_error_reply(&e);
    assert!(matches!(reply.kind, ErrorKind::ER_DUP_ENTRY));
    assert_eq!(
        reply.message,
        "Duplicate entry '<unknown>' for key 't.a' \
         (SQLite error: UNIQUE constraint failed: t.a)"
    );
    match &e {
        SessionError::Db { code, message, .. } => {
            assert_eq!(*code, 1062);
            assert_eq!(&reply.message, message);
        }
        other => panic!("expected a database error, got {other:?}"),
    }
    let e = SessionError::Translate(TranslateError::Unsupported("no".into()));
    assert!(matches!(session_error_reply(&e).kind, ErrorKind::ER_PARSE_ERROR));
}

fn column_types_fall_back_to_the_first_value() {
    let rs = ResultSet {
        columns: vec![
            Column { name: "a".into(), decltype: None },
            Column { name: "b".into(), decltype: Some("TEXT".into()) },
            Column { name: "c".into(), decltype: None },
        ],
        rows: vec![
            vec![Value::Null, Value::Integer(1), Value::Null],
            vec![Value::Integer(4), Value::Integer(1), Value::Null],
        ],
    };
    let infos = result_columns(&rs);
    assert_eq!(infos[0].coltype, ColumnType::MYSQL_TYPE_LONGLONG);
    assert_eq!(infos[1].coltype, ColumnType::MYSQL_TYPE_VAR_STRING);
    assert_eq!(infos[2].coltype, ColumnType::MYSQL_TYPE_VAR_STRING);
    assert_eq!(infos[0].name, "a");
}

fn placeholders_are_counted() {
    assert_eq!(param_count("SELECT ?, '?', x"), 2);
    assert_eq!(param_count(""), 0);
}

fn connection_over_the_limit_is_refused_with_1040() {
    let packet = too_many_packet(2);
    let text = b"Too many connections (litewire max_connections=2)";
    assert_eq!(packet[0] as usize, 3 + text.len());
    assert_eq!(&packet[1..5], &[0, 0, 0, 0xff]);
    assert_eq!(u16::from_le_bytes([packet[5], packet[6]]), 1040);
    assert_eq!(&packet[7..], text);

    let limiter = ConnectionLimiter::new(1);
    let first = limiter.try_acquire();
    assert!(matches!(seat(&limiter, first), Seating::Serve(_)));
    match seat(&limiter, None) {
        Seating::Refuse(p) => assert_eq!(p, too_many_packet(1)),
        other => panic!("expected a refusal, got {other:?}"),
    }
}

fn change_user_is_allowed_only_for_one_backend() {
    assert!(allow_change_user(BackendSource::Fixed));
    assert!(!allow_change_user(BackendSource::PerConnection));
}

#[test]
fn types_and_verbs() {
    type_of_a_value();
    transaction_verbs();
    column_types_fall_back_to_the_first_value();
    placeholders_are_counted();
}

#[test]
fn handshakes() {
    digests_are_equal_only_in_every_byte();
    scramble_is_printable();
    commands_are_denied_before_authentication();
    session_is_installed_once();
    fixed_salt_of_a_connection_without_a_challenge();
    connection_over_the_limit_is_refused_with_1040();
    change_user_is_allowed_only_for_one_backend();
}

#[test]
fn prepared_statements_of_a_connection() {
    prepared_statement_is_described_run_and_closed();
    statement_without_columns_needs_no_description();
    failed_description_describes_no_columns();
    prepared_statements_are_capped();
    pending_reset_drops_statements_and_the_transaction();
}

#[test]
fn replies() {
    replies_of_both_protocols();
    session_errors_reach_the_client_with_their_code();
}
