use litewire::backend::{BackendError, Column, Double, ExecuteResult, ResultSet, Value};
use litewire::postgres::error_map::classify;
use litewire::postgres::handler::{
    do_extended, do_mutation, do_select, exec_query, is_described, pg_backend_error, pg_error,
    probe_columns, probed, translate_sql, Call, Next, Probe, Response, SimpleQuery, Step,
};
use litewire::postgres::row::{
    encode_row, extract_params, BoundParameters, DataRow, FieldFormat, FieldInfo, Format,
};
use litewire::postgres::types::{sqlite_to_pg_type, value_to_pg_type, Type};
use litewire::statement::{StatementKind, Translated};

fn double(f: f64) -> Double {
    Double { bits: f.to_bits(), text: f.to_string(), whole: f as i64 }
}

#[test]
fn unique_maps_to_23505() {
    let e = classify("UNIQUE constraint failed: users.email");
    assert_eq!(e.sqlstate, "23505");
}

#[test]
fn primary_key_maps_to_23505() {
    let e = classify("PRIMARY KEY constraint failed: users.id");
    assert_eq!(e.sqlstate, "23505");
}

#[test]
fn foreign_key_maps_to_23503() {
    assert_eq!(classify("FOREIGN KEY constraint failed").sqlstate, "23503");
}

#[test]
fn not_null_maps_to_23502() {
    assert_eq!(classify("NOT NULL constraint failed: users.name").sqlstate, "23502");
}

#[test]
fn check_constraint_maps_to_23514() {
    assert_eq!(classify("CHECK constraint failed: users_age_check").sqlstate, "23514");
}

#[test]
fn busy_maps_to_55p03() {
    assert_eq!(classify("database is locked").sqlstate, "55P03");
}

#[test]
fn readonly_maps_to_25006() {
    assert_eq!(classify("attempt to write a readonly database").sqlstate, "25006");
}

#[test]
fn unknown_maps_to_xx000() {
    assert_eq!(classify("something random").sqlstate, "XX000");
}

#[test]
fn none_defaults_to_text() {
    assert_eq!(sqlite_to_pg_type(None), Type::TEXT);
}

#[test]
fn integer_maps_to_int8() {
    assert_eq!(sqlite_to_pg_type(Some("INTEGER")), Type::INT8);
}

#[test]
fn int_maps_to_int8() {
    assert_eq!(sqlite_to_pg_type(Some("INT")), Type::INT8);
}

#[test]
fn bigint_maps_to_int8() {
    assert_eq!(sqlite_to_pg_type(Some("BIGINT")), Type::INT8);
}

#[test]
fn real_maps_to_float8() {
    assert_eq!(sqlite_to_pg_type(Some("REAL")), Type::FLOAT8);
}

#[test]
fn float_maps_to_float8() {
    assert_eq!(sqlite_to_pg_type(Some("FLOAT")), Type::FLOAT8);
}

#[test]
fn double_maps_to_float8() {
    assert_eq!(sqlite_to_pg_type(Some("DOUBLE")), Type::FLOAT8);
}

#[test]
fn text_maps_to_text() {
    assert_eq!(sqlite_to_pg_type(Some("TEXT")), Type::TEXT);
}

#[test]
fn varchar_maps_to_text() {
    assert_eq!(sqlite_to_pg_type(Some("VARCHAR")), Type::TEXT);
}

#[test]
fn char_maps_to_text() {
    assert_eq!(sqlite_to_pg_type(Some("CHAR")), Type::TEXT);
}

#[test]
fn clob_maps_to_text() {
    assert_eq!(sqlite_to_pg_type(Some("CLOB")), Type::TEXT);
}

#[test]
fn blob_maps_to_bytea() {
    assert_eq!(sqlite_to_pg_type(Some("BLOB")), Type::BYTEA);
}

#[test]
fn bytea_maps_to_bytea() {
    assert_eq!(sqlite_to_pg_type(Some("BYTEA")), Type::BYTEA);
}

#[test]
fn bool_maps_to_bool() {
    assert_eq!(sqlite_to_pg_type(Some("BOOL")), Type::BOOL);
}

#[test]
fn boolean_maps_to_bool() {
    assert_eq!(sqlite_to_pg_type(Some("BOOLEAN")), Type::BOOL);
}

#[test]
fn lowercase_integer() {
    assert_eq!(sqlite_to_pg_type(Some("integer")), Type::INT8);
}

#[test]
fn mixed_case_integer() {
    assert_eq!(sqlite_to_pg_type(Some("Integer")), Type::INT8);
}

#[test]
fn lowercase_real() {
    assert_eq!(sqlite_to_pg_type(Some("real")), Type::FLOAT8);
}

#[test]
fn lowercase_blob() {
    assert_eq!(sqlite_to_pg_type(Some("blob")), Type::BYTEA);
}

#[test]
fn unknown_type_defaults_to_text() {
    assert_eq!(sqlite_to_pg_type(Some("FOOBAR")), Type::TEXT);
}

#[test]
fn empty_string_defaults_to_text() {
    assert_eq!(sqlite_to_pg_type(Some("")), Type::TEXT);
}

fn type_ids_are_those_of_postgresql() {
    for (t, outside) in [
        (Type::BOOL, pgwire::api::Type::BOOL),
        (Type::BYTEA, pgwire::api::Type::BYTEA),
        (Type::INT8, pgwire::api::Type::INT8),
        (Type::INT2, pgwire::api::Type::INT2),
        (Type::INT4, pgwire::api::Type::INT4),
        (Type::TEXT, pgwire::api::Type::TEXT),
        (Type::FLOAT4, pgwire::api::Type::FLOAT4),
        (Type::FLOAT8, pgwire::api::Type::FLOAT8),
        (Type::Other(1043), pgwire::api::Type::VARCHAR),
    ] {
        assert_eq!(t.oid(), outside.oid());
        assert_eq!(Type::from_oid(outside.oid()), t);
    }
}

#[test]
fn value_to_pg_type_null() {
    assert_eq!(value_to_pg_type(&Value::Null), Type::TEXT);
}

#[test]
fn value_to_pg_type_integer() {
    assert_eq!(value_to_pg_type(&Value::Integer(42)), Type::INT8);
}

#[test]
fn value_to_pg_type_float() {
    assert_eq!(value_to_pg_type(&Value::Float(double(2.5))), Type::FLOAT8);
}

#[test]
fn value_to_pg_type_text() {
    assert_eq!(value_to_pg_type(&Value::Text("hello".into())), Type::TEXT);
}

#[test]
fn value_to_pg_type_blob() {
    assert_eq!(value_to_pg_type(&Value::Blob(vec![1, 2, 3])), Type::BYTEA);
}

fn encode_as(val: Value, datatype: Type, format: FieldFormat) -> Vec<u8> {
    let schema = [FieldInfo { name: "col".into(), datatype, format }];
    let row: DataRow = encode_row(&[val], &schema);
    assert_eq!(row.field_count, 1);
    row.data
}

fn encode_single(val: Value, datatype: Type) -> Vec<u8> {
    encode_as(val, datatype, FieldFormat::Binary)
}

fn cell(payload: &[u8]) -> Vec<u8> {
    let mut c = (payload.len() as i32).to_be_bytes().to_vec();
    c.extend_from_slice(payload);
    c
}

#[test]
fn encode_null() {
    assert_eq!(encode_single(Value::Null, Type::TEXT), vec![255; 4]);
}

#[test]
fn encode_integer() {
    assert_eq!(encode_single(Value::Integer(42), Type::INT8), cell(&42i64.to_be_bytes()));
}

#[test]
fn encode_negative_integer() {
    assert_eq!(encode_single(Value::Integer(-100), Type::INT8), cell(&(-100i64).to_be_bytes()));
}

#[test]
fn encode_float() {
    for f in [2.5f64, -2.5, 0.0, -0.0, f64::MAX] {
        assert_eq!(
            encode_single(Value::Float(double(f)), Type::FLOAT8),
            cell(&f.to_be_bytes())
        );
    }
}

#[test]
fn encode_text() {
    assert_eq!(
        encode_single(Value::Text("hello world".into()), Type::TEXT),
        cell(b"hello world")
    );
}

#[test]
fn encode_empty_text() {
    assert_eq!(encode_single(Value::Text(String::new()), Type::TEXT), cell(b""));
}

#[test]
fn encode_blob() {
    let b = vec![0xDE, 0xAD, 0xBE, 0xEF];
    assert_eq!(encode_single(Value::Blob(b.clone()), Type::BYTEA), cell(&b));
}

#[test]
fn encode_empty_blob() {
    assert_eq!(encode_single(Value::Blob(vec![]), Type::BYTEA), cell(b""));
}

#[test]
fn encode_bool_true() {
    assert_eq!(encode_single(Value::Integer(1), Type::BOOL), cell(&[1]));
}

#[test]
fn encode_bool_false() {
    assert_eq!(encode_single(Value::Integer(0), Type::BOOL), cell(&[0]));
}

#[test]
fn encode_bool_nonzero() {
    assert_eq!(encode_single(Value::Integer(42), Type::BOOL), cell(&[1]));
}

fn encode_as_text() {
    let t = |v, ty| encode_as(v, ty, FieldFormat::Text);
    assert_eq!(t(Value::Null, Type::INT8), vec![255; 4]);
    assert_eq!(t(Value::Integer(-7), Type::INT8), cell(b"-7"));
    assert_eq!(t(Value::Integer(3), Type::BOOL), cell(b"t"));
    assert_eq!(t(Value::Integer(0), Type::BOOL), cell(b"f"));
    assert_eq!(t(Value::Float(double(2.5)), Type::FLOAT8), cell(b"2.5"));
    assert_eq!(t(Value::Text("é".into()), Type::TEXT), cell("é".as_bytes()));
    assert_eq!(t(Value::Blob(vec![0xDE, 0x0A]), Type::BYTEA), cell(b"\\xde0a"));
}

fn encode_a_row_of_several_fields() {
    let field = |datatype, format| FieldInfo { name: "c".into(), datatype, format };
    let schema = [
        field(Type::INT8, FieldFormat::Binary),
        field(Type::TEXT, FieldFormat::Text),
        field(Type::BOOL, FieldFormat::Text),
        field(Type::TEXT, FieldFormat::Text),
    ];
    let row = encode_row(
        &[Value::Integer(1), Value::Null, Value::Integer(1)],
        &schema,
    );
    let mut expected = cell(&1i64.to_be_bytes());
    expected.extend(vec![255; 4]);
    expected.extend(cell(b"t"));
    assert_eq!(row, DataRow { data: expected, field_count: 3 });
}

fn portal(types: Vec<Type>, parameters: Vec<Option<Vec<u8>>>) -> BoundParameters {
    BoundParameters { types, format: Format::UnifiedBinary, parameters }
}

fn extract(types: Vec<Type>, parameters: Vec<Option<Vec<u8>>>) -> Vec<Value> {
    let floats: Vec<Option<Double>> = types
        .iter()
        .zip(&parameters)
        .map(|(t, p)| match (t, p) {
            (Type::FLOAT4, Some(b)) => {
                b.as_slice().try_into().ok().map(|b| double(f64::from(f32::from_be_bytes(b))))
            }
            (Type::FLOAT8, Some(b)) => {
                b.as_slice().try_into().ok().map(|b| double(f64::from_be_bytes(b)))
            }
            _ => None,
        })
        .collect();
    extract_params(&portal(types, parameters), &floats)
}

#[test]
fn extract_params_bool_true() {
    assert_eq!(extract(vec![Type::BOOL], vec![Some(vec![1])]), vec![Value::Integer(1)]);
}

#[test]
fn extract_params_bool_false() {
    assert_eq!(extract(vec![Type::BOOL], vec![Some(vec![0])]), vec![Value::Integer(0)]);
}

#[test]
fn extract_params_int2() {
    let bytes = 42_i16.to_be_bytes().to_vec();
    assert_eq!(extract(vec![Type::INT2], vec![Some(bytes)]), vec![Value::Integer(42)]);
}

#[test]
fn extract_params_int4() {
    let bytes = 1000_i32.to_be_bytes().to_vec();
    assert_eq!(extract(vec![Type::INT4], vec![Some(bytes)]), vec![Value::Integer(1000)]);
}

#[test]
fn extract_params_int8() {
    let bytes = i64::MAX.to_be_bytes().to_vec();
    assert_eq!(extract(vec![Type::INT8], vec![Some(bytes)]), vec![Value::Integer(i64::MAX)]);
}

#[test]
fn extract_params_int8_negative() {
    let bytes = (-99_i64).to_be_bytes().to_vec();
    assert_eq!(extract(vec![Type::INT8], vec![Some(bytes)]), vec![Value::Integer(-99)]);
}

fn extract_params_small_negatives() {
    let bytes = (-2_i16).to_be_bytes().to_vec();
    assert_eq!(extract(vec![Type::INT2], vec![Some(bytes)]), vec![Value::Integer(-2)]);
    let bytes = i32::MIN.to_be_bytes().to_vec();
    assert_eq!(
        extract(vec![Type::INT4], vec![Some(bytes)]),
        vec![Value::Integer(i64::from(i32::MIN))]
    );
}

#[test]
fn extract_params_float4() {
    let bytes = 2.5_f32.to_be_bytes().to_vec();
    assert_eq!(extract(vec![Type::FLOAT4], vec![Some(bytes)]), vec![Value::Float(double(2.5))]);
}

#[test]
fn extract_params_float8() {
    let bytes = 2.5_f64.to_be_bytes().to_vec();
    assert_eq!(extract(vec![Type::FLOAT8], vec![Some(bytes)]), vec![Value::Float(double(2.5))]);
}

#[test]
fn extract_params_text() {
    assert_eq!(
        extract(vec![Type::TEXT], vec![Some(b"hello".to_vec())]),
        vec![Value::Text("hello".into())]
    );
}

#[test]
fn extract_params_bytea() {
    let data = vec![0xCA, 0xFE, 0xBA, 0xBE];
    assert_eq!(extract(vec![Type::BYTEA], vec![Some(data.clone())]), vec![Value::Blob(data)]);
}

#[test]
fn extract_params_null() {
    assert_eq!(extract(vec![Type::TEXT], vec![None]), vec![Value::Null]);
}

#[test]
fn extract_params_null_int() {
    assert_eq!(extract(vec![Type::INT8], vec![None]), vec![Value::Null]);
}

#[test]
fn extract_params_unknown_type_defaults_to_text() {
    let varchar = Type::from_oid(pgwire::api::Type::VARCHAR.oid());
    assert_eq!(
        extract(vec![varchar], vec![Some(b"fallback".to_vec())]),
        vec![Value::Text("fallback".into())]
    );
}

#[test]
fn extract_params_multiple() {
    assert_eq!(
        extract(
            vec![Type::INT8, Type::TEXT, Type::BOOL],
            vec![
                Some(7_i64.to_be_bytes().to_vec()),
                Some(b"world".to_vec()),
                Some(vec![1]),
            ],
        ),
        vec![Value::Integer(7), Value::Text("world".into()), Value::Integer(1)]
    );
}

#[test]
fn extract_params_empty() {
    assert!(extract(vec![], vec![]).is_empty());
}

fn extract_params_of_the_wrong_length_are_null() {
    assert_eq!(extract(vec![Type::BOOL], vec![Some(vec![1, 0])]), vec![Value::Null]);
    assert_eq!(extract(vec![Type::INT2], vec![Some(vec![1])]), vec![Value::Null]);
    assert_eq!(extract(vec![Type::INT4], vec![Some(vec![0; 5])]), vec![Value::Null]);
    assert_eq!(extract(vec![Type::INT8], vec![Some(vec![])]), vec![Value::Null]);
    assert_eq!(extract(vec![Type::FLOAT8], vec![Some(vec![0; 4])]), vec![Value::Null]);
    assert_eq!(extract(vec![Type::TEXT], vec![Some(vec![0xFF])]), vec![Value::Null]);
}

fn undeclared_parameters_are_text() {
    let p = portal(vec![], vec![Some(b"x".to_vec())]);
    assert_eq!(extract_params(&p, &[None]), vec![Value::Text("x".into())]);
}

fn formats_of_fields() {
    let f = Format::Individual(vec![1, 0, 7]);
    assert_eq!(f.format_for(0), FieldFormat::Binary);
    assert_eq!(f.format_for(1), FieldFormat::Text);
    assert_eq!(f.format_for(2), FieldFormat::Text);
    assert!(f.covers(3) && !f.covers(4));
    assert_eq!(Format::UnifiedText.format_for(9), FieldFormat::Text);
    assert_eq!(Format::UnifiedBinary.format_for(9), FieldFormat::Binary);
    assert!(Format::UnifiedText.covers(9));
    assert_eq!((FieldFormat::Text.value(), FieldFormat::Binary.value()), (0, 1));
}

#[test]
fn pg_error_produces_user_error() {
    let info = pg_error("something went wrong");
    assert_eq!(info.severity, "ERROR");
    assert_eq!(info.code, "XX000");
    assert_eq!(info.message, "something went wrong");
}

#[test]
fn pg_error_empty_message() {
    assert_eq!(pg_error("").message, "");
}

fn pg_backend_error_is_classified() {
    let info = pg_backend_error(&BackendError::Sqlite("UNIQUE constraint failed: t.a".into()));
    assert_eq!(info.severity, "ERROR");
    assert_eq!(info.code, "23505");
    assert_eq!(info.message, "SQLite error: UNIQUE constraint failed: t.a");
}

fn columns() -> Vec<Column> {
    vec![
        Column { name: "id".into(), decltype: Some("INTEGER".into()) },
        Column { name: "sum".into(), decltype: None },
    ]
}

fn select_infers_types_from_the_first_row() {
    let rs = ResultSet {
        columns: columns(),
        rows: vec![
            vec![Value::Integer(1), Value::Float(double(1.5))],
            vec![Value::Integer(2), Value::Null],
        ],
    };
    match do_select(Ok(rs), &Format::UnifiedText).unwrap() {
        Response::Query { fields, rows } => {
            assert_eq!(fields[0].name, "id");
            assert_eq!(fields[0].datatype, Type::INT8);
            assert_eq!(fields[1].datatype, Type::FLOAT8);
            assert_eq!(fields[1].format, FieldFormat::Text);
            assert_eq!(rows.len(), 2);
            let mut expected = cell(b"1");
            expected.extend(cell(b"1.5"));
            assert_eq!(rows[0].data, expected);
            assert_eq!(rows[0].field_count, 2);
        }
        other => panic!("expected rows, got {other:?}"),
    }
    let e = do_select(Err(BackendError::Sqlite("x".into())), &Format::UnifiedText).unwrap_err();
    assert_eq!(e.code, "XX000");
}

fn expression_without_rows_is_text() {
    let rs = ResultSet { columns: columns(), rows: vec![] };
    match do_select(Ok(rs), &Format::UnifiedBinary).unwrap() {
        Response::Query { fields, rows } => {
            assert_eq!(fields[1].datatype, Type::TEXT);
            assert_eq!(fields[1].format, FieldFormat::Binary);
            assert!(rows.is_empty());
        }
        other => panic!("expected rows, got {other:?}"),
    }
}

fn done(sql: &str, kind: StatementKind) -> Response {
    let ok = ExecuteResult { affected_rows: 3, last_insert_rowid: None };
    do_mutation(sql, kind, Ok(ok)).unwrap()
}

fn tag(r: &Response) -> (&'static str, Option<usize>) {
    match r {
        Response::Execution(t) | Response::TransactionStart(t) | Response::TransactionEnd(t) => {
            (t.command, t.rows)
        }
        other => panic!("expected a tag, got {other:?}"),
    }
}

fn tags_of_statements() {
    for (sql, kind, command, rows) in [
        ("insert into t values (1)", StatementKind::Mutation, "INSERT", Some(3)),
        (" UPDATE t SET a=1", StatementKind::Mutation, "UPDATE", Some(3)),
        ("DELETE FROM t", StatementKind::Mutation, "DELETE", Some(3)),
        ("REPLACE INTO t VALUES (1)", StatementKind::Mutation, "OK", Some(3)),
        ("CREATE TABLE t (a)", StatementKind::Ddl, "CREATE", None),
        ("drop table t", StatementKind::Ddl, "DROP", None),
        ("ALTER TABLE t ADD b", StatementKind::Ddl, "ALTER", None),
        ("TRUNCATE t", StatementKind::Ddl, "OK", None),
        ("INSERT", StatementKind::Other, "OK", None),
    ] {
        let r = done(sql, kind);
        assert!(matches!(r, Response::Execution(_)));
        assert_eq!(tag(&r), (command, rows), "{sql}");
    }
}

fn transactions_have_responses_of_their_own() {
    let r = done("begin", StatementKind::Transaction);
    assert!(matches!(r, Response::TransactionStart(_)));
    assert_eq!(tag(&r), ("BEGIN", None));
    let r = done("START TRANSACTION", StatementKind::Transaction);
    assert_eq!(tag(&r), ("BEGIN", None));
    let r = done("COMMIT", StatementKind::Transaction);
    assert!(matches!(r, Response::TransactionEnd(_)));
    assert_eq!(tag(&r), ("COMMIT", None));
    let r = done("Rollback", StatementKind::Transaction);
    assert!(matches!(r, Response::TransactionEnd(_)));
    assert_eq!(tag(&r), ("ROLLBACK", None));
    let r = done("SAVEPOINT x", StatementKind::Transaction);
    assert!(matches!(r, Response::Execution(_)));
    assert_eq!(tag(&r), ("OK", None));
}

fn failed_statement_reports_its_cause() {
    let e = do_mutation(
        "BEGIN",
        StatementKind::Transaction,
        Err(BackendError::Sqlite("database is locked".into())),
    )
    .unwrap_err();
    assert_eq!(e.code, "55P03");
}

fn only_queries_ask_for_rows() {
    assert_eq!(exec_query("S".into(), StatementKind::Query), Call::Query("S".into()));
    assert_eq!(
        exec_query("S".into(), StatementKind::Ddl),
        Call::Execute("S".into(), StatementKind::Ddl)
    );
}

fn extended_query_of_nothing_is_ok() {
    match do_extended(String::new(), StatementKind::Other) {
        Step::Respond(r) => assert_eq!(tag(&r), ("OK", None)),
        other => panic!("expected a response, got {other:?}"),
    }
    assert_eq!(
        do_extended("SELECT 1".into(), StatementKind::Query),
        Step::Run(Call::Query("SELECT 1".into()))
    );
}

fn columns_are_probed_only_where_a_type_is_missing() {
    let typed = vec![Column { name: "id".into(), decltype: Some("INT".into()) }];
    match probe_columns("SELECT id FROM t", Ok(typed), &Format::UnifiedBinary) {
        Probe::Fields(fields) => assert_eq!(fields[0].datatype, Type::INT8),
        other => panic!("expected fields, got {other:?}"),
    }
    assert_eq!(
        probe_columns("SELECT 1 + 2", Ok(columns()), &Format::UnifiedBinary),
        Probe::Query("SELECT 1 + 2 LIMIT 1".into())
    );
    assert_eq!(
        probe_columns("x", Err(BackendError::Other("x".into())), &Format::UnifiedBinary),
        Probe::Fields(vec![])
    );
    let rs = ResultSet {
        columns: columns(),
        rows: vec![vec![Value::Integer(1), Value::Integer(2)]],
    };
    assert_eq!(probed(Ok(rs), &Format::UnifiedText)[1].datatype, Type::INT8);
    assert!(probed(Err(BackendError::Other("x".into())), &Format::UnifiedText).is_empty());
}

fn only_queries_are_described() {
    assert!(is_described("SELECT 1", StatementKind::Query));
    assert!(!is_described("", StatementKind::Query));
    assert!(!is_described("DELETE FROM t", StatementKind::Mutation));
}

fn first_translated_statement_counts() {
    assert_eq!(
        translate_sql(Ok(vec![
            (Translated::Metadata("SELECT 1".into()), StatementKind::Other),
            (Translated::Noop, StatementKind::Other),
        ])),
        Ok(("SELECT 1".to_string(), StatementKind::Query))
    );
    assert_eq!(
        translate_sql(Ok(vec![(Translated::Noop, StatementKind::Other)])),
        Ok((String::new(), StatementKind::Other))
    );
    assert_eq!(translate_sql(Ok(vec![])), Ok((String::new(), StatementKind::Other)));
    assert_eq!(translate_sql(Err("bad".into())), Err(pg_error("bad")));
}

fn simple_query_answers_each_statement() {
    let mut q = SimpleQuery::new(Ok(vec![
        (Translated::Noop, StatementKind::Other),
        (Translated::Sql("DELETE FROM t".into()), StatementKind::Mutation),
        (Translated::Sql(String::new()), StatementKind::Other),
        (Translated::Metadata("SELECT 1".into()), StatementKind::Query),
    ]))
    .unwrap();
    assert_eq!(q.next(), Next::Answered);
    assert_eq!(
        q.next(),
        Next::Run(Call::Execute("DELETE FROM t".into(), StatementKind::Mutation))
    );
    q.record(Ok(done("DELETE FROM t", StatementKind::Mutation)));
    assert_eq!(q.next(), Next::Answered);
    assert_eq!(q.next(), Next::Run(Call::Query("SELECT 1".into())));
    let rs = ResultSet { columns: vec![], rows: vec![] };
    q.record(do_select(Ok(rs), &Format::UnifiedText));
    assert_eq!(q.next(), Next::Done);
    let responses = q.finish().unwrap();
    assert_eq!(responses.len(), 4);
    assert_eq!(tag(&responses[0]), ("SET", None));
    assert_eq!(tag(&responses[1]), ("DELETE", Some(3)));
    assert_eq!(tag(&responses[2]), ("OK", None));
}

fn simple_query_stops_at_the_first_error() {
    let mut q = SimpleQuery::new(Ok(vec![
        (Translated::Sql("A".into()), StatementKind::Other),
        (Translated::Sql("B".into()), StatementKind::Other),
    ]))
    .unwrap();
    q.next();
    q.record(Err(pg_error("no")));
    assert_eq!(q.next(), Next::Done);
    assert_eq!(q.finish(), Err(pg_error("no")));
}

fn simple_query_of_nothing_is_ok() {
    let mut q = SimpleQuery::new(Ok(vec![])).unwrap();
    assert_eq!(q.next(), Next::Done);
    let responses = q.finish().unwrap();
    assert_eq!(responses.len(), 1);
    assert_eq!(tag(&responses[0]), ("OK", None));
    assert_eq!(SimpleQuery::new(Err("bad".into())).unwrap_err(), pg_error("bad"));
}

#[test]
fn rows_and_formats() {
    type_ids_are_those_of_postgresql();
    encode_as_text();
    encode_a_row_of_several_fields();
    formats_of_fields();
    select_infers_types_from_the_first_row();
    expression_without_rows_is_text();
}

#[test]
fn parameters_at_the_edges() {
    extract_params_small_negatives();
    extract_params_of_the_wrong_length_are_null();
    undeclared_parameters_are_text();
}

#[test]
fn responses() {
    pg_backend_error_is_classified();
    tags_of_statements();
    transactions_have_responses_of_their_own();
    failed_statement_reports_its_cause();
    only_queries_ask_for_rows();
}

#[test]
fn query_flows() {
    extended_query_of_nothing_is_ok();
    columns_are_probed_only_where_a_type_is_missing();
    only_queries_are_described();
    first_translated_statement_counts();
    simple_query_answers_each_statement();
    simple_query_stops_at_the_first_error();
    simple_query_of_nothing_is_ok();
}
