use base64::Engine;
use litewire::backend::hrana_client::{
    execute_response_to_result_set, hrana_error_to_backend, pipeline_request,
    response_value_to_backend, value_to_hrana, Health, HranaClient, Reply,
};
use litewire::backend::{BackendError, Column, Double, ExecuteResult, ResultSet, Value};
use litewire::hrana::http::{execute_result, execute_stmt, query_result, Call, Next, Pipeline};
use litewire::hrana::types::{
    ColResponse, ErrorResponse, ExecuteRequest, ExecuteResponse, HranaValue, PipelineRequest,
    PipelineResponse, ResponseValue, StmtRequest, StreamRequest, StreamResponse, StreamResult,
};

fn double(f: f64) -> Double {
    Double { bits: f.to_bits(), text: f.to_string(), whole: f as i64 }
}

fn stmt(sql: &str, args: Vec<HranaValue>) -> StmtRequest {
    StmtRequest { sql: sql.into(), args }
}

#[test]
fn null_to_backend() {
    let v = HranaValue::Null;
    assert!(matches!(v.to_backend_value(), Value::Null));
}

#[test]
fn integer_to_backend() {
    let v = HranaValue::Integer { value: "42".into() };
    assert!(matches!(v.to_backend_value(), Value::Integer(42)));
}

#[test]
fn integer_invalid_to_backend() {
    let v = HranaValue::Integer { value: "not_a_number".into() };
    assert!(matches!(v.to_backend_value(), Value::Integer(0)));
}

fn integer_texts_that_are_none() {
    for s in ["", "+", "-", " 1", "1 ", "9223372036854775808", "0x1"] {
        let v = HranaValue::Integer { value: s.into() };
        assert!(matches!(v.to_backend_value(), Value::Integer(0)), "{s:?}");
    }
    let v = HranaValue::Integer { value: "-9223372036854775808".into() };
    assert!(matches!(v.to_backend_value(), Value::Integer(i64::MIN)));
    let v = HranaValue::Integer { value: "+7".into() };
    assert!(matches!(v.to_backend_value(), Value::Integer(7)));
}

#[test]
fn float_to_backend() {
    let v = HranaValue::Float { value: double(2.72) };
    match v.to_backend_value() {
        Value::Float(d) => assert!((f64::from_bits(d.bits) - 2.72).abs() < f64::EPSILON),
        other => panic!("expected a float, got {other:?}"),
    }
}

#[test]
fn text_to_backend() {
    let v = HranaValue::Text { value: "hello".into() };
    assert!(matches!(v.to_backend_value(), Value::Text(s) if s == "hello"));
}

#[test]
fn blob_to_backend() {
    let data = vec![0xDE, 0xAD, 0xBE, 0xEF];
    let encoded = base64::engine::general_purpose::STANDARD.encode(&data);
    let v = HranaValue::Blob { base64: encoded };
    assert!(matches!(v.to_backend_value(), Value::Blob(b) if b == data));
}

#[test]
fn blob_invalid_base64_to_backend() {
    let v = HranaValue::Blob { base64: "!!!invalid!!!".into() };
    assert!(matches!(v.to_backend_value(), Value::Blob(b) if b.is_empty()));
}

fn base64_that_is_not_canonical_is_no_blob() {
    for s in ["3q0", "3q1=", "3q0==", "3q0=\n", "===="] {
        let v = HranaValue::Blob { base64: s.into() };
        assert!(matches!(v.to_backend_value(), Value::Blob(b) if b.is_empty()), "{s:?}");
    }
    let v = HranaValue::Blob { base64: "3q0=".into() };
    assert!(matches!(v.to_backend_value(), Value::Blob(b) if b == vec![0xDE, 0xAD]));
}

#[test]
fn null_from_backend() {
    let rv = ResponseValue::from_backend_value(&Value::Null);
    assert!(matches!(rv, ResponseValue::Null));
}

#[test]
fn integer_from_backend() {
    let rv = ResponseValue::from_backend_value(&Value::Integer(42));
    match rv {
        ResponseValue::Integer { value } => assert_eq!(value, "42"),
        other => panic!("expected Integer, got: {other:?}"),
    }
}

#[test]
fn float_from_backend() {
    let rv = ResponseValue::from_backend_value(&Value::Float(double(2.72)));
    match rv {
        ResponseValue::Float { value } => {
            assert!((f64::from_bits(value.bits) - 2.72).abs() < f64::EPSILON)
        }
        other => panic!("expected Float, got: {other:?}"),
    }
}

#[test]
fn text_from_backend() {
    let rv = ResponseValue::from_backend_value(&Value::Text("hello".into()));
    match rv {
        ResponseValue::Text { value } => assert_eq!(value, "hello"),
        other => panic!("expected Text, got: {other:?}"),
    }
}

#[test]
fn blob_from_backend_roundtrip() {
    let data = vec![0xDE, 0xAD, 0xBE, 0xEF];
    let rv = ResponseValue::from_backend_value(&Value::Blob(data.clone()));
    match rv {
        ResponseValue::Blob { base64: encoded } => {
            let decoded = base64::engine::general_purpose::STANDARD.decode(&encoded).unwrap();
            assert_eq!(decoded, data);
            assert_eq!(encoded, "3q2+7w==");
        }
        other => panic!("expected Blob, got: {other:?}"),
    }
}

fn every_blob_reads_back() {
    let mut data = Vec::new();
    for n in 0..70u8 {
        let rv = ResponseValue::from_backend_value(&Value::Blob(data.clone()));
        assert_eq!(response_value_to_backend(&rv), Value::Blob(data.clone()));
        data.push(n.wrapping_mul(37));
    }
}

#[test]
fn value_to_hrana_null() {
    assert!(matches!(value_to_hrana(&Value::Null), HranaValue::Null));
}

#[test]
fn value_to_hrana_integer() {
    match value_to_hrana(&Value::Integer(42)) {
        HranaValue::Integer { value } => assert_eq!(value, "42"),
        other => panic!("expected Integer, got: {other:?}"),
    }
}

#[test]
fn value_to_hrana_text() {
    match value_to_hrana(&Value::Text("hello".into())) {
        HranaValue::Text { value } => assert_eq!(value, "hello"),
        other => panic!("expected Text, got: {other:?}"),
    }
}

#[test]
fn value_to_hrana_blob_roundtrip() {
    let data = vec![0xDE, 0xAD, 0xBE, 0xEF];
    match value_to_hrana(&Value::Blob(data.clone())) {
        HranaValue::Blob { base64: b64 } => {
            let decoded = base64::engine::general_purpose::STANDARD.decode(&b64).unwrap();
            assert_eq!(decoded, data);
        }
        other => panic!("expected Blob, got: {other:?}"),
    }
}

#[test]
fn response_value_roundtrip() {
    let cases = vec![
        (Value::Null, ResponseValue::Null),
        (Value::Integer(123), ResponseValue::Integer { value: "123".into() }),
        (Value::Float(double(3.14)), ResponseValue::Float { value: double(3.14) }),
        (Value::Text("test".into()), ResponseValue::Text { value: "test".into() }),
    ];
    for (val, rv) in cases {
        let back = response_value_to_backend(&rv);
        assert_eq!(back, val, "roundtrip failed for {val:?}");
    }
}

#[test]
fn execute_response_to_result_set_maps_correctly() {
    let exec = ExecuteResponse {
        cols: vec![
            ColResponse { name: "id".into(), decltype: Some("INTEGER".into()) },
            ColResponse { name: "name".into(), decltype: Some("TEXT".into()) },
        ],
        rows: vec![
            vec![
                ResponseValue::Integer { value: "1".into() },
                ResponseValue::Text { value: "alice".into() },
            ],
            vec![
                ResponseValue::Integer { value: "2".into() },
                ResponseValue::Text { value: "bob".into() },
            ],
        ],
        affected_row_count: 0,
        last_insert_rowid: None,
    };
    let rs = execute_response_to_result_set(exec);
    assert_eq!(rs.columns.len(), 2);
    assert_eq!(rs.columns[0].name, "id");
    assert_eq!(rs.columns[0].decltype.as_deref(), Some("INTEGER"));
    assert_eq!(rs.rows.len(), 2);
    assert_eq!(rs.rows[0][0], Value::Integer(1));
    assert_eq!(rs.rows[0][1], Value::Text("alice".into()));
    assert_eq!(rs.rows[1][0], Value::Integer(2));
}

#[test]
fn hrana_sqlite_error() {
    let err = hrana_error_to_backend(ErrorResponse {
        message: "no such table: foo".into(),
        code: Some("SQLITE_ERROR".into()),
    });
    match err {
        BackendError::Sqlite(msg) => {
            assert!(msg.contains("no such table"));
            assert_eq!(msg, "[SQLITE_ERROR] no such table: foo");
        }
        other => panic!("expected Sqlite error, got: {other:?}"),
    }
}

#[test]
fn hrana_generic_error() {
    let err = hrana_error_to_backend(ErrorResponse {
        message: "something broke".into(),
        code: None,
    });
    match err {
        BackendError::Other(msg) => assert_eq!(msg, "something broke"),
        other => panic!("expected Other error, got: {other:?}"),
    }
    let err = hrana_error_to_backend(ErrorResponse {
        message: "x".into(),
        code: Some("HRANA".into()),
    });
    assert_eq!(err, BackendError::Other("x".into()));
}

fn client_urls() {
    let c = HranaClient::new("http://127.0.0.1:8081");
    assert_eq!(c.pipeline_url, "http://127.0.0.1:8081/v2/pipeline");
    assert_eq!(c.health_url, "http://127.0.0.1:8081/health");
    let c = HranaClient::new("http://h///");
    assert_eq!(c.pipeline_url, "http://h/v2/pipeline");
    assert_eq!(HranaClient::new("//").health_url, "/health");
}

#[test]
fn hrana_client_integration_health_check() {
    let c = HranaClient::new("http://h");
    assert!(c.health_check(Health::Status { success: true, status: "200 OK".into() }).is_ok());
    assert_eq!(
        c.health_check(Health::Status { success: false, status: "503 X".into() }),
        Err(BackendError::Other("health check returned 503 X".into()))
    );
    assert_eq!(
        c.health_check(Health::Failed("refused".into())),
        Err(BackendError::Other("health check failed: refused".into()))
    );
}

fn answered(results: Vec<StreamResult>) -> Reply {
    Reply::Response(PipelineResponse { baton: None, base_url: None, results })
}

fn client_failures() {
    let c = HranaClient::new("http://h");
    let other = |m: &str| Err(BackendError::Other(m.to_string()));
    assert_eq!(c.execute(Reply::Failed("refused".into())), other("HTTP request failed: refused"));
    assert_eq!(
        c.execute(Reply::Status { status: "500 X".into(), body: "oops".into() }),
        other("sqld returned 500 X: oops")
    );
    assert_eq!(
        c.execute(Reply::Unreadable("eof".into())),
        other("failed to parse response: eof")
    );
    assert_eq!(c.execute(answered(vec![])), other("empty pipeline response"));
    assert_eq!(
        c.execute(answered(vec![StreamResult::Done { response: StreamResponse::Close }])),
        other("unexpected close response")
    );
    let error = ErrorResponse { message: "m".into(), code: Some("SQLITE_BUSY".into()) };
    assert_eq!(
        c.execute(answered(vec![StreamResult::Error { error }])),
        Err(BackendError::Sqlite("[SQLITE_BUSY] m".into()))
    );
}

fn client_reads_what_a_server_wrote() {
    let c = HranaClient::new("http://h");
    let done = ExecuteResult { affected_rows: 2, last_insert_rowid: Some(-5) };
    let reply = answered(vec![execute_result(Ok(done))]);
    assert_eq!(c.execute(reply).unwrap(), done);

    let rs = ResultSet {
        columns: vec![
            Column { name: "a".into(), decltype: Some("INT".into()) },
            Column { name: "b".into(), decltype: None },
        ],
        rows: vec![
            vec![Value::Integer(i64::MIN), Value::Blob(vec![1, 2, 3])],
            vec![Value::Null, Value::Text("x".into())],
            vec![Value::Float(double(0.5)), Value::Blob(vec![])],
        ],
    };
    let back = c.query(answered(vec![query_result(Ok(rs.clone()))])).unwrap();
    assert_eq!(back.rows, rs.rows);
    assert_eq!(back.columns[0].name, "a");
    assert_eq!(back.columns[0].decltype.as_deref(), Some("INT"));
    assert_eq!(back.columns[1].decltype, None);
}

fn row_id_that_is_no_integer_is_none() {
    let c = HranaClient::new("http://h");
    let result = ExecuteResponse {
        cols: vec![],
        rows: vec![],
        affected_row_count: 1,
        last_insert_rowid: Some("abc".into()),
    };
    let reply =
        answered(vec![StreamResult::Done { response: StreamResponse::Execute { result } }]);
    assert_eq!(c.execute(reply).unwrap().last_insert_rowid, None);
}

fn request_of_one_statement() {
    let r = pipeline_request("SELECT ?", &[Value::Integer(3), Value::Null]);
    assert!(r.baton.is_none());
    assert_eq!(r.requests.len(), 1);
    match &r.requests[0] {
        StreamRequest::Execute(exec) => {
            assert_eq!(exec.stmt.sql, "SELECT ?");
            assert_eq!(exec.stmt.args.len(), 2);
            assert!(matches!(&exec.stmt.args[0], HranaValue::Integer { value } if value == "3"));
            assert!(matches!(exec.stmt.args[1], HranaValue::Null));
        }
        StreamRequest::Close => panic!("expected a statement"),
    }
}

fn queries_are_known_by_their_first_letters() {
    for sql in ["SELECT 1", "  pragma x", "Explain SELECT 1"] {
        assert!(matches!(execute_stmt(&stmt(sql, vec![])), Call::Query { .. }), "{sql}");
    }
    for sql in ["INSERT INTO t VALUES (1)", "WITH x AS (SELECT 1) SELECT 1", ""] {
        assert!(matches!(execute_stmt(&stmt(sql, vec![])), Call::Execute { .. }), "{sql}");
    }
}

#[test]
fn pipeline_with_params() {
    let args = vec![HranaValue::Integer { value: "1".into() }];
    match execute_stmt(&stmt("SELECT * FROM t WHERE id = ?", args)) {
        Call::Query { sql, params } => {
            assert_eq!(sql, "SELECT * FROM t WHERE id = ?");
            assert_eq!(params, vec![Value::Integer(1)]);
        }
        other => panic!("expected a query, got {other:?}"),
    }
}

#[test]
fn pipeline_close_request() {
    let mut p = Pipeline::new(PipelineRequest {
        baton: None,
        requests: vec![StreamRequest::Close],
    });
    assert!(matches!(p.next(), Next::Answered));
    assert!(matches!(p.next(), Next::Done));
    let r = p.finish();
    assert!(matches!(r.results[0], StreamResult::Done { response: StreamResponse::Close }));
}

#[test]
fn pipeline_empty_requests() {
    let mut p = Pipeline::new(PipelineRequest { baton: Some("b".into()), requests: vec![] });
    assert!(matches!(p.next(), Next::Done));
    let r = p.finish();
    assert!(r.results.is_empty());
    assert!(r.baton.is_none() && r.base_url.is_none());
}

#[test]
fn pipeline_sql_error_returns_error_result() {
    let run = |sql: &str| StreamRequest::Execute(ExecuteRequest { stmt: stmt(sql, vec![]) });
    let mut p = Pipeline::new(PipelineRequest {
        baton: None,
        requests: vec![run("SELECT * FROM nonexistent_table"), run("DELETE FROM t")],
    });
    assert!(matches!(p.next(), Next::Run(Call::Query { .. })));
    p.record(query_result(Err(BackendError::Sqlite("no such table: nonexistent_table".into()))));
    assert!(matches!(p.next(), Next::Run(Call::Execute { .. })));
    let done = ExecuteResult { affected_rows: 2, last_insert_rowid: None };
    p.record(execute_result(Ok(done)));
    assert!(matches!(p.next(), Next::Done));
    let r = p.finish();
    assert_eq!(r.results.len(), 2);
    match &r.results[0] {
        StreamResult::Error { error } => {
            assert_eq!(error.message, "SQLite error: no such table: nonexistent_table");
            assert!(error.code.is_none());
        }
        other => panic!("expected an error, got {other:?}"),
    }
    match &r.results[1] {
        StreamResult::Done { response: StreamResponse::Execute { result } } => {
            assert_eq!(result.affected_row_count, 2);
            assert!(result.last_insert_rowid.is_none());
            assert!(result.cols.is_empty() && result.rows.is_empty());
        }
        other => panic!("expected a result, got {other:?}"),
    }
}

#[test]
fn pipeline_insert_returns_last_insert_rowid() {
    let done = ExecuteResult { affected_rows: 1, last_insert_rowid: Some(1) };
    match execute_result(Ok(done)) {
        StreamResult::Done { response: StreamResponse::Execute { result } } => {
            assert_eq!(result.affected_row_count, 1);
            assert_eq!(result.last_insert_rowid.as_deref(), Some("1"));
        }
        other => panic!("expected a result, got {other:?}"),
    }
}

#[test]
fn texts_of_values() {
    integer_texts_that_are_none();
    base64_that_is_not_canonical_is_no_blob();
    every_blob_reads_back();
}

#[test]
fn requests_and_replies_of_the_client() {
    client_urls();
    client_failures();
    client_reads_what_a_server_wrote();
    row_id_that_is_no_integer_is_none();
    request_of_one_statement();
    queries_are_known_by_their_first_letters();
}
