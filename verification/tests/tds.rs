use bytes::BytesMut;
use litewire::backend::{BackendError, Column, Double, ExecuteResult, ResultSet, Value};
use litewire::statement::{StatementKind, Translated};
use litewire::tds::handler::{
    batch_sql, dispatch, error_response, expect_login7, expect_prelogin, extract_nvarchar_param,
    job, login_database, login_response, parse_login7_database, prelogin_response, rpc_request,
    skip_all_headers, write_exec_result, write_query_result, write_transaction_result, Dispatch,
    Execution, Job, Next, RpcRequest, TdsSession,
};
use litewire::tds::packet::{write_message, MessageReader, PacketType, ReadError};
use litewire::tds::token::{
    build_columns, hex_encode, sqlite_to_tds_type, value_to_tds_type, write_colmetadata,
    write_done, write_envchange_begin_tran, write_envchange_commit_tran, write_envchange_database,
    write_envchange_packet_size, write_envchange_rollback_tran, write_error, write_info,
    write_loginack, write_row, write_value, TdsColumn, TdsType,
};

fn double(f: f64) -> Double {
    Double { bits: f.to_bits(), text: f.to_string(), whole: f as i64 }
}

fn utf16(s: &str) -> Vec<u8> {
    s.encode_utf16().flat_map(u16::to_le_bytes).collect()
}

fn written(f: impl FnOnce(&mut BytesMut)) -> Vec<u8> {
    let mut buf = BytesMut::new();
    f(&mut buf);
    buf.to_vec()
}

fn value(val: Value, t: TdsType, as_double: Option<f64>) -> Vec<u8> {
    written(|b| write_value(b, &val, t, as_double.map(f64::to_bits)))
}

fn nvarchar(s: &str) -> Vec<u8> {
    let text = utf16(s);
    let mut v = (text.len() as u16).to_le_bytes().to_vec();
    v.extend(text);
    v
}

fn eight(tail: [u8; 8]) -> Vec<u8> {
    let mut v = vec![8];
    v.extend(tail);
    v
}

fn done(status: u16, rows: u64) -> Vec<u8> {
    let mut v = vec![0xFD];
    v.extend(status.to_le_bytes());
    v.extend([0, 0]);
    v.extend(rows.to_le_bytes());
    v
}

fn error(message: &str) -> Vec<u8> {
    let text = utf16(message);
    let mut v = vec![0xAA];
    v.extend(((14 + text.len()) as u16).to_le_bytes());
    v.extend(50000u32.to_le_bytes());
    v.extend([14, 14]);
    v.extend((message.chars().count() as u16).to_le_bytes());
    v.extend(text);
    v.extend([0, 0, 0, 0, 0, 0]);
    v
}

fn packet_types_have_codes() {
    for (code, t) in [
        (0x01, PacketType::SqlBatch),
        (0x03, PacketType::RpcRequest),
        (0x04, PacketType::Response),
        (0x10, PacketType::Login7),
        (0x12, PacketType::PreLogin),
    ] {
        assert_eq!(PacketType::from_u8(code), Some(t));
        assert_eq!(t.code(), code);
    }
    assert_eq!(PacketType::from_u8(0x02), None);
    assert_eq!((0..=255u8).filter(|&b| PacketType::from_u8(b).is_some()).count(), 5);
}

fn empty_message_is_one_packet() {
    assert_eq!(
        write_message(PacketType::Response, &[], 4096).to_vec(),
        vec![4, 1, 0, 8, 0, 0, 1, 0]
    );
    assert_eq!(
        write_message(PacketType::Response, &[], 8).to_vec(),
        vec![4, 1, 0, 8, 0, 0, 1, 0]
    );
}

fn message_is_split_into_packets() {
    assert_eq!(
        write_message(PacketType::Response, &[1, 2, 3, 4, 5], 10).to_vec(),
        vec![
            4, 0, 0, 10, 0, 0, 1, 0, 1, 2, 4, 0, 0, 10, 0, 0, 2, 0, 3, 4, 4, 1, 0, 9, 0, 0, 3, 0, 5
        ]
    );
}

fn read(mut input: &[u8]) -> Result<Option<(PacketType, Vec<u8>)>, ReadError> {
    let mut reader = MessageReader::new();
    loop {
        if input.len() < 8 {
            return reader.end_of_input().map(|()| None);
        }
        let header: [u8; 8] = input[..8].try_into().unwrap();
        let n = reader.begin_packet(header);
        reader.add_payload(&input[8..8 + n]);
        input = &input[8 + n..];
        if reader.last {
            return reader.finish().map(|m| Some((m.packet_type, m.payload.to_vec())));
        }
    }
}

fn message_reads_back_from_its_packets() {
    let data: Vec<u8> = (0..100).collect();
    for size in [9, 16, 50, 108, 4096] {
        let wire = write_message(PacketType::SqlBatch, &data, size);
        assert_eq!(read(&wire), Ok(Some((PacketType::SqlBatch, data.clone()))), "{size}");
    }
    let wire = write_message(PacketType::Login7, &[], 4096);
    assert_eq!(read(&wire), Ok(Some((PacketType::Login7, vec![]))));
}

fn input_that_ends_early() {
    assert_eq!(read(&[]), Ok(None));
    assert_eq!(read(&[1, 0, 0, 9, 0, 0, 1, 0, 7]), Err(ReadError::UnexpectedEof));
    assert_eq!(read(&[2, 1, 0, 8, 0, 0, 1, 0]), Err(ReadError::UnknownType));
    assert_eq!(ReadError::UnknownType.message(), "unknown TDS packet type");
}

fn short_length_announces_no_payload() {
    let mut reader = MessageReader::new();
    assert_eq!(reader.begin_packet([1, 1, 0, 3, 0, 0, 1, 0]), 0);
}

fn column_types() {
    for (dt, t) in [
        ("INTEGER", TdsType::BigInt),
        ("bool", TdsType::BigInt),
        ("BIT", TdsType::BigInt),
        ("REAL", TdsType::Float8),
        ("FLOAT", TdsType::Float8),
        ("double", TdsType::Float8),
        ("BLOB", TdsType::VarBinary),
        ("VARBINARY(3)", TdsType::VarBinary),
        ("TEXT", TdsType::NVarChar),
        ("", TdsType::NVarChar),
    ] {
        assert_eq!(sqlite_to_tds_type(Some(dt)), t, "{dt}");
    }
    assert_eq!(sqlite_to_tds_type(None), TdsType::NVarChar);
    assert_eq!(value_to_tds_type(&Value::Null), TdsType::NVarChar);
    assert_eq!(value_to_tds_type(&Value::Text(String::new())), TdsType::NVarChar);
    assert_eq!(value_to_tds_type(&Value::Integer(1)), TdsType::BigInt);
    assert_eq!(value_to_tds_type(&Value::Float(double(1.0))), TdsType::Float8);
    assert_eq!(value_to_tds_type(&Value::Blob(vec![])), TdsType::VarBinary);
}

fn undeclared_columns_are_inferred() {
    let cols = vec![
        Column { name: "a".into(), decltype: Some("TEXT".into()) },
        Column { name: "b".into(), decltype: None },
        Column { name: "c".into(), decltype: None },
    ];
    let row = vec![Value::Integer(1), Value::Integer(2)];
    let built = build_columns(&cols, Some(&row));
    assert_eq!(built[0].tds_type, TdsType::NVarChar);
    assert_eq!(built[1].tds_type, TdsType::BigInt);
    assert_eq!(built[2].tds_type, TdsType::NVarChar);
    assert_eq!(built[2].name, "c");
    assert_eq!(build_columns(&cols, None)[1].tds_type, TdsType::NVarChar);
}

fn loginack_bytes() {
    let mut expected = vec![0xAD, 14, 0, 1, 0x74, 0, 0, 4, 2];
    expected.extend(utf16("ab"));
    expected.extend([0, 0, 0, 0x0F]);
    assert_eq!(written(|b| write_loginack(b, "ab")), expected);
}

fn envchange_bytes() {
    let mut expected = vec![0xE3, 7, 0, 1, 1];
    expected.extend(utf16("d"));
    expected.push(1);
    expected.extend(utf16("d"));
    assert_eq!(written(|b| write_envchange_database(b, "d")), expected);

    let mut expected = vec![0xE3, 19, 0, 4, 4];
    expected.extend(utf16("8192"));
    expected.push(4);
    expected.extend(utf16("4096"));
    assert_eq!(written(|b| write_envchange_packet_size(b, 8192)), expected);

    let mut expected = vec![0xE3, 11, 0, 8, 8];
    expected.extend(7u64.to_le_bytes());
    expected.push(0);
    assert_eq!(written(|b| write_envchange_begin_tran(b, 7)), expected);

    let mut expected = vec![0xE3, 11, 0, 9, 0, 8];
    expected.extend(7u64.to_le_bytes());
    assert_eq!(written(|b| write_envchange_commit_tran(b, 7)), expected);
    expected[3] = 10;
    assert_eq!(written(|b| write_envchange_rollback_tran(b, 7)), expected);
}

fn info_and_error_bytes() {
    assert_eq!(written(|b| write_error(b, 50000, "no é")), error("no é"));
    let info = written(|b| write_info(b, 5701, "x"));
    assert_eq!(info[0], 0xAB);
    assert_eq!(&info[3..9], &[0x45, 0x16, 0, 0, 1, 0]);
}

fn colmetadata_bytes() {
    let col = |name: &str, tds_type| TdsColumn { name: name.into(), tds_type };
    let cols = [
        col("i", TdsType::BigInt),
        col("f", TdsType::Float8),
        col("t", TdsType::NVarChar),
        col("b", TdsType::VarBinary),
    ];
    let mut expected = vec![0x81, 4, 0];
    for (head, name) in [
        (vec![0x26, 8], "i"),
        (vec![0x6D, 8], "f"),
        (vec![0xE7, 0x40, 0x1F, 0x09, 0x04, 0xD0, 0x00, 0x34], "t"),
        (vec![0xA5, 0x40, 0x1F], "b"),
    ] {
        expected.extend([0, 0, 0, 0, 8, 0]);
        expected.extend(head);
        expected.push(1);
        expected.extend(utf16(name));
    }
    assert_eq!(written(|b| write_colmetadata(b, &cols)), expected);
}

fn values_on_the_wire() {
    assert_eq!(value(Value::Null, TdsType::BigInt, None), vec![0]);
    assert_eq!(value(Value::Null, TdsType::Float8, None), vec![0]);
    assert_eq!(value(Value::Null, TdsType::NVarChar, None), vec![0xFF, 0xFF]);
    assert_eq!(value(Value::Null, TdsType::VarBinary, None), vec![0xFF, 0xFF]);
    assert_eq!(value(Value::Integer(-2), TdsType::BigInt, None), eight((-2i64).to_le_bytes()));
    assert_eq!(
        value(Value::Integer(3), TdsType::Float8, Some(3.0)),
        eight(3.0f64.to_le_bytes())
    );
    assert_eq!(value(Value::Integer(-2), TdsType::NVarChar, None), nvarchar("-2"));
    assert_eq!(value(Value::Integer(-2), TdsType::VarBinary, None), nvarchar("-2"));
    assert_eq!(
        value(Value::Float(double(2.5)), TdsType::Float8, None),
        eight(2.5f64.to_le_bytes())
    );
    assert_eq!(
        value(Value::Float(double(-2.5)), TdsType::BigInt, None),
        eight((-2i64).to_le_bytes())
    );
    assert_eq!(value(Value::Float(double(2.5)), TdsType::NVarChar, None), nvarchar("2.5"));
    assert_eq!(
        value(Value::Text("12".into()), TdsType::BigInt, None),
        eight(12i64.to_le_bytes())
    );
    assert_eq!(value(Value::Text("x".into()), TdsType::BigInt, None), vec![0]);
    assert_eq!(
        value(Value::Text("1.5".into()), TdsType::Float8, Some(1.5)),
        eight(1.5f64.to_le_bytes())
    );
    assert_eq!(value(Value::Text("x".into()), TdsType::Float8, None), vec![0]);
    assert_eq!(value(Value::Text("hé😀".into()), TdsType::NVarChar, None), nvarchar("hé😀"));
    assert_eq!(
        value(Value::Blob(vec![1, 2]), TdsType::VarBinary, None),
        vec![2, 0, 1, 2]
    );
    assert_eq!(value(Value::Blob(vec![0xAB, 1]), TdsType::NVarChar, None), nvarchar("ab01"));
    assert_eq!(hex_encode(&[0, 0xFF]), "00ff");
}

fn row_of_several_cells() {
    let cols = [TdsColumn { name: "a".into(), tds_type: TdsType::BigInt }];
    let row = [Value::Integer(1), Value::Text("z".into())];
    let mut expected = vec![0xD1];
    expected.extend(eight(1i64.to_le_bytes()));
    expected.extend(nvarchar("z"));
    assert_eq!(written(|b| write_row(b, &cols, &row, &[])), expected);
}

fn done_bytes() {
    assert_eq!(written(|b| write_done(b, 0x10, 258)), done(0x10, 258));
}

fn prelogin_bytes() {
    assert_eq!(
        prelogin_response().to_vec(),
        vec![0, 0, 11, 0, 6, 1, 0, 17, 0, 1, 0xFF, 15, 0, 0, 0, 0, 0, 2]
    );
    assert!(expect_prelogin(PacketType::PreLogin).is_ok());
    assert_eq!(
        expect_prelogin(PacketType::SqlBatch),
        Err("expected PRELOGIN, got SqlBatch".to_string())
    );
    assert!(expect_login7(PacketType::Login7).is_ok());
    assert_eq!(
        expect_login7(PacketType::PreLogin),
        Err("expected LOGIN7, got PreLogin".to_string())
    );
}

fn login_response_names_the_database() {
    let r = login_response("db").to_vec();
    let mut head = written(|b| write_loginack(b, "litewire"));
    head.extend(written(|b| write_envchange_database(b, "db")));
    head.extend(written(|b| write_envchange_packet_size(b, 4096)));
    head.extend(written(|b| write_info(b, 5701, "Changed database context to 'db'.")));
    head.extend(done(0, 0));
    assert_eq!(r, head);
}

fn login7_names_a_database() {
    let mut payload = vec![0u8; 94];
    payload[60] = 94;
    payload[62] = 2;
    payload.extend(utf16("db"));
    assert_eq!(parse_login7_database(&payload), Some("db".to_string()));
    assert_eq!(login_database(&payload), "db");
    assert_eq!(login_database(&payload[..97]), "master");
    payload[62] = 0;
    assert_eq!(parse_login7_database(&payload), None);
    assert_eq!(parse_login7_database(&[0; 93]), None);
}

fn headers_are_skipped_where_they_fit() {
    assert_eq!(skip_all_headers(&[1, 2, 3]), 0);
    assert_eq!(skip_all_headers(&[6, 0, 0, 0, 1, 2, 9]), 6);
    assert_eq!(skip_all_headers(&[8, 0, 0, 0, 1, 2, 9]), 0);
    assert_eq!(skip_all_headers(&[3, 0, 0, 0, 1, 2, 9]), 0);
    assert_eq!(skip_all_headers(&[4, 0, 0, 0]), 4);
}

fn batch_reads_back() {
    let mut payload = vec![6, 0, 0, 0, 1, 2];
    payload.extend(utf16("SELECT 'é😀'"));
    assert_eq!(batch_sql(&payload), Ok("SELECT 'é😀'".to_string()));
    payload.push(0);
    assert_eq!(batch_sql(&payload), Err("Failed to decode SQL batch as UTF-16LE"));
    assert_eq!(batch_sql(&[4, 0, 0, 0, 0, 0xD8]), Err("Failed to decode SQL batch as UTF-16LE"));
}

fn sql_param(sql: &str) -> Vec<u8> {
    let mut p = vec![0, 0, 0xE7, 0x40, 0x1F, 9, 4, 0xD0, 0, 0x34];
    p.extend(nvarchar(sql));
    p
}

fn rpc_requests() {
    let mut payload = vec![4, 0, 0, 0, 0xFF, 0xFF, 10, 0, 0, 0];
    payload.extend(sql_param("SELECT 1"));
    assert!(matches!(rpc_request(&payload), RpcRequest::Sql(s) if s == "SELECT 1"));
    payload[6] = 11;
    assert!(matches!(rpc_request(&payload), RpcRequest::Unsupported));
    assert!(matches!(
        rpc_request(&[4, 0, 0, 0, 1]),
        RpcRequest::Malformed("RPC request too short")
    ));
    assert!(matches!(
        rpc_request(&[4, 0, 0, 0, 0xFF, 0xFF, 10, 0, 0]),
        RpcRequest::Malformed("sp_executesql: missing option flags")
    ));
    assert!(matches!(
        rpc_request(&[4, 0, 0, 0, 0xFF, 0xFF, 10, 0, 0, 0]),
        RpcRequest::Malformed("sp_executesql: failed to extract SQL parameter")
    ));
}

fn nvarchar_parameters() {
    assert_eq!(extract_nvarchar_param(&sql_param("x")), Some("x".to_string()));
    let mut named = vec![1, b'@', 0];
    named.extend(&sql_param("y")[1..]);
    assert_eq!(extract_nvarchar_param(&named), Some("y".to_string()));
    let mut null = sql_param("");
    let n = null.len();
    null[n - 2] = 0xFF;
    null[n - 1] = 0xFF;
    assert_eq!(extract_nvarchar_param(&null), None);
    let mut other = sql_param("x");
    other[2] = 0x26;
    assert_eq!(extract_nvarchar_param(&other), None);
    for n in 0..sql_param("x").len() {
        assert_eq!(extract_nvarchar_param(&sql_param("x")[..n]), None, "{n}");
    }
}

fn messages_are_dispatched() {
    assert_eq!(dispatch(PacketType::SqlBatch), Dispatch::SqlBatch);
    assert_eq!(dispatch(PacketType::RpcRequest), Dispatch::RpcRequest);
    assert_eq!(dispatch(PacketType::Login7), Dispatch::Ignore);
}

fn jobs_of_statements() {
    assert!(matches!(job(Translated::Noop, StatementKind::Other), Job::Done));
    let sql = |s: &str| Translated::Sql(s.into());
    assert!(matches!(job(sql(""), StatementKind::Query), Job::Done));
    assert!(matches!(job(sql("S"), StatementKind::Query), Job::Query(_)));
    assert!(matches!(job(sql("B"), StatementKind::Transaction), Job::Transaction(_)));
    assert!(matches!(job(sql("D"), StatementKind::Ddl), Job::Execute(_)));
    assert!(matches!(job(Translated::Metadata("M".into()), StatementKind::Other), Job::Query(_)));
}

fn transactions_have_descriptors_of_their_own() {
    let ok = Ok(ExecuteResult { affected_rows: 0, last_insert_rowid: None });
    let mut session = TdsSession::new();
    for id in [1u64, 2] {
        let begun = written(|b| write_transaction_result(b, "BEGIN", &ok, &mut session));
        let mut expected = written(|b| write_envchange_begin_tran(b, id));
        expected.extend(done(0, 0));
        assert_eq!(begun, expected);
        assert!(session.in_transaction);
        let ended = written(|b| write_transaction_result(b, "rollback", &ok, &mut session));
        let mut expected = written(|b| write_envchange_rollback_tran(b, id));
        expected.extend(done(0, 0));
        assert_eq!(ended, expected);
        assert!(!session.in_transaction);
    }
    let other = written(|b| write_transaction_result(b, "SAVEPOINT x", &ok, &mut session));
    assert_eq!(other, done(0, 0));
}

fn failed_transaction_leaves_the_session() {
    let failed = Err(BackendError::Sqlite("x".into()));
    let mut session = TdsSession::new();
    let bytes = written(|b| write_transaction_result(b, "BEGIN", &failed, &mut session));
    let mut expected = error("SQLite error: x");
    expected.extend(done(0, 0));
    assert_eq!(bytes, expected);
    assert!(!session.in_transaction);
    assert_eq!(session.next_tran_id, 1);
}

fn query_results_on_the_wire() {
    let rs = ResultSet {
        columns: vec![Column { name: "a".into(), decltype: None }],
        rows: vec![vec![Value::Integer(1)], vec![Value::Null]],
    };
    let columns = [TdsColumn { name: "a".into(), tds_type: TdsType::BigInt }];
    let mut expected = written(|b| write_colmetadata(b, &columns));
    expected.push(0xD1);
    expected.extend(eight(1i64.to_le_bytes()));
    expected.extend([0xD1, 0]);
    expected.extend(done(0x10, 2));
    assert_eq!(written(|b| write_query_result(b, &Ok(rs), &vec![])), expected);

    let mut failed = error("backend error: y");
    failed.extend(done(0, 0));
    let outcome = Err(BackendError::Other("y".into()));
    assert_eq!(written(|b| write_query_result(b, &outcome, &vec![])), failed);
}

fn exec_results_on_the_wire() {
    let ok = Ok(ExecuteResult { affected_rows: 5, last_insert_rowid: None });
    assert_eq!(written(|b| write_exec_result(b, &ok)), done(0x10, 5));
    let mut failed = error("SQLite error: z");
    failed.extend(done(0, 0));
    let outcome = Err(BackendError::Sqlite("z".into()));
    assert_eq!(written(|b| write_exec_result(b, &outcome)), failed);
    assert_eq!(error_response("SQLite error: z").to_vec(), failed);
}

fn request_of_several_statements() {
    let mut e = Execution::new(vec![
        (Translated::Noop, StatementKind::Other),
        (Translated::Sql("DELETE FROM t".into()), StatementKind::Mutation),
    ]);
    assert!(matches!(e.next(), Next::Written));
    assert!(matches!(e.next(), Next::Run(Job::Execute(_))));
    let ok = Ok(ExecuteResult { affected_rows: 5, last_insert_rowid: None });
    write_exec_result(&mut e.resp, &ok);
    assert!(matches!(e.next(), Next::Finished));
    let mut expected = done(0, 0);
    expected.extend(done(0x10, 5));
    assert_eq!(e.finish().to_vec(), expected);
    assert_eq!(Execution::new(vec![]).finish().to_vec(), done(0, 0));
}

#[test]
fn packets() {
    packet_types_have_codes();
    empty_message_is_one_packet();
    message_is_split_into_packets();
    message_reads_back_from_its_packets();
    input_that_ends_early();
    short_length_announces_no_payload();
}

#[test]
fn tokens() {
    column_types();
    undeclared_columns_are_inferred();
    loginack_bytes();
    envchange_bytes();
    info_and_error_bytes();
    colmetadata_bytes();
    values_on_the_wire();
    row_of_several_cells();
    done_bytes();
}

#[test]
fn logins() {
    prelogin_bytes();
    login_response_names_the_database();
    login7_names_a_database();
    messages_are_dispatched();
}

#[test]
fn requests() {
    headers_are_skipped_where_they_fit();
    batch_reads_back();
    rpc_requests();
    nvarchar_parameters();
}

#[test]
fn statements() {
    jobs_of_statements();
    transactions_have_descriptors_of_their_own();
    failed_transaction_leaves_the_session();
    query_results_on_the_wire();
    exec_results_on_the_wire();
    request_of_several_statements();
}
