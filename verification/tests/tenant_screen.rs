use litewire::backend::tenant_screen::{
    refuse, screen_sql, screened, strip_leading_noise, take_identifier, Passed, TenantScreened,
};
use litewire::backend::Value;

#[test]
fn attach_and_detach_are_refused() {
    for sql in [
        "ATTACH DATABASE '/srv/tenants/other.db' AS stolen",
        "attach database 'x.db' as x",
        "  ATTACH 'x.db' AS x",
        "DETACH DATABASE stolen",
        "detach x",
    ] {
        assert!(screen_sql(sql).is_err(), "must be refused: {sql:?}");
    }
}

#[test]
fn vacuum_with_a_target_is_refused_bare_vacuum_is_not() {
    assert!(screen_sql("VACUUM INTO '/tmp/copy.db'").is_err());
    assert!(screen_sql("vacuum into 'x'").is_err());
    assert!(screen_sql("VACUUM main INTO '/tmp/copy.db'").is_err());
    assert!(screen_sql("VACUUM").is_ok());
    assert!(screen_sql("  vacuum  ").is_ok());
}

#[test]
fn path_and_schema_pragmas_are_refused() {
    for sql in [
        "PRAGMA data_store_directory = '/tmp'",
        "PRAGMA temp_store_directory = '/tmp'",
        "PRAGMA writable_schema = ON",
        "PRAGMA main.data_store_directory = '/tmp'",
        "PRAGMA \"writable_schema\" = ON",
        "PRAGMA `main`.`writable_schema` = ON",
        "PRAGMA [writable_schema] = ON",
        "PRAGMA main /* c */ . writable_schema = ON",
    ] {
        assert!(screen_sql(sql).is_err(), "must be refused: {sql:?}");
    }
}

#[test]
fn tuning_pragmas_pass() {
    for sql in [
        "PRAGMA foreign_keys = ON",
        "PRAGMA journal_mode = WAL",
        "PRAGMA busy_timeout = 5000",
        "PRAGMA table_info('users')",
    ] {
        assert!(screen_sql(sql).is_ok(), "must pass: {sql:?}");
    }
}

#[test]
fn explain_wrappers_do_not_hide_a_forbidden_verb() {
    for sql in [
        "EXPLAIN ATTACH DATABASE 'x.db' AS x",
        "EXPLAIN QUERY PLAN ATTACH DATABASE 'x.db' AS x",
        "explain /* c */ attach database 'x.db' as x",
        "EXPLAIN EXPLAIN ATTACH 'x.db' AS x",
    ] {
        assert!(screen_sql(sql).is_err(), "must be refused: {sql:?}");
    }
    assert!(screen_sql("EXPLAIN SELECT 1").is_ok());
    assert!(screen_sql("EXPLAIN QUERY PLAN SELECT 1").is_ok());
}

#[test]
fn forbidden_statement_after_a_benign_one_is_refused() {
    assert!(screen_sql("SELECT 1; ATTACH DATABASE 'x.db' AS x").is_err());
    assert!(screen_sql("SELECT 1; SELECT 2").is_ok());
}

#[test]
fn keywords_inside_literals_and_comments_are_data() {
    for sql in [
        "INSERT INTO t (v) VALUES ('ATTACH DATABASE evil')",
        "SELECT 'VACUUM INTO ''/tmp/x''' AS s",
        "SELECT 1 -- ATTACH DATABASE 'x' AS x",
        "SELECT /* ATTACH */ 1",
    ] {
        assert!(screen_sql(sql).is_ok(), "must pass: {sql:?}");
    }
}

#[test]
fn malformed_sql_is_refused_conservatively() {
    assert!(screen_sql("SELECT 'unterminated").is_err());
    assert!(screen_sql("SELECT 1 /* unterminated").is_err());
}

#[test]
fn attach_on_a_tenant_session_is_refused_with_our_error() {
    let conn = screened(7u8);
    let err = conn
        .passing("ATTACH DATABASE '/srv/tenants/other.db' AS stolen")
        .expect_err("ATTACH must be refused");
    assert!(err.to_text().contains("not permitted on a tenant session"));
}

#[test]
fn detach_vacuum_into_and_path_pragmas_are_refused() {
    let conn = screened(7u8);
    for sql in [
        "DETACH DATABASE stolen",
        "VACUUM INTO '/tmp/copy.db'",
        "PRAGMA data_store_directory = '/tmp'",
        "PRAGMA main.writable_schema = ON",
        "EXPLAIN ATTACH DATABASE '/tmp/x.db' AS x",
    ] {
        let err = conn.passing(sql).expect_err("must be refused");
        assert!(err.to_text().contains("not permitted"), "{sql:?}");
    }
}

#[test]
fn ordinary_sql_passes_through() {
    let conn = screened(7u8);
    for sql in [
        "CREATE TABLE t (v TEXT)",
        "INSERT INTO t (v) VALUES ('ATTACH DATABASE x')",
        "SELECT v FROM t",
    ] {
        assert_eq!(conn.passing(sql), Ok(&7u8), "{sql:?}");
    }
}

fn semicolons_inside_quotes_do_not_split() {
    assert!(screen_sql("SELECT '; ATTACH x'").is_ok());
    assert!(screen_sql("SELECT \"; ATTACH x\"").is_ok());
    assert!(screen_sql("SELECT `; ATTACH x`").is_ok());
    assert_eq!(screen_sql("SELECT [; ATTACH x]"), Err("ATTACH".to_string()));
    assert!(screen_sql("SELECT 1 -- ; \nFROM t; ATTACH 'x' AS x").is_err());
}

fn leading_comments_do_not_hide_a_verb() {
    assert!(screen_sql("/* hello */ -- more\n ATTACH 'x' AS x").is_err());
    assert!(screen_sql("/* hello */ -- more\n SELECT 1").is_ok());
}

fn quoted_identifiers_lose_their_quotes() {
    let chars: Vec<char> = "\"main\".x".chars().collect();
    let (name, rest) = take_identifier(&chars).expect("an identifier");
    assert_eq!(name.iter().collect::<String>(), "main");
    assert_eq!(rest.iter().collect::<String>(), ".x");
}

fn refusal_names_what_is_refused() {
    let text = refuse("ATTACH").to_text();
    assert!(text.contains("ATTACH"));
    assert!(text.contains("not permitted on a tenant session"));
}

fn tenant_screened_holds_its_backend() {
    assert_eq!(TenantScreened::new(5u8).inner, 5);
}

fn texts_are_screened_in_turn() {
    assert!(screen_sql("SELECT 1;SELECT 'ATTACH'").is_ok());
    assert_eq!(screen_sql("SELECT 1;DETACH x"), Err("DETACH".to_string()));
    assert_eq!(screen_sql("VACUUM INTO 'x';DETACH x"), Err("VACUUM INTO".to_string()));
    assert_eq!(screen_sql("DETACH x;SELECT '"), Err("DETACH".to_string()));
    assert_eq!(screen_sql("SELECT 1;SELECT '"), Err("malformed SQL".to_string()));
    assert!(screen_sql("SELECT 1 --;DETACH x").is_ok());
}

fn case_plays_no_part() {
    for sql in [
        "Attach 'X' AS x",
        "Explain Query Plan Detach x",
        "Pragma Main.\"Writable_Schema\" = 1",
        "Vacuum Into 'X'",
        "Select 'Attach'",
        "Select 'Open",
    ] {
        let said = screen_sql(sql);
        assert_eq!(screen_sql(&sql.to_ascii_lowercase()), said, "{sql:?}");
        assert_eq!(screen_sql(&sql.to_ascii_uppercase()), said, "{sql:?}");
    }
    assert_eq!(
        screen_sql("PRAGMA WRITABLE_SCHEMA"),
        Err("PRAGMA writable_schema".to_string())
    );
}

fn only_noise_is_stripped() {
    for (text, left) in [
        ("  -- a\n/* b */ \u{a0}SELECT -- c", "SELECT -- c"),
        ("- - x", "- - x"),
        ("/ * x", "/ * x"),
        ("-- a", ""),
        (" /* a", ""),
        ("/*/ x", ""),
        ("", ""),
    ] {
        let chars: Vec<char> = text.chars().collect();
        let rest: String = strip_leading_noise(&chars).iter().collect();
        assert_eq!(rest, left, "{text:?}");
    }
}

fn calls_go_through_as_they_are() {
    let conn = screened(7u8);
    let params = vec![Value::Integer(1), Value::Null];
    match conn.query("SELECT ?, ?", &params).unwrap() {
        Passed::Query { conn, sql, params: given } => {
            assert_eq!((*conn, sql, given), (7, "SELECT ?, ?", params.as_slice()));
        }
        other => panic!("expected a query, got {other:?}"),
    }
    match conn.execute("DELETE FROM t", &[]).unwrap() {
        Passed::Execute { conn, sql, params } => {
            assert_eq!((*conn, sql, params.len()), (7, "DELETE FROM t", 0));
        }
        other => panic!("expected a statement, got {other:?}"),
    }
    match conn.describe_columns("SELECT 1").unwrap() {
        Passed::DescribeColumns { conn, sql } => assert_eq!((*conn, sql), (7, "SELECT 1")),
        other => panic!("expected a description, got {other:?}"),
    }
    let refused = refuse("ATTACH");
    assert_eq!(conn.query("ATTACH 'x' AS x", &params).unwrap_err(), refused);
    assert_eq!(conn.execute("ATTACH 'x' AS x", &params).unwrap_err(), refused);
    assert_eq!(conn.describe_columns("ATTACH 'x' AS x").unwrap_err(), refused);
}

#[test]
fn quotes_comments_and_case() {
    semicolons_inside_quotes_do_not_split();
    leading_comments_do_not_hide_a_verb();
    quoted_identifiers_lose_their_quotes();
    texts_are_screened_in_turn();
    case_plays_no_part();
    only_noise_is_stripped();
}

#[test]
fn screened_sessions() {
    refusal_names_what_is_refused();
    tenant_screened_holds_its_backend();
    calls_go_through_as_they_are();
}
