//! What a PostgreSQL client can count on, whatever it sends.
use crate::backend::{BackendError, Column, Double, ExecuteResult, ResultSet, Value};
use crate::postgres::handler::{
    describe, do_extended, do_mutation, do_select, exec_query, is_described, pg_backend_error,
    probe_columns, translate_sql, Call, ErrorInfo, Next, Probe, Response, SimpleQuery, Step,
};
use crate::postgres::row::{
    encode_row, extract_params, parameter_value, BoundParameters, DataRow, FieldFormat, FieldInfo,
    Format,
};
use crate::postgres::types::Type;
use crate::statement::{StatementKind, Translated};
use vstd::prelude::*;

verus! {

/// A field that is not null: four bytes that write the number of the others,
/// the most significant first, and then those.
pub open spec fn is_field(b: Seq<u8>, payload: Seq<u8>) -> bool {
    &&& b.len() == 4 + payload.len()
    &&& payload.len() < 0x1_0000_0000 ==> crate::wire::high_first4(b) == payload.len()
    &&& b.skip(4) == payload
}

proof fn lemma_field(payload: Seq<u8>)
    ensures
        is_field(crate::postgres::row::cell(payload), payload),
{
    let n = payload.len() % 0x1_0000_0000;
    let b = crate::postgres::row::cell(payload);
    crate::wire::law_be_counts(n as u64, 0);
    let w = crate::wire::be(n, 4);
    assert(b[0] == w[0] && b[1] == w[1] && b[2] == w[2] && b[3] == w[3]);
    assert(b.skip(4) =~= payload);
}

/// In the binary format a value reads back: an integer from eight bytes in
/// two's complement, a truth value from one byte, a float from its sixty-four
/// bits, a text from its UTF-8, and bytes from themselves. A null is the
/// length that nothing has, in either format.
pub proof fn law_binary_field_reads_back(v: crate::backend::Datum, t: Type)
    ensures
        ({
            let b = crate::postgres::row::value_cell(v, t, FieldFormat::Binary);
            let payload = b.skip(4);
            match v {
                crate::backend::Datum::Null => b == seq![255u8, 255u8, 255u8, 255u8],
                crate::backend::Datum::Integer(i) => is_field(b, payload) && if t == Type::BOOL {
                    payload == if i == 0 { seq![0u8] } else { seq![1u8] }
                } else {
                    &&& payload.len() == 8
                    &&& crate::wire::high_first8(payload) - (if payload[0] < 128 {
                        0int
                    } else {
                        0x1_0000_0000_0000_0000
                    }) == i
                },
                crate::backend::Datum::Float(d) => is_field(b, payload) && payload.len() == 8
                    && crate::wire::high_first8(payload) == d.bits,
                crate::backend::Datum::Text(s) => is_field(b, vstd::utf8::encode_utf8(s)),
                crate::backend::Datum::Blob(x) => is_field(b, x),
            }
        }),
{
    match v {
        crate::backend::Datum::Null => {},
        crate::backend::Datum::Integer(i) => {
            if t == Type::BOOL {
                lemma_field(crate::postgres::row::bool_payload(i != 0, FieldFormat::Binary));
            } else {
                lemma_field(crate::postgres::row::integer_payload(i as int, FieldFormat::Binary));
                crate::wire::law_be_counts(0, i);
            }
        },
        crate::backend::Datum::Float(d) => {
            lemma_field(crate::wire::be(d.bits as nat, 8));
            crate::wire::law_be_counts(d.bits, 0);
        },
        crate::backend::Datum::Text(s) => {
            lemma_field(crate::text::utf8(s));
        },
        crate::backend::Datum::Blob(x) => {
            lemma_field(x);
        },
    }
}

/// In the text format a value is its text: an integer in base ten, a truth
/// value as `t` or `f`, a float as its decimal text, a text as itself, and
/// bytes as `\x` and their hexadecimal digits.
pub proof fn law_text_field_reads_back(v: crate::backend::Datum, t: Type)
    ensures
        ({
            let b = crate::postgres::row::value_cell(v, t, FieldFormat::Text);
            match v {
                crate::backend::Datum::Null => b == seq![255u8, 255u8, 255u8, 255u8],
                crate::backend::Datum::Integer(i) => if t == Type::BOOL {
                    is_field(b, seq![(if i == 0 { 'f' } else { 't' }) as u8])
                } else {
                    is_field(
                        b,
                        vstd::utf8::encode_utf8(crate::text::signed_decimal(i as int)),
                    )
                },
                crate::backend::Datum::Float(d) => is_field(b, vstd::utf8::encode_utf8(d.text)),
                crate::backend::Datum::Text(s) => is_field(b, vstd::utf8::encode_utf8(s)),
                crate::backend::Datum::Blob(x) => is_field(
                    b,
                    vstd::utf8::encode_utf8(seq!['\\', 'x'] + crate::text::hex_text(x)),
                ),
            }
        }),
{
    match v {
        crate::backend::Datum::Null => {},
        crate::backend::Datum::Integer(i) => {
            if t == Type::BOOL {
                lemma_field(crate::postgres::row::bool_payload(i != 0, FieldFormat::Text));
            } else {
                lemma_field(crate::postgres::row::integer_payload(i as int, FieldFormat::Text));
            }
        },
        crate::backend::Datum::Float(d) => {
            lemma_field(crate::text::utf8(d.text));
        },
        crate::backend::Datum::Text(s) => {
            lemma_field(crate::text::utf8(s));
        },
        crate::backend::Datum::Blob(x) => {
            reveal_strlit("\\x");
            assert("\\x"@ =~= seq!['\\', 'x']);
            lemma_field(crate::postgres::row::blob_payload(x, FieldFormat::Text));
        },
    }
}

/// One more field in a row is its bytes behind those of the row, in the type
/// and the format of its column, and the row tells how many fields it has.
pub proof fn law_row_is_field_by_field(
    row: &[Value],
    more: &[Value],
    v: Value,
    schema: &[FieldInfo],
    short: DataRow,
    long: DataRow,
)
    requires
        call_ensures(encode_row, (row, schema), short),
        call_ensures(encode_row, (more, schema), long),
        more@ == row@.push(v),
        more@.len() <= schema@.len(),
        more@.len() <= i16::MAX,
    ensures
        long.data@ == short.data@ + crate::postgres::row::value_cell(
            v@,
            schema@[row@.len() as int].datatype,
            schema@[row@.len() as int].format,
        ),
        long.field_count == more@.len(),
        short.field_count == row@.len(),
        row@.len() == 0 ==> short.data@.len() == 0,
{
    assert(more@.drop_last() =~= row@);
    assert(more@.last() == v);
}

/// A parameter is what its bytes write in its type: an integer of two, four
/// or eight bytes in two's complement, a truth value of one byte, bytes as
/// themselves, and in a type that is none of these a text. What its bytes do
/// not write is null, and so is a null.
pub proof fn law_parameter_is_what_its_bytes_write(
    t: Type,
    bytes: Option<Vec<u8>>,
    float: Option<Double>,
    r: Value,
)
    requires
        call_ensures(parameter_value, (t, &bytes, &float), r),
    ensures
        bytes is None ==> r@ is Null,
        bytes matches Some(v) ==> {
            let b = v@;
            let n = match t {
                Type::INT2 => 2nat,
                Type::INT4 => 4nat,
                _ => 8nat,
            };
            &&& t == Type::INT2 || t == Type::INT4 || t == Type::INT8 ==> {
                &&& b.len() != n ==> r@ is Null
                &&& b.len() == n ==> r@ is Integer
                &&& b.len() == 2 && n == 2 ==> r@->Integer_0 == b[1] + 0x100 * b[0] - (if b[0]
                    < 128 {
                    0int
                } else {
                    0x1_0000
                })
                &&& b.len() == 4 && n == 4 ==> r@->Integer_0 == crate::wire::high_first4(b) - (
                if b[0] < 128 {
                    0int
                } else {
                    0x1_0000_0000
                })
                &&& b.len() == 8 && n == 8 ==> r@->Integer_0 == crate::wire::high_first8(b) - (
                if b[0] < 128 {
                    0int
                } else {
                    0x1_0000_0000_0000_0000
                })
            }
            &&& t == Type::BOOL ==> {
                &&& b.len() != 1 ==> r@ is Null
                &&& b.len() == 1 ==> r@ is Integer && r@->Integer_0 == if b[0] == 0 {
                    0int
                } else {
                    1
                }
            }
            &&& t == Type::BYTEA ==> r@ is Blob && r@->Blob_0 == b
            &&& t == Type::TEXT || t is Other ==> {
                &&& forall|s: Seq<char>|
                    #[trigger] vstd::utf8::encode_utf8(s) == b ==> r@
                        == crate::backend::Datum::Text(s)
                &&& (forall|s: Seq<char>| #[trigger] vstd::utf8::encode_utf8(s) != b) ==> r@ is Null
            }
            &&& t == Type::FLOAT4 || t == Type::FLOAT8 ==> match float {
                Some(d) => r@ is Float && r@->Float_0 == d@,
                None => r@ is Null,
            }
        },
{
    if let Some(v) = bytes {
        let b = v@;
        crate::wire::law_be_signed_value_is_twos_complement(b);
        assert forall|s: Seq<char>|
            (t == Type::TEXT || t is Other) && #[trigger] vstd::utf8::encode_utf8(s)
                == b implies r@ == crate::backend::Datum::Text(s) by {
            vstd::utf8::encode_utf8_valid_utf8(s);
            vstd::utf8::encode_utf8_decode_utf8(s);
            vstd::utf8::encode_utf8_decode_utf8(r@->Text_0);
        }
        if vstd::utf8::valid_utf8(b) {
            vstd::utf8::decode_utf8_encode_utf8(b);
            assert(b == vstd::utf8::encode_utf8(vstd::utf8::decode_utf8(b)));
        }
    }
}

/// One code for each field, where 1 is binary and anything else is text; or
/// one format for them all.
pub proof fn law_formats(f: Format, idx: usize, r: FieldFormat)
    requires
        call_ensures(Format::format_for, (&f, idx), r),
    ensures
        f is UnifiedText ==> r is Text,
        f is UnifiedBinary ==> r is Binary,
        f matches Format::Individual(codes) ==> (r is Binary <==> codes@[idx as int] == 1),
{
}

/// The columns are described in their order and by their names. One with a
/// declared type goes by the words in it, whatever rows there are; one
/// without goes by its value in the first row, and is text where there is
/// none.
pub proof fn law_columns_are_described(
    columns: Vec<Column>,
    rows: Vec<Vec<Value>>,
    format: Format,
    r: Vec<FieldInfo>,
    i: int,
)
    requires
        call_ensures(describe, (&columns, &rows, &format), r),
        0 <= i < columns@.len(),
    ensures
        r@.len() == columns@.len(),
        r@[i].name@ == columns@[i].name@,
        columns@[i].decltype matches Some(d) ==> {
            let integer = crate::text_laws::holds_word(d@, "INT"@);
            let float = crate::text_laws::holds_word(d@, "REAL"@)
                || crate::text_laws::holds_word(d@, "FLOAT"@)
                || crate::text_laws::holds_word(d@, "DOUBLE"@);
            let binary = crate::text_laws::holds_word(d@, "BLOB"@)
                || crate::text_laws::holds_word(d@, "BYTEA"@);
            let boolean = crate::text_laws::holds_word(d@, "BOOL"@);
            r@[i].datatype == if integer {
                Type::INT8
            } else if float {
                Type::FLOAT8
            } else if binary {
                Type::BYTEA
            } else if boolean {
                Type::BOOL
            } else {
                Type::TEXT
            }
        },
        columns@[i].decltype is None ==> r@[i].datatype == if rows@.len() == 0 || i
            >= rows@[0]@.len() {
            Type::TEXT
        } else if rows@[0]@[i]@ is Integer {
            Type::INT8
        } else if rows@[0]@[i]@ is Float {
            Type::FLOAT8
        } else if rows@[0]@[i]@ is Blob {
            Type::BYTEA
        } else {
            Type::TEXT
        },
        format is UnifiedText ==> r@[i].format is Text,
        format is UnifiedBinary ==> r@[i].format is Binary,
        format matches Format::Individual(codes) ==> (r@[i].format is Binary <==> codes@[i] == 1),
{
    if let Some(d) = columns@[i].decltype {
        crate::text_laws::lemma_occurs_upper(d@, "INT"@);
        crate::text_laws::lemma_occurs_upper(d@, "REAL"@);
        crate::text_laws::lemma_occurs_upper(d@, "FLOAT"@);
        crate::text_laws::lemma_occurs_upper(d@, "DOUBLE"@);
        crate::text_laws::lemma_occurs_upper(d@, "BLOB"@);
        crate::text_laws::lemma_occurs_upper(d@, "BYTEA"@);
        crate::text_laws::lemma_occurs_upper(d@, "BOOL"@);
    }
}

/// Every row of a result is sent, in its order, with as many fields as it
/// has, each in the type and the format that its column is described with; a
/// query that failed is an error.
pub proof fn law_rows_are_sent(
    outcome: Result<ResultSet, BackendError>,
    format: Format,
    r: Result<Response, ErrorInfo>,
    i: int,
)
    requires
        call_ensures(do_select, (outcome, &format), r),
    ensures
        outcome is Err <==> r is Err,
        outcome matches Ok(rs) ==> (r matches Ok(Response::Query { fields, rows }) && {
            &&& fields@.len() == rs.columns@.len()
            &&& rows@.len() == rs.rows@.len()
            &&& 0 <= i < rs.rows@.len() ==> rows@[i].field_count == rs.rows@[i]@.len() as i16
                && rows@[i].data@ == crate::postgres::row::row_data(
                rs.rows@[i]@,
                crate::postgres::row::shape(fields@),
            )
        }),
{
    if let Ok(rs) = outcome {
        if let Ok(Response::Query { fields, rows }) = r {
            assert(crate::postgres::row::shape(fields@) =~= crate::postgres::handler::result_shape(
                rs,
                format,
            ));
        }
    }
}

/// A query is asked for its rows and anything else for its effect, as it
/// stands; empty SQL is not run, and only a query is described.
pub proof fn law_sql_is_asked_as_it_stands(
    sql: String,
    kind: StatementKind,
    call: Call,
    step: Step,
    text: &str,
    described: bool,
)
    requires
        call_ensures(exec_query, (sql, kind), call),
        call_ensures(do_extended, (sql, kind), step),
        call_ensures(is_described, (text, kind), described),
    ensures
        match call {
            Call::Query(s) => kind is Query && s@ == sql@,
            Call::Execute(s, k) => !(kind is Query) && s@ == sql@ && k == kind,
        },
        sql@.len() == 0 <==> step is Respond,
        step matches Step::Run(c) ==> match c {
            Call::Query(s) => kind is Query && s@ == sql@,
            Call::Execute(s, k) => !(kind is Query) && s@ == sql@ && k == kind,
        },
        step matches Step::Respond(resp) ==> (resp matches Response::Execution(tag) && tag.command@
            == "OK"@ && tag.rows is None),
        described <==> kind is Query && text@.len() > 0,
{
}

/// The answer to a statement without rows names its command: of one that
/// changes rows or the schema the word that leads it, in whatever case and
/// behind whatever white space, where it is a known one, and `OK` else. Only
/// a statement that changes rows tells how many.
pub proof fn law_command_is_named(
    sql: &str,
    kind: StatementKind,
    done: ExecuteResult,
    r: Result<Response, ErrorInfo>,
    n: int,
)
    requires
        !(kind is Transaction),
        call_ensures(
            do_mutation,
            (sql, kind, Ok::<ExecuteResult, BackendError>(done)),
            r,
        ),
    ensures
        r matches Ok(Response::Execution(tag)) && {
            let leads = |word: Seq<char>| crate::text_laws::leads(sql@, n, word);
            &&& kind is Mutation <==> tag.rows is Some
            &&& done.affected_rows <= usize::MAX && kind is Mutation ==> tag.rows->0
                == done.affected_rows
            &&& kind is Mutation && leads("INSERT"@) ==> tag.command@ == "INSERT"@
            &&& kind is Mutation && leads("UPDATE"@) ==> tag.command@ == "UPDATE"@
            &&& kind is Mutation && leads("DELETE"@) ==> tag.command@ == "DELETE"@
            &&& kind is Ddl && leads("CREATE"@) ==> tag.command@ == "CREATE"@
            &&& kind is Ddl && leads("DROP"@) ==> tag.command@ == "DROP"@
            &&& kind is Ddl && leads("ALTER"@) ==> tag.command@ == "ALTER"@
            &&& kind is Query || kind is Other ==> tag.command@ == "OK"@
        },
{
    let u = crate::text::upper(crate::text::trim(sql@));
    reveal_strlit("INSERT");
    reveal_strlit("UPDATE");
    reveal_strlit("DELETE");
    reveal_strlit("CREATE");
    reveal_strlit("DROP");
    reveal_strlit("ALTER");
    lemma_first_letter(sql@, "INSERT"@);
    lemma_first_letter(sql@, "UPDATE"@);
    lemma_first_letter(sql@, "DELETE"@);
    lemma_first_letter(sql@, "CREATE"@);
    lemma_first_letter(sql@, "DROP"@);
    lemma_first_letter(sql@, "ALTER"@);
}

proof fn lemma_first_letter(sql: Seq<char>, word: Seq<char>)
    requires
        crate::text_laws::is_capital_word(word),
    ensures
        ({
            let u = crate::text::upper(crate::text::trim(sql));
            &&& crate::text::begins_with(u, word) ==> u.len() > 0 && u[0] == word[0]
            &&& forall|n: int|
                #[trigger] crate::text_laws::leads(sql, n, word) ==> crate::text::begins_with(
                    u,
                    word,
                )
        }),
{
    let u = crate::text::upper(crate::text::trim(sql));
    crate::text_laws::lemma_begins(sql, word);
    if crate::text::begins_with(u, word) {
        assert(u.subrange(0, word.len() as int)[0] == u[0]);
    }
}

/// A command that nothing known leads is `OK`.
pub proof fn law_unknown_command_is_ok(
    sql: &str,
    kind: StatementKind,
    done: ExecuteResult,
    r: Result<Response, ErrorInfo>,
)
    requires
        !(kind is Transaction),
        call_ensures(
            do_mutation,
            (sql, kind, Ok::<ExecuteResult, BackendError>(done)),
            r,
        ),
        forall|n: int, word: Seq<char>|
            word == "INSERT"@ || word == "UPDATE"@ || word == "DELETE"@ || word == "CREATE"@ || word
                == "DROP"@ || word == "ALTER"@ ==> !#[trigger] crate::text_laws::leads(
                sql@,
                n,
                word,
            ),
    ensures
        r matches Ok(Response::Execution(tag)) && tag.command@ == "OK"@,
{
    reveal_strlit("INSERT");
    reveal_strlit("UPDATE");
    reveal_strlit("DELETE");
    reveal_strlit("CREATE");
    reveal_strlit("DROP");
    reveal_strlit("ALTER");
    crate::text_laws::lemma_begins(sql@, "INSERT"@);
    crate::text_laws::lemma_begins(sql@, "UPDATE"@);
    crate::text_laws::lemma_begins(sql@, "DELETE"@);
    crate::text_laws::lemma_begins(sql@, "CREATE"@);
    crate::text_laws::lemma_begins(sql@, "DROP"@);
    crate::text_laws::lemma_begins(sql@, "ALTER"@);
}

/// Transaction control is answered as what it is: a begin starts a
/// transaction, a commit and a rollback end it, and anything else does
/// neither.
pub proof fn law_transactions_are_told(
    sql: &str,
    done: ExecuteResult,
    r: Result<Response, ErrorInfo>,
    n: int,
)
    requires
        call_ensures(
            do_mutation,
            (sql, StatementKind::Transaction, Ok::<ExecuteResult, BackendError>(done)),
            r,
        ),
    ensures
        r is Ok,
        crate::text_laws::leads(sql@, n, "BEGIN"@) || crate::text_laws::leads(sql@, n, "START"@)
            ==> (r matches Ok(Response::TransactionStart(tag)) && tag.command@ == "BEGIN"@),
        crate::text_laws::leads(sql@, n, "COMMIT"@) ==> (r
            matches Ok(Response::TransactionEnd(tag)) && tag.command@ == "COMMIT"@),
        crate::text_laws::leads(sql@, n, "ROLLBACK"@) ==> (r
            matches Ok(Response::TransactionEnd(tag)) && tag.command@ == "ROLLBACK"@),
        r matches Ok(Response::TransactionStart(_)) ==> exists|k: int|
            crate::text_laws::leads(sql@, k, "BEGIN"@) || crate::text_laws::leads(
                sql@,
                k,
                "START"@,
            ),
        r matches Ok(Response::TransactionEnd(_)) ==> exists|k: int|
            crate::text_laws::leads(sql@, k, "COMMIT"@) || crate::text_laws::leads(
                sql@,
                k,
                "ROLLBACK"@,
            ),
{
    crate::statement::lemma_verb(sql@);
    if crate::statement::verb_of(sql@) is Commit {
        let k = choose|k: int| crate::text_laws::leads(sql@, k, "COMMIT"@);
        assert(crate::text_laws::leads(sql@, k, "COMMIT"@) || crate::text_laws::leads(
            sql@,
            k,
            "ROLLBACK"@,
        ));
    }
    if crate::statement::verb_of(sql@) is Rollback {
        let k = choose|k: int| crate::text_laws::leads(sql@, k, "ROLLBACK"@);
        assert(crate::text_laws::leads(sql@, k, "COMMIT"@) || crate::text_laws::leads(
            sql@,
            k,
            "ROLLBACK"@,
        ));
    }
}

/// Where a column has no declared type the query itself is asked for one row;
/// where every column has one nothing is run.
pub proof fn law_one_row_is_probed(
    sql: &str,
    columns: Vec<Column>,
    format: Format,
    r: Probe,
)
    requires
        call_ensures(
            probe_columns,
            (sql, Ok::<Vec<Column>, BackendError>(columns), &format),
            r,
        ),
    ensures
        r is Query <==> exists|i: int|
            0 <= i < columns@.len() && (#[trigger] columns@[i]).decltype is None,
        r matches Probe::Query(q) ==> q@ == sql@ + " LIMIT 1"@,
        r matches Probe::Fields(fields) ==> fields@.len() == columns@.len(),
{
}

/// A failure of the backend is told with its own words, and by them.
pub proof fn law_failure_is_told(e: BackendError, r: ErrorInfo)
    requires
        call_ensures(pg_backend_error, (&e,), r),
    ensures
        r.severity@ == "ERROR"@,
        ({
            let m = match e {
                BackendError::Sqlite(m) => "SQLite error: "@ + m@,
                BackendError::Other(m) => "backend error: "@ + m@,
            };
            let duplicate = crate::text_laws::says_words(m, "unique constraint failed"@)
                || crate::text_laws::says_words(m, "primary key constraint failed"@);
            let foreign = crate::text_laws::says_words(m, "foreign key constraint failed"@);
            let null = crate::text_laws::says_words(m, "not null constraint failed"@);
            let check = crate::text_laws::says_words(m, "check constraint failed"@);
            let locked = crate::text_laws::says_words(m, "database is locked"@)
                || crate::text_laws::says_words(m, "database table is locked"@)
                || crate::text_laws::says_words(m, "sqlite_busy"@)
                || crate::text_laws::says_words(m, "sqlite_locked"@);
            let read_only = crate::text_laws::says_words(
                m,
                "attempt to write a readonly database"@,
            ) || crate::text_laws::says_words(m, "readonly database"@)
                || crate::text_laws::says_words(m, "sqlite_readonly"@);
            &&& r.message@ == m
            &&& r.code@ == if duplicate {
                "23505"@
            } else if foreign {
                "23503"@
            } else if null {
                "23502"@
            } else if check {
                "23514"@
            } else if locked {
                "55P03"@
            } else if read_only {
                "25006"@
            } else {
                "XX000"@
            }
        }),
{
    let m = crate::backend::error_text(e);
    crate::text_laws::lemma_occurs_lower(m, "unique constraint failed"@);
    crate::text_laws::lemma_occurs_lower(m, "primary key constraint failed"@);
    crate::text_laws::lemma_occurs_lower(m, "foreign key constraint failed"@);
    crate::text_laws::lemma_occurs_lower(m, "not null constraint failed"@);
    crate::text_laws::lemma_occurs_lower(m, "check constraint failed"@);
    crate::text_laws::lemma_occurs_lower(m, "database is locked"@);
    crate::text_laws::lemma_occurs_lower(m, "database table is locked"@);
    crate::text_laws::lemma_occurs_lower(m, "sqlite_busy"@);
    crate::text_laws::lemma_occurs_lower(m, "sqlite_locked"@);
    crate::text_laws::lemma_occurs_lower(m, "attempt to write a readonly database"@);
    crate::text_laws::lemma_occurs_lower(m, "readonly database"@);
    crate::text_laws::lemma_occurs_lower(m, "sqlite_readonly"@);
}

/// The statements of a query are answered from the front: one that is to do
/// nothing and empty SQL are answered at once, with a command and no rows, and
/// any other is asked of the backend as it stands. Once one has failed,
/// nothing more is taken.
pub proof fn law_statements_are_taken_in_turn(q: &mut SimpleQuery, r: Next)
    requires
        call_ensures(SimpleQuery::next, (q,), r),
    ensures
        r is Done <==> old(q).failure is Some || old(q).waiting@.len() == 0,
        final(q).failure == old(q).failure,
        r is Done ==> final(q).waiting@ == old(q).waiting@ && final(q).responses@ == old(
            q,
        ).responses@,
        !(r is Done) ==> {
            let (t, kind) = old(q).waiting@[0];
            &&& final(q).waiting@ == old(q).waiting@.skip(1)
            &&& r is Answered <==> t is Noop || (t matches Translated::Sql(sql) && sql@.len() == 0)
            &&& r is Answered ==> final(q).responses@.len() == old(q).responses@.len() + 1 && (
            final(q).responses@.last() matches Response::Execution(tag) && tag.rows is None
                && tag.command@ == if t is Noop { "SET"@ } else { "OK"@ })
            &&& r matches Next::Run(call) ==> {
                let text = match t {
                    Translated::Noop => Seq::empty(),
                    Translated::Metadata(sql) => sql@,
                    Translated::Sql(sql) => sql@,
                };
                &&& final(q).responses@ == old(q).responses@
                &&& match call {
                    Call::Query(s) => kind is Query && s@ == text,
                    Call::Execute(s, k) => !(kind is Query) && s@ == text && k == kind,
                }
            }
        },
{
}

/// A query that failed is answered with its error alone, and any other with
/// every answer in its order; a query of no statements is answered too.
pub proof fn law_query_is_answered(q: SimpleQuery, r: Result<Vec<Response>, ErrorInfo>)
    requires
        call_ensures(SimpleQuery::finish, (q,), r),
    ensures
        q.failure matches Some(e) ==> r == Err::<Vec<Response>, ErrorInfo>(e),
        q.failure is None ==> r is Ok && r->Ok_0@.len() > 0,
        q.failure is None && q.responses@.len() > 0 ==> r->Ok_0@ == q.responses@,
{
}

/// Every parameter has a value, in its order; one whose type is not declared
/// is a text.
pub proof fn law_parameters_in_their_order(
    portal: BoundParameters,
    floats: &[Option<Double>],
    r: Vec<Value>,
    i: int,
    one: Value,
)
    requires
        crate::postgres::row::covers(portal.format, portal.parameters@.len()),
        floats@.len() == portal.parameters@.len(),
        call_ensures(extract_params, (&portal, floats), r),
        0 <= i < portal.parameters@.len(),
        call_ensures(
            parameter_value,
            (
                if i < portal.types@.len() { portal.types@[i] } else { Type::TEXT },
                &portal.parameters@[i],
                &floats@[i],
            ),
            one,
        ),
    ensures
        r@.len() == portal.parameters@.len(),
        r@[i]@ == one@,
{
    let t = if i < portal.types@.len() { portal.types@[i] } else { Type::TEXT };
    assert(crate::postgres::row::is_parameter(
        r@[i]@,
        crate::postgres::row::parameter_type(portal.types@, i),
        crate::postgres::row::bytes_view(portal.parameters@[i]),
        crate::postgres::row::double_view(floats@[i]),
    ));
    if let Some(v) = portal.parameters@[i] {
        if vstd::utf8::valid_utf8(v@) {
            if let crate::backend::Datum::Text(a) = r@[i]@ {
                if let crate::backend::Datum::Text(b) = one@ {
                    vstd::utf8::encode_utf8_decode_utf8(a);
                    vstd::utf8::encode_utf8_decode_utf8(b);
                }
            }
        }
    }
}

/// A text that could not be translated is an internal error with the
/// translator's words; any other is its first statement, and nothing where
/// there is none.
pub proof fn law_first_statement_counts(
    translated: Result<Vec<(Translated, StatementKind)>, String>,
    r: Result<(String, StatementKind), ErrorInfo>,
)
    requires
        call_ensures(translate_sql, (translated,), r),
    ensures
        translated matches Err(m) ==> (r matches Err(e) && e.code@ == "XX000"@ && e.severity@
            == "ERROR"@ && e.message@ == m@),
        translated matches Ok(t) ==> (r matches Ok(first) && if t@.len() == 0 {
            first.0@.len() == 0
        } else {
            match t@[0].0 {
                Translated::Noop => first.0@.len() == 0,
                Translated::Metadata(sql) => first.0@ == sql@ && first.1 is Query,
                Translated::Sql(sql) => first.0@ == sql@ && first.1 == t@[0].1,
            }
        }),
{
}

/// The codes of the formats: 0 for text and 1 for binary.
pub proof fn law_format_codes(f: FieldFormat, r: i16)
    requires
        call_ensures(FieldFormat::value, (&f,), r),
    ensures
        f is Text ==> r == 0,
        f is Binary ==> r == 1,
{
}

} // verus!
