//! What a TDS client can count on, whatever it sends.
use crate::backend::{BackendError, Column, ExecuteResult, ResultSet, Value};
use crate::statement::{StatementKind, Translated};
use crate::tds::handler::{
    batch_sql, dispatch, expect_login7, expect_prelogin, extract_nvarchar_param, job,
    login_database, login_response, parse_login7_database, rpc_request, skip_all_headers,
    write_transaction_result, Dispatch, Execution, Job, Next, RpcRequest, TdsSession,
};
use crate::tds::packet::{MessageReader, PacketType};
use crate::tds::token::{build_columns, TdsColumn, TdsType};
use bytes::BytesMut;
use vstd::prelude::*;

verus! {

/// The numbers of the packet types; no other number is one.
pub proof fn law_packet_types(t: PacketType, code: u8, b: u8, r: Option<PacketType>)
    requires
        call_ensures(PacketType::code, (t,), code),
        call_ensures(PacketType::from_u8, (b,), r),
    ensures
        code == match t {
            PacketType::SqlBatch => 1u8,
            PacketType::RpcRequest => 3u8,
            PacketType::Response => 4u8,
            PacketType::Login7 => 16u8,
            PacketType::PreLogin => 18u8,
        },
        r == Some(t) <==> b == code,
        r is None <==> b != 1 && b != 3 && b != 4 && b != 16 && b != 18,
{
}

/// A header tells the type, whether the packet is the last, how long it is
/// with its header, and the packet's number, which counts from one and starts
/// over after 255.
pub proof fn law_header_reads_back(t: PacketType, last: bool, len: nat, index: nat)
    requires
        len + 8 < 65536,
    ensures
        ({
            let h = crate::tds::packet::header_bytes(t, last, len, index);
            &&& h.len() == 8
            &&& h[0] == crate::tds::packet::type_code(t)
            &&& h[1] == if last { 1u8 } else { 0u8 }
            &&& 256 * h[2] + h[3] == len + 8
            &&& h[4] == 0
            &&& h[5] == 0
            &&& h[6] == (index + 1) % 256
            &&& h[7] == 0
        }),
{
    crate::wire::lemma_be2(8 + len);
    crate::wire::lemma_be2(0);
    crate::tds::packet::lemma_header_len(t, last, len, index);
}

/// As many bytes follow a header as it tells, less its own eight; the packet
/// is the last where the lowest bit of the status is set, and the type is
/// that of the first packet with a known one.
pub proof fn law_header_is_read(reader: &mut MessageReader, header: [u8; 8], r: usize)
    requires
        call_ensures(MessageReader::begin_packet, (reader, header), r),
    ensures
        256 * header@[2] + header@[3] >= 8 ==> r == 256 * header@[2] + header@[3] - 8,
        256 * header@[2] + header@[3] < 8 ==> r == 0,
        final(reader).last <==> header@[1] % 2 == 1,
        old(reader).packet_type is Some ==> final(reader).packet_type == old(reader).packet_type,
        old(reader).packet_type is None ==> (final(reader).packet_type matches Some(t)
            ==> header@[0] == crate::tds::packet::type_code(t)),
        final(reader).payload == old(reader).payload,
{
}

/// The answer to a PRELOGIN, byte by byte: where the version and the
/// encryption stand, then version 15 and no encryption.
pub proof fn law_prelogin()
    ensures
        crate::tds::handler::prelogin_bytes() == seq![
            0u8, 0u8, 11u8, 0u8, 6u8, 1u8, 0u8, 17u8, 0u8, 1u8, 255u8, 15u8, 0u8, 0u8, 0u8, 0u8, 0u8,
            2u8,
        ],
{
    crate::wire::lemma_be2(11);
    crate::wire::lemma_be2(6);
    crate::wire::lemma_be2(17);
    crate::wire::lemma_be2(1);
    crate::wire::lemma_be2(0);
    assert(crate::tds::handler::prelogin_bytes() =~= seq![
        0u8, 0u8, 11u8, 0u8, 6u8, 1u8, 0u8, 17u8, 0u8, 1u8, 255u8, 15u8, 0u8, 0u8, 0u8, 0u8, 0u8,
        2u8,
    ]);
}

/// A login that tells where its database's name stands, and how many code
/// units it has, is read as naming that database.
pub proof fn law_login_database_reads_back(
    payload: &[u8],
    r: Option<String>,
    at: int,
    name: Seq<char>,
)
    requires
        call_ensures(parse_login7_database, (payload,), r),
        payload@.len() >= 94,
        name.len() > 0,
        0 <= at,
        at + crate::utf16::utf16le(name).len() <= payload@.len(),
        payload@[60] + 256 * payload@[61] == at,
        2 * (payload@[62] + 256 * payload@[63]) == crate::utf16::utf16le(name).len(),
        payload@.subrange(at, at + crate::utf16::utf16le(name).len()) == crate::utf16::utf16le(
            name,
        ),
    ensures
        r is Some,
        r->0@ == name,
{
    crate::utf16::law_utf16_reads_back(name);
    lemma_not_empty(name);
}

proof fn lemma_not_empty(s: Seq<char>)
    requires
        s.len() > 0,
    ensures
        crate::utf16::utf16le(s).len() > 0,
{
    let last = crate::utf16::char_units(s.last());
    assert(last.len() > 0);
    assert(crate::utf16::units(s) == crate::utf16::units(s.drop_last()) + last);
}

/// A login too short for its fixed part, with an empty name or with a name
/// that would end beyond it, names no database.
pub proof fn law_login_without_database(payload: &[u8], r: Option<String>)
    requires
        call_ensures(parse_login7_database, (payload,), r),
        payload@.len() < 94 || payload@[62] + 256 * payload@[63] == 0 || payload@[60] + 256
            * payload@[61] + 2 * (payload@[62] + 256 * payload@[63]) > payload@.len(),
    ensures
        r is None,
{
}

/// Headers that tell their own length, and that are followed by SQL in
/// UTF-16, are skipped: the batch is that SQL.
pub proof fn law_batch_behind_headers(
    payload: &[u8],
    r: Result<String, &'static str>,
    headers: Seq<u8>,
    sql: Seq<char>,
)
    requires
        call_ensures(batch_sql, (payload,), r),
        headers.len() >= 4,
        payload@ == headers + crate::utf16::utf16le(sql),
        headers[0] + 0x100 * headers[1] + 0x1_0000 * headers[2] + 0x100_0000 * headers[3]
            == headers.len(),
    ensures
        r matches Ok(s) && s@ == sql,
{
    let text = crate::utf16::utf16le(sql);
    assert((headers + text).skip(headers.len() as int) =~= text);
    crate::utf16::law_utf16_reads_back(sql);
}

/// Without headers that fit, the whole is data.
pub proof fn law_no_headers(payload: &[u8], r: usize)
    requires
        call_ensures(skip_all_headers, (payload,), r),
    ensures
        payload@.len() < 4 ==> r == 0,
        payload@.len() >= 4 ==> ({
            let total = payload@[0] + 0x100 * payload@[1] + 0x1_0000 * payload@[2] + 0x100_0000
                * payload@[3];
            r == if total < 4 || total > payload@.len() { 0 } else { total }
        }),
{
}

/// The first parameter of a procedure, where it is Unicode text: a name of
/// any length, the status, the type, its size and its collation, and the
/// text behind its length. What follows it plays no part.
pub proof fn law_parameter_reads_back(
    data: &[u8],
    r: Option<String>,
    name: Seq<u8>,
    status: u8,
    limits: Seq<u8>,
    sql: Seq<char>,
    rest: Seq<u8>,
)
    requires
        call_ensures(extract_nvarchar_param, (data,), r),
        name.len() % 2 == 0,
        name.len() / 2 < 256,
        limits.len() == 7,
        crate::utf16::utf16le(sql).len() < 0xFFFF,
        data@ == seq![(name.len() / 2) as u8] + name + seq![status, 0xE7u8] + limits
            + crate::wire::le(crate::utf16::utf16le(sql).len(), 2) + crate::utf16::utf16le(sql)
            + rest,
    ensures
        r is Some,
        r->0@ == sql,
{
    let text = crate::utf16::utf16le(sql);
    let d = data@;
    crate::wire::lemma_le2(text.len());
    crate::utf16::law_utf16_reads_back(sql);
    let t = 2 + name.len() as int;
    assert(d[0] == (name.len() / 2) as u8);
    assert(2 + 2 * d[0] == t);
    assert(d[t] == 0xE7);
    let v = t + 8;
    assert(d[v] == text.len() % 256);
    assert(d[v + 1] == text.len() / 256 % 256);
    assert(d.subrange(v + 2, v + 2 + text.len()) =~= text);
}

/// A call of the procedure with the number 10 is the SQL of its first
/// parameter; a call of any other, by name or by number, is not run.
pub proof fn law_procedure_call(payload: &[u8], r: RpcRequest, headers: Seq<u8>, body: Seq<u8>)
    requires
        call_ensures(rpc_request, (payload,), r),
        headers.len() >= 4,
        payload@ == headers + body,
        headers[0] + 0x100 * headers[1] + 0x1_0000 * headers[2] + 0x100_0000 * headers[3]
            == headers.len(),
    ensures
        body.len() < 4 ==> r is Malformed,
        body.len() >= 4 && !(body[0] == 255 && body[1] == 255 && body[2] == 10 && body[3] == 0)
            ==> r is Unsupported,
        body.len() >= 4 && body[0] == 255 && body[1] == 255 && body[2] == 10 && body[3] == 0 ==> {
            &&& body.len() < 6 ==> r is Malformed
            &&& body.len() >= 6 ==> match crate::tds::handler::nvarchar_param(body.skip(6)) {
                Some(sql) => r matches RpcRequest::Sql(s) && s@ == sql,
                None => r is Malformed,
            }
        },
{
    assert((headers + body).skip(headers.len() as int) =~= body);
}

/// SQL is run as it stands, by its kind; empty SQL and a statement that is to
/// do nothing are not run, and a query of metadata is a query.
pub proof fn law_jobs(result: Translated, kind: StatementKind, r: Job)
    requires
        call_ensures(job, (result, kind), r),
    ensures
        match result {
            Translated::Noop => r is Done,
            Translated::Metadata(sql) => r matches Job::Query(s) && s@ == sql@,
            Translated::Sql(sql) => match r {
                Job::Done => sql@.len() == 0,
                Job::Query(s) => sql@.len() > 0 && kind is Query && s@ == sql@,
                Job::Transaction(s) => sql@.len() > 0 && kind is Transaction && s@ == sql@,
                Job::Execute(s) => sql@.len() > 0 && !(kind is Query) && !(kind is Transaction)
                    && s@ == sql@,
            },
        },
{
}

/// A transaction command that the backend accepted changes the session by the
/// word that leads it, in whatever case and behind whatever white space: a
/// begin opens a transaction with the next number, and a commit or a rollback
/// closes it. One that failed changes nothing. What is written begins with
/// the token that tells of the change, and of a begin it carries the new
/// number, of an end the old one.
pub proof fn law_transaction_commands(
    resp: &mut BytesMut,
    sql: &str,
    outcome: Result<ExecuteResult, BackendError>,
    session: &mut TdsSession,
    n: int,
)
    requires
        call_ensures(write_transaction_result, (resp, sql, &outcome, session), ()),
        old(session).next_tran_id < u64::MAX,
    ensures
        outcome is Err ==> *final(session) == *old(session),
        outcome is Ok ==> ({
            let start = crate::buffer::held(*old(resp)).len() as int;
            let b = crate::buffer::held(*final(resp)).skip(start);
            &&& crate::text_laws::leads(sql@, n, "BEGIN"@) || crate::text_laws::leads(
                sql@,
                n,
                "START"@,
            ) ==> {
                &&& final(session).in_transaction
                &&& final(session).current_tran_id == old(session).next_tran_id
                &&& final(session).next_tran_id == old(session).next_tran_id + 1
                &&& b == crate::tds::token::begin_tran_bytes(old(session).next_tran_id as nat)
                    + crate::tds::token::done_bytes(0, 0)
            }
            &&& crate::text_laws::leads(sql@, n, "COMMIT"@) || crate::text_laws::leads(
                sql@,
                n,
                "ROLLBACK"@,
            ) ==> {
                &&& !final(session).in_transaction
                &&& final(session).current_tran_id == 0
                &&& final(session).next_tran_id == old(session).next_tran_id
            }
            &&& crate::text_laws::leads(sql@, n, "COMMIT"@) ==> b
                == crate::tds::token::end_tran_bytes(9, old(session).current_tran_id as nat)
                + crate::tds::token::done_bytes(0, 0)
            &&& crate::text_laws::leads(sql@, n, "ROLLBACK"@) ==> b
                == crate::tds::token::end_tran_bytes(10, old(session).current_tran_id as nat)
                + crate::tds::token::done_bytes(0, 0)
        }),
{
    crate::statement::lemma_verb(sql@);
    let start = crate::buffer::held(*old(resp)).len() as int;
    let b = crate::buffer::held(*final(resp)).skip(start);
    assert(b =~= crate::tds::handler::transaction_result(sql@, outcome, *old(session)).0);
}

/// What is written for a query ends with a DONE token that counts its rows,
/// and for a statement without rows is a DONE token that counts the rows
/// changed.
pub proof fn law_rows_are_counted(
    rs: ResultSet,
    as_doubles: Seq<Vec<Option<u64>>>,
    done: ExecuteResult,
)
    requires
        rs.rows@.len() <= u64::MAX,
    ensures
        ({
            let b = crate::tds::handler::query_result_bytes(Ok(rs), as_doubles);
            let end = b.skip(b.len() - 13);
            &&& b.len() >= 13
            &&& end[0] == 0xFD
            &&& end[1] == 0x10
            &&& end[2] == 0
            &&& crate::wire::low_first8(end.skip(5)) == rs.rows@.len()
        }),
        ({
            let b = crate::tds::handler::exec_result_bytes(Ok(done));
            &&& b.len() == 13
            &&& b[0] == 0xFD
            &&& b[1] == 0x10
            &&& b[2] == 0
            &&& crate::wire::low_first8(b.skip(5)) == done.affected_rows
        }),
{
    let n = rs.rows@.len();
    crate::tds::token_laws::law_done_reads_back(0x10, n as u64);
    crate::tds::token_laws::law_done_reads_back(0x10, done.affected_rows);
    crate::wire::lemma_le2(0x10);
    let b = crate::tds::handler::query_result_bytes(Ok(rs), as_doubles);
    assert(b.skip(b.len() - 13) =~= crate::tds::token::done_bytes(0x10, n));
}

/// One more row in a result is its bytes behind those of the others.
pub proof fn law_rows_come_in_turn(
    columns: Seq<crate::tds::token::WireColumn>,
    rows: Seq<Vec<Value>>,
    as_doubles: Seq<Vec<Option<u64>>>,
    row: Vec<Value>,
    i: int,
)
    requires
        0 <= i <= rows.len(),
    ensures
        crate::tds::handler::rows_bytes(columns, rows.push(row), as_doubles, i)
            == crate::tds::handler::rows_bytes(columns, rows, as_doubles, i)
            + crate::tds::token::row_bytes(
            columns,
            row@,
            if rows.len() < as_doubles.len() {
                as_doubles[rows.len() as int]@
            } else {
                Seq::empty()
            },
        ),
    decreases rows.len() - i,
{
    let more = rows.push(row);
    let last = crate::tds::token::row_bytes(
        columns,
        row@,
        crate::tds::handler::doubles_of(as_doubles, rows.len() as int),
    );
    if i < rows.len() {
        law_rows_come_in_turn(columns, rows, as_doubles, row, i + 1);
        assert(more[i] == rows[i]);
        assert(crate::tds::handler::rows_bytes(columns, more, as_doubles, i)
            =~= crate::tds::handler::rows_bytes(columns, rows, as_doubles, i) + last);
    } else {
        assert(more[i] == row);
        assert(crate::tds::handler::rows_bytes(columns, more, as_doubles, i + 1)
            =~= Seq::<u8>::empty());
        assert(crate::tds::handler::rows_bytes(columns, more, as_doubles, i) =~= last);
        assert(crate::tds::handler::rows_bytes(columns, rows, as_doubles, i) + last =~= last);
    }
}

/// What is written for a failure is an error with the number 50000 and the
/// backend's own words, and a DONE token that counts nothing, whatever was
/// run.
pub proof fn law_failure_is_told(e: BackendError, as_doubles: Seq<Vec<Option<u64>>>)
    ensures
        ({
            let m = match e {
                BackendError::Sqlite(m) => "SQLite error: "@ + m@,
                BackendError::Other(m) => "backend error: "@ + m@,
            };
            let told = crate::tds::token::error_bytes(50000, m) + crate::tds::token::done_bytes(
                0,
                0,
            );
            &&& crate::tds::handler::query_result_bytes(Err(e), as_doubles) == told
            &&& crate::tds::handler::exec_result_bytes(Err(e)) == told
        }),
{
}

/// The columns are described in their order and by their names. One with a
/// declared type goes by the words in it; one without goes by its value in
/// the first row, and is text where there is none.
pub proof fn law_columns_are_described(
    columns: &[Column],
    first_row: Option<&[Value]>,
    r: Vec<TdsColumn>,
    i: int,
)
    requires
        call_ensures(build_columns, (columns, first_row), r),
        0 <= i < columns@.len(),
    ensures
        r@.len() == columns@.len(),
        r@[i].name@ == columns@[i].name@,
        columns@[i].decltype matches Some(d) ==> {
            let integer = crate::text_laws::holds_word(d@, "INT"@)
                || crate::text_laws::holds_word(d@, "BOOL"@)
                || crate::text_laws::holds_word(d@, "BIT"@);
            let float = crate::text_laws::holds_word(d@, "REAL"@)
                || crate::text_laws::holds_word(d@, "FLOAT"@)
                || crate::text_laws::holds_word(d@, "DOUBLE"@);
            let binary = crate::text_laws::holds_word(d@, "BLOB"@)
                || crate::text_laws::holds_word(d@, "BINARY"@);
            r@[i].tds_type == if integer {
                TdsType::BigInt
            } else if float {
                TdsType::Float8
            } else if binary {
                TdsType::VarBinary
            } else {
                TdsType::NVarChar
            }
        },
        columns@[i].decltype is None ==> r@[i].tds_type == if first_row is None || i
            >= first_row->0@.len() {
            TdsType::NVarChar
        } else if first_row->0@[i]@ is Integer {
            TdsType::BigInt
        } else if first_row->0@[i]@ is Float {
            TdsType::Float8
        } else if first_row->0@[i]@ is Blob {
            TdsType::VarBinary
        } else {
            TdsType::NVarChar
        },
{
    let views = crate::tds::token::column_views(r@);
    assert(views.len() == r@.len());
    assert(views[i] == r@[i]@);
    assert(views[i] == crate::tds::token::wire_columns(columns@, first_row)[i]);
    if let Some(d) = columns@[i].decltype {
        crate::text_laws::lemma_occurs_upper(d@, "INT"@);
        crate::text_laws::lemma_occurs_upper(d@, "BOOL"@);
        crate::text_laws::lemma_occurs_upper(d@, "BIT"@);
        crate::text_laws::lemma_occurs_upper(d@, "REAL"@);
        crate::text_laws::lemma_occurs_upper(d@, "FLOAT"@);
        crate::text_laws::lemma_occurs_upper(d@, "DOUBLE"@);
        crate::text_laws::lemma_occurs_upper(d@, "BLOB"@);
        crate::text_laws::lemma_occurs_upper(d@, "BINARY"@);
    }
}

/// The statements of a request are taken from the front: one that is not run
/// leaves a DONE token, and any other is run as it stands before anything is
/// written for it.
pub proof fn law_statements_are_taken_in_turn(e: &mut Execution, r: Next)
    requires
        crate::buffer::fits(old(e).resp, 13),
        call_ensures(Execution::next, (e,), r),
    ensures
        r is Finished <==> old(e).waiting@.len() == 0,
        !(r is Finished) ==> {
            let (t, kind) = old(e).waiting@[0];
            &&& final(e).waiting@ == old(e).waiting@.skip(1)
            &&& r is Written <==> t is Noop || (t matches Translated::Sql(sql) && sql@.len() == 0)
            &&& r is Written ==> crate::buffer::held(final(e).resp) == crate::buffer::held(
                old(e).resp,
            ) + crate::tds::token::done_bytes(0, 0)
            &&& r matches Next::Run(j) ==> {
                let text = match t {
                    Translated::Noop => Seq::empty(),
                    Translated::Metadata(sql) => sql@,
                    Translated::Sql(sql) => sql@,
                };
                &&& final(e).resp == old(e).resp
                &&& match j {
                    Job::Done => false,
                    Job::Query(s) => s@ == text && (t is Metadata || kind is Query),
                    Job::Transaction(s) => s@ == text && t is Sql && kind is Transaction,
                    Job::Execute(s) => s@ == text && t is Sql && !(kind is Query) && !(
                    kind is Transaction),
                }
            }
        },
{
}

/// A login is answered with the server's name, the database, the packet size,
/// a notice that names the database, and the end.
pub proof fn law_login_is_answered(name: &str, r: BytesMut)
    requires
        crate::tds::handler::login_bytes(name@).len() <= isize::MAX,
        call_ensures(login_response, (name,), r),
    ensures
        crate::buffer::held(r) == crate::tds::token::loginack_bytes("litewire"@)
            + crate::tds::token::envchange_database_bytes(name@)
            + crate::tds::token::envchange_packet_size_bytes(4096) + crate::tds::token::info_bytes(
            5701,
            "Changed database context to '"@ + name@ + "'."@,
        ) + crate::tds::token::done_bytes(0, 0),
{
}

/// A login that names no database is one to `master`.
pub proof fn law_default_database(payload: &[u8], named: Option<String>, r: String)
    requires
        call_ensures(parse_login7_database, (payload,), named),
        call_ensures(login_database, (payload,), r),
    ensures
        named matches Some(name) ==> r@ == name@,
        named is None ==> r@ == "master"@,
{
}

/// A connection begins with a PRELOGIN and a LOGIN7; then batches and
/// procedure calls are run, and anything else is let be.
pub proof fn law_phases(
    t: PacketType,
    first: Result<(), String>,
    second: Result<(), String>,
    then: Dispatch,
)
    requires
        call_ensures(expect_prelogin, (t,), first),
        call_ensures(expect_login7, (t,), second),
        call_ensures(dispatch, (t,), then),
    ensures
        first is Ok <==> t is PreLogin,
        second is Ok <==> t is Login7,
        then is SqlBatch <==> t is SqlBatch,
        then is RpcRequest <==> t is RpcRequest,
{
}

/// Every transaction of a connection has a number of its own, and its end
/// tells that number.
pub proof fn law_transaction_numbers(
    begun: &mut TdsSession,
    ended: &mut TdsSession,
    id: u64,
    told: u64,
)
    requires
        old(begun).next_tran_id < u64::MAX,
        call_ensures(TdsSession::begin, (begun,), id),
        *old(ended) == *final(begun),
        call_ensures(TdsSession::end, (ended,), told),
    ensures
        id == old(begun).next_tran_id,
        final(begun).next_tran_id == id + 1,
        final(begun).in_transaction,
        told == id,
        !final(ended).in_transaction,
        final(ended).next_tran_id == id + 1,
        final(ended).current_tran_id == 0,
{
}

} // verus!
