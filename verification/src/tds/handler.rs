//! One TDS connection: Pre-Login, Login7, then SQL batches and RPC requests.
//!
//! What a message asks for is read here, and what it is answered with is
//! written here; the socket and the database are the caller's.
use crate::backend::{BackendError, ExecuteResult, ResultSet};
use crate::buffer::{buffer_is_empty, new_buffer, put_u16, put_u8};
use crate::session::queue_of;
use crate::statement::{transaction_verb, StatementKind, TransactionVerb, Translated};
use crate::tds::packet::{PacketType, DEFAULT_PACKET_SIZE};
use crate::tds::token::{
    build_columns, write_colmetadata, write_done, write_envchange_begin_tran,
    write_envchange_commit_tran, write_envchange_database, write_envchange_packet_size,
    write_envchange_rollback_tran, write_error, write_info, write_loginack, write_row, DONE_COUNT,
    DONE_FINAL,
};
use crate::utf16::decode_utf16le;
use bytes::BytesMut;
use std::collections::VecDeque;
use vstd::prelude::*;
use vstd::slice::slice_subrange;

verus! {

/// The number of the errors that the server reports.
pub const ERROR_NUMBER: u32 = 50000;

/// The transaction state of a connection.
#[derive(Debug)]
pub struct TdsSession {
    /// The connection is in an explicit transaction.
    pub in_transaction: bool,
    /// The descriptor of the next transaction.
    pub next_tran_id: u64,
    /// The descriptor of the current transaction; zero outside one.
    pub current_tran_id: u64,
}

impl TdsSession {
    /// Descriptors count up from 1, and the current one is below the next.
    pub open spec fn ok(self) -> bool {
        &&& 1 <= self.next_tran_id
        &&& self.current_tran_id < self.next_tran_id
        &&& self.in_transaction <==> self.current_tran_id != 0
    }

    pub fn new() -> (r: TdsSession)
        ensures
            r == (TdsSession { in_transaction: false, next_tran_id: 1, current_tran_id: 0 }),
            r.ok(),
    {
        TdsSession { in_transaction: false, next_tran_id: 1, current_tran_id: 0 }
    }

    /// Begins a transaction and gives its descriptor, which no transaction
    /// of the connection had before.
    pub fn begin(&mut self) -> (r: u64)
        requires
            old(self).next_tran_id < u64::MAX,
        ensures
            r == old(self).next_tran_id,
            *final(self) == (TdsSession {
                in_transaction: true,
                next_tran_id: (r + 1) as u64,
                current_tran_id: r,
            }),
            old(self).ok() ==> final(self).ok(),
    {
        let id: u64 = self.next_tran_id;
        self.next_tran_id += 1;
        self.current_tran_id = id;
        self.in_transaction = true;
        id
    }

    /// Ends the transaction and gives its descriptor.
    pub fn end(&mut self) -> (r: u64)
        ensures
            r == old(self).current_tran_id,
            *final(self) == (TdsSession {
                in_transaction: false,
                current_tran_id: 0,
                ..*old(self)
            }),
            old(self).ok() ==> final(self).ok(),
    {
        let old_id: u64 = self.current_tran_id;
        self.current_tran_id = 0;
        self.in_transaction = false;
        old_id
    }
}

/// What the server does with a message of the query phase.
#[derive(Clone, Copy, Debug, PartialEq, Eq, Structural)]
pub enum Dispatch {
    SqlBatch,
    RpcRequest,
    Ignore,
}

/// Decides what to do with a message of the query phase.
pub fn dispatch(packet_type: PacketType) -> (r: Dispatch)
    ensures
        r == match packet_type {
            PacketType::SqlBatch => Dispatch::SqlBatch,
            PacketType::RpcRequest => Dispatch::RpcRequest,
            _ => Dispatch::Ignore,
        },
{
    match packet_type {
        PacketType::SqlBatch => Dispatch::SqlBatch,
        PacketType::RpcRequest => Dispatch::RpcRequest,
        _ => Dispatch::Ignore,
    }
}

/// Accepts the first message of a connection where it is a PRELOGIN.
pub fn expect_prelogin(packet_type: PacketType) -> (r: Result<(), String>)
    ensures
        match r {
            Ok(()) => packet_type == PacketType::PreLogin,
            Err(m) => packet_type != PacketType::PreLogin && m@ == "expected PRELOGIN, got "@
                + crate::tds::packet::packet_name(packet_type),
        },
{
    match packet_type {
        PacketType::PreLogin => Ok(()),
        _ => {
            let mut m: String = "expected PRELOGIN, got ".to_owned();
            m.append(packet_type.name());
            Err(m)
        },
    }
}

/// Accepts the second message of a connection where it is a LOGIN7.
pub fn expect_login7(packet_type: PacketType) -> (r: Result<(), String>)
    ensures
        match r {
            Ok(()) => packet_type == PacketType::Login7,
            Err(m) => packet_type != PacketType::Login7 && m@ == "expected LOGIN7, got "@
                + crate::tds::packet::packet_name(packet_type),
        },
{
    match packet_type {
        PacketType::Login7 => Ok(()),
        _ => {
            let mut m: String = "expected LOGIN7, got ".to_owned();
            m.append(packet_type.name());
            Err(m)
        },
    }
}

/// The PRELOGIN response: where the version and the encryption mode stand,
/// then version 15.0.0.0 and "encryption not supported".
pub open spec fn prelogin_bytes() -> Seq<u8> {
    prelogin_options() + prelogin_data()
}

pub open spec fn prelogin_options() -> Seq<u8> {
    seq![0u8] + crate::wire::be(11, 2) + crate::wire::be(6, 2) + seq![1u8] + crate::wire::be(17, 2)
        + crate::wire::be(1, 2) + seq![0xFFu8]
}

pub open spec fn prelogin_data() -> Seq<u8> {
    seq![15u8] + seq![0u8] + crate::wire::be(0, 2) + crate::wire::be(0, 2) + seq![2u8]
}

fn put_prelogin_options(resp: &mut BytesMut)
    requires
        crate::buffer::fits(*old(resp), 11),
    ensures
        crate::buffer::held(*final(resp)) == crate::buffer::held(*old(resp)) + prelogin_options(),
{
    let ghost h = crate::buffer::held(*resp);
    proof {
        crate::tds::token::lemma_lens();
    }
    put_u8(resp, 0x00);
    put_u16(resp, 11);
    put_u16(resp, 6);
    put_u8(resp, 0x01);
    put_u16(resp, 17);
    put_u16(resp, 1);
    put_u8(resp, 0xFF);
    proof {
        crate::wire::lemma_append7(
            h,
            seq![0u8],
            crate::wire::be(11, 2),
            crate::wire::be(6, 2),
            seq![1u8],
            crate::wire::be(17, 2),
            crate::wire::be(1, 2),
            seq![0xFFu8],
        );
    }
}

fn put_prelogin_data(resp: &mut BytesMut)
    requires
        crate::buffer::fits(*old(resp), 7),
    ensures
        crate::buffer::held(*final(resp)) == crate::buffer::held(*old(resp)) + prelogin_data(),
{
    let ghost h = crate::buffer::held(*resp);
    proof {
        crate::tds::token::lemma_lens();
    }
    put_u8(resp, 15);
    put_u8(resp, 0);
    put_u16(resp, 0);
    put_u16(resp, 0);
    put_u8(resp, 0x02);
    proof {
        crate::wire::lemma_append5(
            h,
            seq![15u8],
            seq![0u8],
            crate::wire::be(0, 2),
            crate::wire::be(0, 2),
            seq![2u8],
        );
    }
}

/// The response to a PRELOGIN.
pub fn prelogin_response() -> (r: BytesMut)
    ensures
        crate::buffer::held(r) == prelogin_bytes(),
{
    let mut resp = new_buffer();
    put_prelogin_options(&mut resp);
    proof {
        crate::tds::token::lemma_lens();
    }
    put_prelogin_data(&mut resp);
    assert(crate::buffer::held(resp) =~= prelogin_bytes());
    resp
}

pub open spec fn context_text(db_name: Seq<char>) -> Seq<char> {
    "Changed database context to '"@ + db_name + "'."@
}

/// The login response: acknowledgement, database, packet size, a notice, and
/// the end.
pub open spec fn login_bytes(db_name: Seq<char>) -> Seq<u8> {
    crate::tds::token::loginack_bytes("litewire"@) + crate::tds::token::envchange_database_bytes(
        db_name,
    ) + crate::tds::token::envchange_packet_size_bytes(4096) + crate::tds::token::info_bytes(
        5701,
        context_text(db_name),
    ) + crate::tds::token::done_bytes(DONE_FINAL, 0)
}

/// The response to a LOGIN7.
pub fn login_response(db_name: &str) -> (r: BytesMut)
    requires
        login_bytes(db_name@).len() <= isize::MAX,
    ensures
        crate::buffer::held(r) == login_bytes(db_name@),
{
    let mut notice: String = "Changed database context to '".to_owned();
    notice.append(db_name);
    notice.append("'.");
    let mut resp = new_buffer();
    proof {
        lemma_done_len(DONE_FINAL, 0);
    }
    write_loginack(&mut resp, "litewire");
    assert(crate::buffer::held(resp) =~= crate::tds::token::loginack_bytes("litewire"@));
    write_envchange_database(&mut resp, db_name);
    write_envchange_packet_size(&mut resp, DEFAULT_PACKET_SIZE as u32);
    write_info(&mut resp, 5701, notice.as_str());
    write_done(&mut resp, DONE_FINAL, 0);
    resp
}

pub proof fn lemma_done_len(status: u16, row_count: nat)
    ensures
        crate::tds::token::done_bytes(status, row_count).len() == 13,
{
    crate::tds::token::lemma_lens();
}

/// Two bytes as a number, the less significant first.
pub open spec fn pair(b: Seq<u8>, i: int) -> int {
    b[i] + 256 * b[i + 1]
}

/// The text of bytes in UTF-16.
pub open spec fn utf16_text(b: Seq<u8>) -> Option<Seq<char>> {
    if b.len() % 2 != 0 {
        None
    } else {
        crate::utf16::text_of(crate::utf16::bytes_units(b))
    }
}

/// The views of an optional text.
pub open spec fn text_view(s: Option<String>) -> Option<Seq<char>> {
    match s {
        Some(s) => Some(s@),
        None => None,
    }
}

/// The database that a LOGIN7 names: its offset stands at byte 60, its
/// length in characters at byte 62.
pub open spec fn login7_database(payload: Seq<u8>) -> Option<Seq<char>> {
    if payload.len() < 94 {
        None
    } else {
        let start = pair(payload, 60);
        let end = start + 2 * pair(payload, 62);
        if pair(payload, 62) == 0 || end > payload.len() {
            None
        } else {
            utf16_text(payload.subrange(start, end))
        }
    }
}

/// The database that a LOGIN7 names.
pub fn parse_login7_database(payload: &[u8]) -> (r: Option<String>)
    ensures
        text_view(r) == login7_database(payload@),
{
    if payload.len() < 94 {
        return None;
    }
    let db_offset: usize = payload[60] as usize + 256 * (payload[61] as usize);
    let db_len: usize = payload[62] as usize + 256 * (payload[63] as usize);
    if db_len == 0 {
        return None;
    }
    let end: usize = db_offset + db_len * 2;
    if end > payload.len() {
        return None;
    }
    decode_utf16le(slice_subrange(payload, db_offset, end))
}

/// The database of a connection: the one that its LOGIN7 names, else
/// `master`.
pub fn login_database(payload: &[u8]) -> (r: String)
    ensures
        r@ == match login7_database(payload@) {
            Some(name) => name,
            None => "master"@,
        },
{
    match parse_login7_database(payload) {
        Some(name) => name,
        None => "master".to_owned(),
    }
}

/// Where the data begins after the headers in front of a request. Headers
/// that do not fit are taken for data.
pub open spec fn data_start(payload: Seq<u8>) -> int {
    if payload.len() < 4 {
        0
    } else {
        let total = pair(payload, 0) + 65536 * pair(payload, 2);
        if 4 <= total <= payload.len() {
            total
        } else {
            0
        }
    }
}

/// Where the data begins after the headers in front of a request.
pub fn skip_all_headers(payload: &[u8]) -> (r: usize)
    ensures
        r == data_start(payload@),
        r <= payload@.len(),
{
    if payload.len() < 4 {
        return 0;
    }
    let total_len: u64 = payload[0] as u64 + 256 * (payload[1] as u64) + 65536 * (
    payload[2] as u64) + 16777216 * (payload[3] as u64);
    if total_len >= 4 && total_len <= payload.len() as u64 {
        total_len as usize
    } else {
        0
    }
}

/// The SQL of a batch.
pub fn batch_sql(payload: &[u8]) -> (r: Result<String, &'static str>)
    ensures
        match utf16_text(payload@.skip(data_start(payload@))) {
            Some(sql) => r matches Ok(s) && s@ == sql,
            None => r matches Err(m) && m@ == "Failed to decode SQL batch as UTF-16LE"@,
        },
{
    let start: usize = skip_all_headers(payload);
    let text = slice_subrange(payload, start, payload.len());
    assert(text@ == payload@.skip(start as int));
    match decode_utf16le(text) {
        Some(sql) => Ok(sql),
        None => Err("Failed to decode SQL batch as UTF-16LE"),
    }
}

/// The text of the first parameter of an RPC, where it is Unicode text: name
/// length, name, status, type, maximal length, collation, length, value.
pub open spec fn nvarchar_param(data: Seq<u8>) -> Option<Seq<char>> {
    if data.len() == 0 {
        None
    } else {
        // The position of the type byte.
        let t = 2 + 2 * data[0];
        // The position of the length of the value.
        let v = t + 8;
        if data.len() <= t || data[t] != 0xE7 || data.len() < v + 2 {
            None
        } else {
            let len = pair(data, v);
            if len == 0xFFFF || data.len() < v + 2 + len {
                None
            } else {
                utf16_text(data.subrange(v + 2, v + 2 + len))
            }
        }
    }
}

/// The text of the first parameter of an RPC, where it is Unicode text.
pub fn extract_nvarchar_param(data: &[u8]) -> (r: Option<String>)
    ensures
        text_view(r) == nvarchar_param(data@),
{
    let mut pos: usize = 0;
    if pos >= data.len() {
        return None;
    }
    let name_len: usize = data[pos] as usize;
    pos += 1;
    pos += name_len * 2;
    if pos >= data.len() {
        return None;
    }
    pos += 1;
    if pos >= data.len() {
        return None;
    }
    let type_id: u8 = data[pos];
    pos += 1;
    if type_id != 0xE7 {
        return None;
    }
    if data.len() - pos < 7 {
        return None;
    }
    pos += 7;
    if data.len() - pos < 2 {
        return None;
    }
    let val_len: usize = data[pos] as usize + 256 * (data[pos + 1] as usize);
    assert(val_len == pair(data@, pos as int));
    pos += 2;
    if val_len == 0xFFFF || data.len() - pos < val_len {
        return None;
    }
    decode_utf16le(slice_subrange(data, pos, pos + val_len))
}

/// What an RPC request asks for.
#[derive(Debug)]
pub enum RpcRequest {
    /// `sp_executesql` with this SQL.
    Sql(String),
    /// A request that cannot be read: the error to answer with.
    Malformed(&'static str),
    /// Another procedure: answered with an empty result.
    Unsupported,
}

/// `sp_executesql`, by its number.
pub const SP_EXECUTESQL: u16 = 10;

/// `r` is what `payload` asks for.
pub open spec fn rpc_of(payload: Seq<u8>, r: RpcRequest) -> bool {
    let p = payload.skip(data_start(payload));
    if p.len() < 4 {
        r matches RpcRequest::Malformed(m) && m@ == "RPC request too short"@
    } else if pair(p, 0) != 0xFFFF || pair(p, 2) != SP_EXECUTESQL {
        r is Unsupported
    } else if p.len() < 6 {
        r matches RpcRequest::Malformed(m) && m@ == "sp_executesql: missing option flags"@
    } else {
        match nvarchar_param(p.skip(6)) {
            Some(sql) => r matches RpcRequest::Sql(s) && s@ == sql,
            None => r matches RpcRequest::Malformed(m) && m@
                == "sp_executesql: failed to extract SQL parameter"@,
        }
    }
}

/// What an RPC request asks for.
pub fn rpc_request(payload: &[u8]) -> (r: RpcRequest)
    ensures
        rpc_of(payload@, r),
{
    let start: usize = skip_all_headers(payload);
    let p = slice_subrange(payload, start, payload.len());
    assert(p@ == payload@.skip(start as int));
    if p.len() < 4 {
        return RpcRequest::Malformed("RPC request too short");
    }
    let name_len: u16 = p[0] as u16 + 256 * (p[1] as u16);
    let proc_id: u16 = p[2] as u16 + 256 * (p[3] as u16);
    if name_len != 0xFFFF || proc_id != SP_EXECUTESQL {
        return RpcRequest::Unsupported;
    }
    if p.len() < 6 {
        return RpcRequest::Malformed("sp_executesql: missing option flags");
    }
    let params = slice_subrange(p, 6, p.len());
    assert(params@ == p@.skip(6));
    match extract_nvarchar_param(params) {
        Some(sql) => RpcRequest::Sql(sql),
        None => RpcRequest::Malformed("sp_executesql: failed to extract SQL parameter"),
    }
}

/// What is run for one translated statement.
#[derive(Debug)]
pub enum Job {
    /// Nothing: the statement is done.
    Done,
    /// A query; its rows are written.
    Query(String),
    /// A transaction command.
    Transaction(String),
    /// Another statement; its row count is written.
    Execute(String),
}

/// `r` is what is run for `result`.
pub open spec fn job_of(result: Translated, kind: StatementKind, r: Job) -> bool {
    match result {
        Translated::Noop => r is Done,
        Translated::Metadata(sql) => r matches Job::Query(s) && s@ == sql@,
        Translated::Sql(sql) => if sql@.len() == 0 {
            r is Done
        } else {
            match kind {
                StatementKind::Query => r matches Job::Query(s) && s@ == sql@,
                StatementKind::Transaction => r matches Job::Transaction(s) && s@ == sql@,
                _ => r matches Job::Execute(s) && s@ == sql@,
            }
        },
    }
}

/// Decides what is run for one translated statement; `kind` is the kind of
/// its SQL.
pub fn job(result: Translated, kind: StatementKind) -> (r: Job)
    ensures
        job_of(result, kind, r),
{
    match result {
        Translated::Noop => Job::Done,
        Translated::Metadata(sql) => Job::Query(sql),
        Translated::Sql(sql) => {
            if sql.as_str().is_empty() {
                Job::Done
            } else {
                match kind {
                    StatementKind::Query => Job::Query(sql),
                    StatementKind::Transaction => Job::Transaction(sql),
                    _ => Job::Execute(sql),
                }
            }
        },
    }
}

/// An ERROR token and the end of the result.
pub open spec fn failure_bytes(message: Seq<char>) -> Seq<u8> {
    crate::tds::token::error_bytes(50000, message) + crate::tds::token::done_bytes(DONE_FINAL, 0)
}

/// Appends an ERROR token and the end of the result.
pub fn write_failure(resp: &mut BytesMut, message: &str)
    requires
        crate::buffer::fits(*old(resp), failure_bytes(message@).len()),
    ensures
        crate::buffer::held(*final(resp)) == crate::buffer::held(*old(resp)) + failure_bytes(
            message@,
        ),
{
    let ghost h = crate::buffer::held(*resp);
    proof {
        lemma_done_len(DONE_FINAL, 0);
    }
    write_error(resp, ERROR_NUMBER, message);
    write_done(resp, DONE_FINAL, 0);
    proof {
        crate::wire::lemma_append2(
            h,
            crate::tds::token::error_bytes(50000, message@),
            crate::tds::token::done_bytes(DONE_FINAL, 0),
        );
    }
}

/// The response that reports an error.
pub fn error_response(message: &str) -> (r: BytesMut)
    requires
        failure_bytes(message@).len() <= isize::MAX,
    ensures
        crate::buffer::held(r) == failure_bytes(message@),
{
    let mut resp = new_buffer();
    write_failure(&mut resp, message);
    assert(crate::buffer::held(resp) =~= failure_bytes(message@));
    resp
}

/// The change of transaction that a successful command brings, the tokens
/// that report it, and the session after it.
pub open spec fn transaction_effect(sql: Seq<char>, session: TdsSession) -> (Seq<u8>, TdsSession) {
    match crate::statement::verb_of(sql) {
        TransactionVerb::Begin => (
            crate::tds::token::begin_tran_bytes(session.next_tran_id as nat),
            TdsSession {
                in_transaction: true,
                next_tran_id: (session.next_tran_id + 1) as u64,
                current_tran_id: session.next_tran_id,
            },
        ),
        TransactionVerb::Commit => (
            crate::tds::token::end_tran_bytes(9, session.current_tran_id as nat),
            TdsSession { in_transaction: false, current_tran_id: 0, ..session },
        ),
        TransactionVerb::Rollback => (
            crate::tds::token::end_tran_bytes(10, session.current_tran_id as nat),
            TdsSession { in_transaction: false, current_tran_id: 0, ..session },
        ),
        TransactionVerb::Other => (Seq::empty(), session),
    }
}

/// What is written for a transaction command, and the session after it. A
/// failed command leaves the session as it was.
pub open spec fn transaction_result(
    sql: Seq<char>,
    outcome: Result<ExecuteResult, BackendError>,
    session: TdsSession,
) -> (Seq<u8>, TdsSession) {
    match outcome {
        Ok(_) => (
            transaction_effect(sql, session).0 + crate::tds::token::done_bytes(DONE_FINAL, 0),
            transaction_effect(sql, session).1,
        ),
        Err(e) => (failure_bytes(crate::backend::error_text(e)), session),
    }
}

/// Appends what came of a transaction command.
pub fn write_transaction_result(
    resp: &mut BytesMut,
    sql: &str,
    outcome: &Result<ExecuteResult, BackendError>,
    session: &mut TdsSession,
)
    requires
        old(session).next_tran_id < u64::MAX,
        crate::buffer::fits(*old(resp), transaction_result(sql@, *outcome, *old(session)).0.len()),
    ensures
        crate::buffer::held(*final(resp)) == crate::buffer::held(*old(resp)) + transaction_result(
            sql@,
            *outcome,
            *old(session),
        ).0,
        *final(session) == transaction_result(sql@, *outcome, *old(session)).1,
        old(session).ok() ==> final(session).ok(),
{
    let ghost h = crate::buffer::held(*resp);
    proof {
        lemma_done_len(DONE_FINAL, 0);
        crate::tds::token::lemma_lens();
    }
    match outcome {
        Ok(_) => {
            match transaction_verb(sql) {
                TransactionVerb::Begin => {
                    let tran_id: u64 = session.begin();
                    write_envchange_begin_tran(resp, tran_id);
                },
                TransactionVerb::Commit => {
                    let old_id: u64 = session.end();
                    write_envchange_commit_tran(resp, old_id);
                },
                TransactionVerb::Rollback => {
                    let old_id: u64 = session.end();
                    write_envchange_rollback_tran(resp, old_id);
                },
                TransactionVerb::Other => {
                    assert(h + Seq::<u8>::empty() == h);
                },
            }
            write_done(resp, DONE_FINAL, 0);
            proof {
                crate::wire::lemma_append2(
                    h,
                    transaction_effect(sql@, *old(session)).0,
                    crate::tds::token::done_bytes(DONE_FINAL, 0),
                );
            }
        },
        Err(e) => {
            let text = e.to_text();
            write_failure(resp, text.as_str());
        },
    }
}

/// The doubles of the row at `i`.
pub open spec fn doubles_of(as_doubles: Seq<Vec<Option<u64>>>, i: int) -> Seq<Option<u64>> {
    if i < as_doubles.len() {
        as_doubles[i]@
    } else {
        Seq::empty()
    }
}

/// The rows from `i` on.
pub open spec fn rows_bytes(
    columns: Seq<crate::tds::token::WireColumn>,
    rows: Seq<Vec<crate::backend::Value>>,
    as_doubles: Seq<Vec<Option<u64>>>,
    i: int,
) -> Seq<u8>
    decreases rows.len() - i,
{
    if i >= rows.len() {
        Seq::empty()
    } else {
        crate::tds::token::row_bytes(columns, rows[i]@, doubles_of(as_doubles, i)) + rows_bytes(
            columns,
            rows,
            as_doubles,
            i + 1,
        )
    }
}

/// The wire columns of a result set, its first row deciding where nothing
/// is declared.
pub open spec fn result_columns(rs: ResultSet) -> Seq<crate::tds::token::WireColumn> {
    Seq::new(
        rs.columns@.len(),
        |i: int|
            crate::tds::token::WireColumn {
                name: rs.columns@[i].name@,
                tds_type: crate::tds::token::column_type(
                    rs.columns@[i]@,
                    if rs.rows@.len() > 0 && i < rs.rows@[0]@.len() {
                        Some(rs.rows@[0]@[i]@)
                    } else {
                        None
                    },
                ),
            },
    )
}

/// What is written for a query.
pub open spec fn query_result_bytes(
    outcome: Result<ResultSet, BackendError>,
    as_doubles: Seq<Vec<Option<u64>>>,
) -> Seq<u8> {
    match outcome {
        Ok(rs) => {
            let columns = result_columns(rs);
            crate::tds::token::colmetadata_bytes(columns) + rows_bytes(
                columns,
                rs.rows@,
                as_doubles,
                0,
            ) + crate::tds::token::done_bytes(DONE_COUNT, rs.rows@.len())
        },
        Err(e) => failure_bytes(crate::backend::error_text(e)),
    }
}

/// Appends what came of a query. `as_doubles` holds the cells as doubles;
/// see [`crate::tds::token::value_bytes`].
pub fn write_query_result(
    resp: &mut BytesMut,
    outcome: &Result<ResultSet, BackendError>,
    as_doubles: &Vec<Vec<Option<u64>>>,
)
    requires
        crate::buffer::fits(*old(resp), query_result_bytes(*outcome, as_doubles@).len()),
    ensures
        crate::buffer::held(*final(resp)) == crate::buffer::held(*old(resp)) + query_result_bytes(
            *outcome,
            as_doubles@,
        ),
{
    match outcome {
        Ok(rs) => {
            let ghost columns_view = result_columns(*rs);
            let ghost n = rs.rows@.len();
            let first_row: Option<&[crate::backend::Value]> = if rs.rows.len() > 0 {
                Some(rs.rows[0].as_slice())
            } else {
                None
            };
            let columns = build_columns(rs.columns.as_slice(), first_row);
            assert(crate::tds::token::column_views(columns@) =~= columns_view);
            let ghost done = crate::tds::token::done_bytes(DONE_COUNT, n);
            let ghost start = crate::buffer::held(*resp);
            let ghost whole = start + query_result_bytes(*outcome, as_doubles@);
            proof {
                lemma_done_len(DONE_COUNT, n);
                let meta = crate::tds::token::colmetadata_bytes(columns_view);
                let rows = rows_bytes(columns_view, rs.rows@, as_doubles@, 0);
                crate::wire::lemma_append2(start, meta, rows);
                crate::wire::lemma_append2(start, meta + rows, done);
                assert(whole == ((start + meta) + rows) + done);
            }
            write_colmetadata(resp, columns.as_slice());
            let none: Vec<Option<u64>> = Vec::new();
            let mut i: usize = 0;
            while i < rs.rows.len()
                invariant
                    i <= rs.rows@.len(),
                    n == rs.rows@.len(),
                    none@ == Seq::<Option<u64>>::empty(),
                    whole.len() <= isize::MAX,
                    done.len() == 13,
                    columns_view == crate::tds::token::column_views(columns@),
                    whole == (crate::buffer::held(*resp) + rows_bytes(
                        columns_view,
                        rs.rows@,
                        as_doubles@,
                        i as int,
                    )) + done,
                decreases rs.rows.len() - i,
            {
                let doubles: &Vec<Option<u64>> = if i < as_doubles.len() {
                    &as_doubles[i]
                } else {
                    &none
                };
                let ghost here = crate::buffer::held(*resp);
                assert(doubles@ == doubles_of(as_doubles@, i as int));
                write_row(
                    resp,
                    columns.as_slice(),
                    rs.rows[i].as_slice(),
                    doubles.as_slice(),
                );
                i += 1;
                proof {
                    crate::wire::lemma_append2(
                        here,
                        crate::tds::token::row_bytes(
                            columns_view,
                            rs.rows@[i - 1]@,
                            doubles_of(as_doubles@, i - 1),
                        ),
                        rows_bytes(columns_view, rs.rows@, as_doubles@, i as int),
                    );
                }
            }
            assert(crate::buffer::held(*resp) + Seq::<u8>::empty() == crate::buffer::held(*resp));
            write_done(resp, DONE_COUNT, rs.rows.len() as u64);
        },
        Err(e) => {
            let text = e.to_text();
            write_failure(resp, text.as_str());
        },
    }
}

/// What is written for a statement that returns no rows.
pub open spec fn exec_result_bytes(outcome: Result<ExecuteResult, BackendError>) -> Seq<u8> {
    match outcome {
        Ok(result) => crate::tds::token::done_bytes(DONE_COUNT, result.affected_rows as nat),
        Err(e) => failure_bytes(crate::backend::error_text(e)),
    }
}

/// Appends what came of a statement that returns no rows.
pub fn write_exec_result(resp: &mut BytesMut, outcome: &Result<ExecuteResult, BackendError>)
    requires
        crate::buffer::fits(*old(resp), exec_result_bytes(*outcome).len()),
    ensures
        crate::buffer::held(*final(resp)) == crate::buffer::held(*old(resp)) + exec_result_bytes(
            *outcome,
        ),
{
    match outcome {
        Ok(result) => {
            proof {
                lemma_done_len(DONE_COUNT, result.affected_rows as nat);
            }
            write_done(resp, DONE_COUNT, result.affected_rows);
        },
        Err(e) => {
            let text = e.to_text();
            write_failure(resp, text.as_str());
        },
    }
}

/// Appends the end of a statement for which nothing was run.
pub fn write_nothing_run(resp: &mut BytesMut)
    requires
        crate::buffer::fits(*old(resp), 13),
    ensures
        crate::buffer::held(*final(resp)) == crate::buffer::held(*old(resp))
            + crate::tds::token::done_bytes(DONE_FINAL, 0),
{
    write_done(resp, DONE_FINAL, 0);
}

/// Makes sure that a response holds at least one DONE token.
pub fn finish_response(resp: &mut BytesMut)
    ensures
        crate::buffer::held(*final(resp)) == if crate::buffer::held(*old(resp)).len() == 0 {
            crate::tds::token::done_bytes(DONE_FINAL, 0)
        } else {
            crate::buffer::held(*old(resp))
        },
{
    if buffer_is_empty(resp) {
        write_done(resp, DONE_FINAL, 0);
        assert(crate::buffer::held(*resp) =~= crate::tds::token::done_bytes(DONE_FINAL, 0));
    }
}

/// The statements of one request on their way: each leaves its tokens in the
/// response, and one that fails does not stop the others.
#[derive(Debug)]
pub struct Execution {
    /// The statements that are still to be run, each with the kind of its SQL.
    pub waiting: VecDeque<(Translated, StatementKind)>,
    /// The tokens so far.
    pub resp: BytesMut,
}

/// What is next of a request.
#[derive(Debug)]
pub enum Next {
    /// Nothing.
    Finished,
    /// A statement for which nothing is run has left its token.
    Written,
    /// This is run, and what came of it is written to the response.
    Run(Job),
}

impl Execution {
    /// Begins to run the statements that one SQL text became.
    pub fn new(translated: Vec<(Translated, StatementKind)>) -> (r: Execution)
        ensures
            r.waiting@ == translated@,
            crate::buffer::held(r.resp) == Seq::<u8>::empty(),
    {
        Execution { waiting: queue_of(translated), resp: new_buffer() }
    }

    /// Takes the next statement.
    pub fn next(&mut self) -> (r: Next)
        requires
            crate::buffer::fits(old(self).resp, 13),
        ensures
            if old(self).waiting@.len() == 0 {
                &&& r is Finished
                &&& final(self).waiting@ == old(self).waiting@
                &&& final(self).resp == old(self).resp
            } else {
                let (t, kind) = old(self).waiting@[0];
                &&& final(self).waiting@ == old(self).waiting@.skip(1)
                &&& match r {
                    Next::Finished => false,
                    Next::Written => {
                        &&& job_of(t, kind, Job::Done)
                        &&& crate::buffer::held(final(self).resp) == crate::buffer::held(
                            old(self).resp,
                        ) + crate::tds::token::done_bytes(DONE_FINAL, 0)
                    },
                    Next::Run(j) => {
                        &&& !(j is Done)
                        &&& job_of(t, kind, j)
                        &&& final(self).resp == old(self).resp
                    },
                }
            },
    {
        let first = self.waiting.pop_front();
        proof {
            if old(self).waiting@.len() > 0 {
                assert(self.waiting@ =~= old(self).waiting@.skip(1));
            }
        }
        match first {
            None => Next::Finished,
            Some((t, kind)) => match job(t, kind) {
                Job::Done => {
                    write_nothing_run(&mut self.resp);
                    Next::Written
                },
                j => Next::Run(j),
            },
        }
    }

    /// The whole response, which holds at least one DONE token.
    pub fn finish(self) -> (r: BytesMut)
        ensures
            crate::buffer::held(r) == if crate::buffer::held(self.resp).len() == 0 {
                crate::tds::token::done_bytes(DONE_FINAL, 0)
            } else {
                crate::buffer::held(self.resp)
            },
    {
        let mut resp = self.resp;
        finish_response(&mut resp);
        resp
    }
}

/// Every transaction of a connection has a descriptor of its own, and the
/// command that ends it names that descriptor.
pub proof fn law_descriptors_are_fresh(session: TdsSession, begin: Seq<char>, end: Seq<char>)
    requires
        session.ok(),
        session.next_tran_id < u64::MAX,
        crate::statement::verb_of(begin) == TransactionVerb::Begin,
        crate::statement::verb_of(end) == TransactionVerb::Commit || crate::statement::verb_of(
            end,
        ) == TransactionVerb::Rollback,
    ensures
        ({
            let begun = transaction_effect(begin, session).1;
            let ended = transaction_effect(end, begun);
            &&& begun.ok() && begun.in_transaction
            &&& begun.current_tran_id > session.current_tran_id
            &&& ended.0 == crate::tds::token::end_tran_bytes(
                if crate::statement::verb_of(end) == TransactionVerb::Commit {
                    9
                } else {
                    10
                },
                begun.current_tran_id as nat,
            )
            &&& ended.1.ok() && !ended.1.in_transaction
            &&& ended.1.next_tran_id == begun.next_tran_id
        }),
{
}

/// A batch whose text is SQL in UTF-16 is read as that SQL, whatever headers
/// stand in front.
pub proof fn law_batch_reads_back(headers: Seq<u8>, sql: Seq<char>)
    requires
        data_start(headers + crate::utf16::utf16le(sql)) == headers.len(),
    ensures
        ({
            let payload = headers + crate::utf16::utf16le(sql);
            utf16_text(payload.skip(data_start(payload))) == Some(sql)
        }),
{
    let text = crate::utf16::utf16le(sql);
    assert((headers + text).skip(headers.len() as int) == text);
    crate::utf16::law_utf16_reads_back(sql);
}

} // verus!
