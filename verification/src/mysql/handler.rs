//! One MySQL connection.
//!
//! A connection has a session from the start, or it gets one from a
//! successful authentication. Until then there is no backend that it could
//! reach: every command is refused.
use crate::backend::{BackendError, Column, Double, ResultSet, Value};
use crate::mysql::error_map::{
    classify, error_kind, ER_ACCESS_DENIED_ERROR, ER_MAX_PREPARED_STMT_COUNT_REACHED,
    ER_UNKNOWN_STMT_HANDLER,
};
use crate::mysql::types::{mysql_type_for_value, sqlite_to_mysql_column_type, ColumnType};
use crate::session::{
    Batch, Prepared, Session, SessionError, SessionOk, SessionResult, Statement, TranslateError,
    Work, ER_PARSE_ERROR,
};
use crate::statement::StatementKind;
use crate::text::{chars_of, text_from_utf8, text_from_utf8_lossy};
use opensrv_mysql::ErrorKind;
use std::collections::HashMap;
use vstd::prelude::*;

verus! {

broadcast use vstd::std_specs::hash::group_hash_axioms;

/// How many prepared statements one connection may hold.
pub const MAX_PREPARED_STMTS_PER_CONN: usize = 1024;

/// The status flag of a connection in a transaction.
pub const SERVER_STATUS_IN_TRANS: u16 = 0x0001;

/// What an OK packet reports.
#[derive(Clone, Copy, Debug, PartialEq, Eq, Structural)]
pub struct OkResponse {
    pub affected_rows: u64,
    pub last_insert_id: u64,
    pub status_flags: u16,
}

/// An OK packet's content, with the transaction flag.
pub fn ok_response(affected_rows: u64, last_insert_id: u64, in_transaction: bool) -> (r: OkResponse)
    ensures
        r == (OkResponse {
            affected_rows,
            last_insert_id,
            status_flags: if in_transaction {
                SERVER_STATUS_IN_TRANS
            } else {
                0
            },
        }),
{
    let status_flags: u16 = if in_transaction {
        SERVER_STATUS_IN_TRANS
    } else {
        0
    };
    OkResponse { affected_rows, last_insert_id, status_flags }
}

/// An error packet's content.
#[derive(Debug)]
pub struct ErrorReply {
    pub kind: ErrorKind,
    pub message: String,
}

/// `e` reports `code` with `message`.
pub open spec fn reports_code(e: ErrorReply, code: u16, message: Seq<char>) -> bool {
    e.kind == crate::mysql::error_map::kind_of(code) && e.message@ == message
}

/// A command on a connection that never authenticated is refused.
pub open spec fn is_denial(e: ErrorReply) -> bool {
    reports_code(e, ER_ACCESS_DENIED_ERROR, "Access denied: connection is not authenticated"@)
}

fn denial() -> (r: ErrorReply)
    ensures
        is_denial(r),
{
    ErrorReply {
        kind: error_kind(ER_ACCESS_DENIED_ERROR),
        message: "Access denied: connection is not authenticated".to_owned(),
    }
}

/// The bytes as printable ASCII, without a NUL that would end the challenge
/// early.
pub open spec fn printable(raw: Seq<u8>) -> Seq<u8> {
    Seq::new(raw.len(), |i: int| (0x21 + raw[i] % 94) as u8)
}

/// `getrandom::fill` fills the array with random bytes, where the system has
/// any to give. Nothing is said of which.
#[verifier::external_body]
fn entropy() -> (r: Option<[u8; 20]>)
{
    let mut raw = [0u8; 20];
    match getrandom::fill(&mut raw) {
        Ok(()) => Some(raw),
        Err(_) => None,
    }
}

/// A challenge out of random bytes.
pub fn scramble_from(raw: [u8; 20]) -> (r: [u8; 20])
    ensures
        r@ == printable(raw@),
        forall|i: int| 0 <= i < 20 ==> 0x21 <= #[trigger] r@[i] <= 0x7e,
{
    let mut r: [u8; 20] = raw;
    let mut i: usize = 0;
    while i < 20
        invariant
            i <= 20,
            forall|j: int| 0 <= j < i ==> r@[j] == printable(raw@)[j],
            forall|j: int| i <= j < 20 ==> r@[j] == raw@[j],
        decreases 20 - i,
    {
        r[i] = 0x21 + (r[i] % 94);
        i += 1;
    }
    assert(r@ =~= printable(raw@));
    r
}

/// A fresh challenge of twenty printable bytes; `None` where the system has
/// no randomness to give.
pub fn random_scramble() -> (r: Option<[u8; 20]>)
    ensures
        r matches Some(s) ==> forall|i: int| 0 <= i < 20 ==> 0x21 <= #[trigger] s@[i] <= 0x7e,
{
    match entropy() {
        Some(raw) => Some(scramble_from(raw)),
        None => None,
    }
}

/// The challenge of a connection that checks nothing: `;X,po_k}>o6^Wz!/kM}N`.
pub open spec fn fixed_salt() -> Seq<u8> {
    seq![
        59u8,
        88u8,
        44u8,
        112u8,
        111u8,
        95u8,
        107u8,
        125u8,
        62u8,
        111u8,
        54u8,
        94u8,
        87u8,
        122u8,
        33u8,
        47u8,
        107u8,
        77u8,
        125u8,
        78u8,
    ]
}

/// A column as it is described to the client.
#[derive(Debug)]
pub struct ColumnInfo {
    pub name: String,
    pub coltype: ColumnType,
}

/// What a [`ColumnInfo`] holds.
#[verifier::ext_equal]
pub struct ColumnInfoView {
    pub name: Seq<char>,
    pub coltype: ColumnType,
}

pub open spec fn info_views(infos: Seq<ColumnInfo>) -> Seq<ColumnInfoView> {
    Seq::new(
        infos.len(),
        |i: int| ColumnInfoView { name: infos[i].name@, coltype: infos[i].coltype },
    )
}

/// The first value in the column at `i` that is not null, from the row `r` on.
pub open spec fn first_value(rows: Seq<Vec<Value>>, i: int, r: int) -> Option<crate::backend::Datum>
    decreases rows.len() - r,
{
    if r >= rows.len() {
        None
    } else if i < rows[r]@.len() && rows[r]@[i]@ != crate::backend::Datum::Null {
        Some(rows[r]@[i]@)
    } else {
        first_value(rows, i, r + 1)
    }
}

/// The column type of a result's column: by its declared type where it has
/// one, else by its first value that is not null.
pub open spec fn result_column_type(rs: ResultSet, i: int) -> ColumnType {
    match rs.columns@[i]@.decltype {
        Some(d) => crate::mysql::types::declared_column_type(Some(d)),
        None => match first_value(rs.rows@, i, 0) {
            Some(v) => crate::mysql::types::datum_column_type(v),
            None => ColumnType::MYSQL_TYPE_VAR_STRING,
        },
    }
}

/// The columns of a result as they are described to the client.
pub open spec fn result_infos(rs: ResultSet) -> Seq<ColumnInfoView> {
    Seq::new(
        rs.columns@.len(),
        |i: int|
            ColumnInfoView { name: rs.columns@[i].name@, coltype: result_column_type(rs, i) },
    )
}

fn inferred_type(rows: &Vec<Vec<Value>>, i: usize) -> (r: ColumnType)
    ensures
        r == match first_value(rows@, i as int, 0) {
            Some(v) => crate::mysql::types::datum_column_type(v),
            None => ColumnType::MYSQL_TYPE_VAR_STRING,
        },
{
    let mut r: usize = 0;
    while r < rows.len()
        invariant
            r <= rows@.len(),
            first_value(rows@, i as int, 0) == first_value(rows@, i as int, r as int),
        decreases rows.len() - r,
    {
        if i < rows[r].len() {
            match &rows[r][i] {
                Value::Null => {},
                v => {
                    return mysql_type_for_value(v);
                },
            }
        }
        r += 1;
    }
    ColumnType::MYSQL_TYPE_VAR_STRING
}

/// The columns of a result as they are described to the client.
pub fn result_columns(rs: &ResultSet) -> (r: Vec<ColumnInfo>)
    ensures
        info_views(r@) == result_infos(*rs),
{
    let mut r: Vec<ColumnInfo> = Vec::new();
    let mut i: usize = 0;
    while i < rs.columns.len()
        invariant
            i <= rs.columns@.len(),
            info_views(r@) == result_infos(*rs).take(i as int),
        decreases rs.columns.len() - i,
    {
        let ghost before = info_views(r@);
        let col: &Column = &rs.columns[i];
        let coltype = match &col.decltype {
            Some(d) => sqlite_to_mysql_column_type(Some(d.as_str())),
            None => inferred_type(&rs.rows, i),
        };
        r.push(ColumnInfo { name: col.name.clone(), coltype });
        i += 1;
        assert(info_views(r@) =~= before.push(result_infos(*rs)[i - 1]));
        assert(info_views(r@) =~= result_infos(*rs).take(i as int));
    }
    assert(info_views(r@) =~= result_infos(*rs));
    r
}

/// A parameter as the protocol engine hands it over.
#[derive(Debug)]
pub enum ParamInner {
    Null,
    Int(i64),
    UInt(u64),
    Double(Double),
    Bytes(Vec<u8>),
    Date(Vec<u8>),
    Time(Vec<u8>),
    Datetime(Vec<u8>),
}

/// An unsigned number in the bits of a signed one.
pub open spec fn as_signed(u: u64) -> i64 {
    if u <= i64::MAX {
        u as i64
    } else {
        (u - 0x1_0000_0000_0000_0000) as i64
    }
}

/// `v` is the value of a parameter. Bytes that are UTF-8 are text.
pub open spec fn is_param_value(p: ParamInner, v: crate::backend::Datum) -> bool {
    match p {
        ParamInner::Null => v == crate::backend::Datum::Null,
        ParamInner::Int(i) => v == crate::backend::Datum::Integer(i),
        ParamInner::UInt(u) => v == crate::backend::Datum::Integer(as_signed(u)),
        ParamInner::Double(d) => v == crate::backend::Datum::Float(d@),
        ParamInner::Bytes(b) => if vstd::utf8::valid_utf8(b@) {
            v matches crate::backend::Datum::Text(s) && crate::text::utf8(s) == b@
        } else {
            v == crate::backend::Datum::Blob(b@)
        },
        ParamInner::Date(b) => v == crate::backend::Datum::Text(crate::text::utf8_lossy(b@)),
        ParamInner::Time(b) => v == crate::backend::Datum::Text(crate::text::utf8_lossy(b@)),
        ParamInner::Datetime(b) => v == crate::backend::Datum::Text(crate::text::utf8_lossy(b@)),
    }
}

/// The value of a parameter.
pub fn param_to_value(param: ParamInner) -> (r: Value)
    ensures
        is_param_value(param, r@),
        match param {
            ParamInner::Date(b) | ParamInner::Time(b) | ParamInner::Datetime(b) => {
                &&& r@ is Text
                &&& vstd::utf8::valid_utf8(b@) ==> crate::text::utf8(r@->Text_0) == b@
            },
            _ => true,
        },
{
    match param {
        ParamInner::Null => Value::Null,
        ParamInner::Int(i) => Value::Integer(i),
        ParamInner::UInt(u) => {
            let i: i64 = if u <= 0x7FFF_FFFF_FFFF_FFFF {
                u as i64
            } else {
                (u as i128 - 0x1_0000_0000_0000_0000) as i64
            };
            Value::Integer(i)
        },
        ParamInner::Double(d) => Value::Float(d),
        ParamInner::Bytes(b) => match text_from_utf8(b.as_slice()) {
            Some(s) => Value::Text(s),
            None => Value::Blob(b),
        },
        ParamInner::Date(b) => Value::Text(text_from_utf8_lossy(b.as_slice())),
        ParamInner::Time(b) => Value::Text(text_from_utf8_lossy(b.as_slice())),
        ParamInner::Datetime(b) => Value::Text(text_from_utf8_lossy(b.as_slice())),
    }
}

/// The text of a translation error.
pub open spec fn translate_text(e: TranslateError) -> Seq<char> {
    match e {
        TranslateError::Failed(m) => m@,
        TranslateError::Unsupported(m) => m@,
    }
}

/// `e` is how an error of the session is reported. A database error carries
/// the message that the client sees.
pub open spec fn is_error_reply(e: ErrorReply, err: SessionError) -> bool {
    match err {
        SessionError::Db { message, .. } => reports_code(
            e,
            crate::session::error_map::code_of(message@),
            message@,
        ),
        SessionError::Translate(t) => reports_code(e, ER_PARSE_ERROR, translate_text(t)),
    }
}

/// The reply to an error of the session.
pub fn session_error_reply(err: &SessionError) -> (r: ErrorReply)
    ensures
        is_error_reply(r, *err),
{
    match err {
        SessionError::Db { message, .. } => {
            let mapped = classify(message.as_str());
            ErrorReply { kind: mapped.code, message: message.clone() }
        },
        SessionError::Translate(TranslateError::Failed(m)) => ErrorReply {
            kind: error_kind(ER_PARSE_ERROR),
            message: m.clone(),
        },
        SessionError::Translate(TranslateError::Unsupported(m)) => ErrorReply {
            kind: error_kind(ER_PARSE_ERROR),
            message: m.clone(),
        },
    }
}

/// What the client is sent.
#[derive(Debug)]
pub enum Reply {
    Rows(ResultSet),
    Done(OkResponse),
    Error(ErrorReply),
}

pub open spec fn ok_of(ok: SessionOk) -> OkResponse {
    OkResponse {
        affected_rows: ok.affected_rows,
        last_insert_id: ok.last_insert_id,
        status_flags: if ok.in_transaction {
            SERVER_STATUS_IN_TRANS
        } else {
            0
        },
    }
}

/// The reply to a statement in the text protocol. One that never reached the
/// backend is answered without the transaction flag.
pub fn query_reply(result: Result<SessionResult, SessionError>) -> (r: Reply)
    ensures
        match result {
            Ok(SessionResult::Rows(rs)) => r == Reply::Rows(rs),
            Ok(SessionResult::Done(ok)) => r == Reply::Done(
                if ok.noop {
                    (OkResponse { affected_rows: 0, last_insert_id: 0, status_flags: 0 })
                } else {
                    ok_of(ok)
                },
            ),
            Err(err) => r matches Reply::Error(e) && is_error_reply(e, err),
        },
{
    match result {
        Ok(SessionResult::Rows(rs)) => Reply::Rows(rs),
        Ok(SessionResult::Done(ok)) => if ok.noop {
            Reply::Done(ok_response(0, 0, false))
        } else {
            Reply::Done(ok_response(ok.affected_rows, ok.last_insert_id, ok.in_transaction))
        },
        Err(err) => Reply::Error(session_error_reply(&err)),
    }
}

/// The reply to a prepared statement.
pub fn execute_reply(result: Result<SessionResult, SessionError>) -> (r: Reply)
    ensures
        match result {
            Ok(SessionResult::Rows(rs)) => r == Reply::Rows(rs),
            Ok(SessionResult::Done(ok)) => r == Reply::Done(ok_of(ok)),
            Err(err) => r matches Reply::Error(e) && is_error_reply(e, err),
        },
{
    match result {
        Ok(SessionResult::Rows(rs)) => Reply::Rows(rs),
        Ok(SessionResult::Done(ok)) => Reply::Done(
            ok_response(ok.affected_rows, ok.last_insert_id, ok.in_transaction),
        ),
        Err(err) => Reply::Error(session_error_reply(&err)),
    }
}

/// How many placeholders stand in `sql` up to the character at `n`.
pub open spec fn placeholders(sql: Seq<char>, n: int) -> nat
    decreases n,
{
    if n <= 0 {
        0
    } else {
        placeholders(sql, n - 1) + if sql[n - 1] == '?' {
            1nat
        } else {
            0nat
        }
    }
}

/// How many `?` stand in the SQL.
pub fn param_count(sql: &str) -> (r: usize)
    ensures
        r == placeholders(sql@, sql@.len() as int),
{
    let chars = chars_of(sql);
    let mut n: usize = 0;
    let mut i: usize = 0;
    while i < chars.len()
        invariant
            chars@ == sql@,
            i <= chars.len(),
            n <= i,
            n == placeholders(sql@, i as int),
        decreases chars.len() - i,
    {
        if chars[i] == '?' {
            n += 1;
        }
        i += 1;
    }
    n
}

/// What happens to a statement that is to be prepared.
#[derive(Debug)]
pub enum Preparing {
    /// It is refused.
    Refuse(ErrorReply),
    /// Its columns are to be described first.
    Describe(Prepared),
    /// It has no columns.
    Ready(Prepared),
}

/// What a client is told of a prepared statement.
#[derive(Debug)]
pub struct PrepareReply {
    pub id: u32,
    pub params: Vec<ColumnInfo>,
    pub columns: Vec<ColumnInfo>,
}

/// The placeholders as they are described to the client.
pub open spec fn param_infos(n: nat) -> Seq<ColumnInfoView> {
    Seq::new(
        n,
        |i: int| ColumnInfoView { name: "?"@, coltype: ColumnType::MYSQL_TYPE_VAR_STRING },
    )
}

/// The columns of a prepared statement as they are described to the client:
/// none where they could not be described.
pub open spec fn described_infos(described: Option<Result<Vec<Column>, BackendError>>) -> Seq<
    ColumnInfoView,
> {
    match described {
        Some(Ok(columns)) => Seq::new(
            columns@.len(),
            |i: int|
                ColumnInfoView {
                    name: columns@[i].name@,
                    coltype: crate::mysql::types::declared_column_type(columns@[i]@.decltype),
                },
        ),
        _ => Seq::empty(),
    }
}

fn param_columns(n: usize) -> (r: Vec<ColumnInfo>)
    ensures
        info_views(r@) == param_infos(n as nat),
{
    let mut r: Vec<ColumnInfo> = Vec::new();
    let mut i: usize = 0;
    while i < n
        invariant
            i <= n,
            info_views(r@) == param_infos(i as nat),
        decreases n - i,
    {
        let ghost before = info_views(r@);
        r.push(ColumnInfo { name: "?".to_owned(), coltype: ColumnType::MYSQL_TYPE_VAR_STRING });
        i += 1;
        assert(info_views(r@) =~= before.push(param_infos(i as nat)[i - 1]));
        assert(info_views(r@) =~= param_infos(i as nat));
    }
    assert(info_views(r@) =~= param_infos(n as nat));
    r
}

fn described_columns(described: &Option<Result<Vec<Column>, BackendError>>) -> (r: Vec<ColumnInfo>)
    ensures
        info_views(r@) == described_infos(*described),
{
    let mut r: Vec<ColumnInfo> = Vec::new();
    match described {
        Some(Ok(columns)) => {
            let ghost all = described_infos(*described);
            let mut i: usize = 0;
            while i < columns.len()
                invariant
                    i <= columns@.len(),
                    *described matches Some(Ok(c)) && c == *columns,
                    all == described_infos(*described),
                    info_views(r@) == all.take(i as int),
                decreases columns.len() - i,
            {
                let ghost before = info_views(r@);
                let col: &Column = &columns[i];
                let coltype = match &col.decltype {
                    Some(d) => sqlite_to_mysql_column_type(Some(d.as_str())),
                    None => sqlite_to_mysql_column_type(None),
                };
                r.push(ColumnInfo { name: col.name.clone(), coltype });
                i += 1;
                assert(info_views(r@) =~= before.push(all[i - 1]));
                assert(info_views(r@) =~= all.take(i as int));
            }
            assert(info_views(r@) =~= all);
        },
        _ => {
            assert(info_views(r@) =~= described_infos(*described));
        },
    }
    r
}

pub open spec fn too_many_statements_text() -> Seq<char> {
    "Can't create more than 1024 prepared statements "@ + "on this connection"@
}

/// One MySQL connection: its session, where it has one, and its prepared
/// statements.
#[derive(Debug)]
pub struct LiteWireHandler<C> {
    /// Empty means that the connection has no backend.
    pub session: Option<Session<C>>,
    /// The challenge of a connection that has to authenticate.
    pub scramble: Option<[u8; 20]>,
    /// The prepared statements by id.
    pub stmts: HashMap<u32, Prepared>,
    /// The next statement's id.
    pub next_stmt_id: u32,
}

impl<C> LiteWireHandler<C> {
    /// Statement ids are handed out in ascending order from 1, and no more
    /// statements are held than allowed.
    pub open spec fn ok(self) -> bool {
        &&& self.next_stmt_id >= 1
        &&& self.stmts@.dom().finite()
        &&& self.stmts@.len() <= MAX_PREPARED_STMTS_PER_CONN
        &&& forall|id: u32| #[trigger]
            self.stmts@.contains_key(id) ==> 1 <= id < self.next_stmt_id
    }

    /// A connection with its session already open.
    pub fn new(session: Session<C>) -> (r: LiteWireHandler<C>)
        ensures
            r.session == Some(session),
            r.scramble is None,
            r.stmts@ == Map::<u32, Prepared>::empty(),
            r.next_stmt_id == 1,
            r.ok(),
    {
        LiteWireHandler {
            session: Some(session),
            scramble: None,
            stmts: HashMap::new(),
            next_stmt_id: 1,
        }
    }

    /// A connection that has to authenticate with the challenge `scramble`.
    pub fn new_authenticating(scramble: [u8; 20]) -> (r: LiteWireHandler<C>)
        ensures
            r.session is None,
            r.scramble == Some(scramble),
            r.stmts@ == Map::<u32, Prepared>::empty(),
            r.next_stmt_id == 1,
            r.ok(),
    {
        LiteWireHandler {
            session: None,
            scramble: Some(scramble),
            stmts: HashMap::new(),
            next_stmt_id: 1,
        }
    }

    /// The challenge of the handshake: the connection's own where it has to
    /// authenticate, else a fixed one.
    pub fn salt(&self) -> (r: [u8; 20])
        ensures
            match self.scramble {
                Some(s) => r == s,
                None => r@ == fixed_salt(),
            },
    {
        match self.scramble {
            Some(s) => s,
            None => {
                let salt: [u8; 20] = [
                    59, 88, 44, 112, 111, 95, 107, 125, 62, 111, 54, 94, 87, 122, 33, 47, 107, 77,
                    125, 78,
                ];
                assert(salt@ =~= fixed_salt());
                salt
            },
        }
    }

    /// Tells whether the handshake has to be authenticated.
    pub fn must_authenticate(&self) -> (r: bool)
        ensures
            r == (self.scramble is Some),
    {
        self.scramble.is_some()
    }

    /// Installs the session that an authentication opened, where it opened
    /// one, and tells whether the connection is accepted. A session is
    /// installed once at most.
    pub fn authenticated(&mut self, session: Option<Session<C>>) -> (r: bool)
        ensures
            r == (session is Some && old(self).session is None),
            final(self).session == if r {
                session
            } else {
                old(self).session
            },
            final(self).scramble == old(self).scramble,
            final(self).stmts == old(self).stmts,
            final(self).next_stmt_id == old(self).next_stmt_id,
    {
        match session {
            Some(session) => {
                if self.session.is_some() {
                    return false;
                }
                self.session = Some(session);
                true
            },
            None => false,
        }
    }

    /// Begins a reset of the connection where one is pending: its prepared
    /// statements are gone. Tells whether a transaction is to be rolled back;
    /// [`Self::rolled_back`] follows.
    pub fn apply_pending_reset(&mut self, pending: bool) -> (r: bool)
        requires
            old(self).ok(),
        ensures
            final(self).ok(),
            final(self).session == old(self).session,
            final(self).scramble == old(self).scramble,
            final(self).next_stmt_id == old(self).next_stmt_id,
            final(self).stmts@ == if pending {
                Map::<u32, Prepared>::empty()
            } else {
                old(self).stmts@
            },
            r == (pending && (old(self).session matches Some(s) && s.in_transaction)),
    {
        if !pending {
            return false;
        }
        self.stmts.clear();
        match &self.session {
            Some(session) => session.in_transaction,
            None => false,
        }
    }

    /// Ends a reset: whatever the rollback came to, the session is in no
    /// transaction.
    pub fn rolled_back(&mut self)
        ensures
            final(self).scramble == old(self).scramble,
            final(self).stmts == old(self).stmts,
            final(self).next_stmt_id == old(self).next_stmt_id,
            match old(self).session {
                Some(s) => final(self).session == Some(Session { in_transaction: false, ..s }),
                None => final(self).session is None,
            },
    {
        match &mut self.session {
            Some(session) => {
                session.in_transaction = false;
            },
            None => {},
        }
    }

    /// Begins to prepare a statement.
    pub fn on_prepare(&self, translated: Result<Vec<Statement>, TranslateError>) -> (r: Preparing)
        ensures
            match (self.session, translated) {
                (None, _) => r matches Preparing::Refuse(e) && is_denial(e),
                (Some(_), Err(t)) => r matches Preparing::Refuse(e) && reports_code(
                    e,
                    ER_PARSE_ERROR,
                    translate_text(t),
                ),
                (Some(_), Ok(statements)) => match r {
                    Preparing::Refuse(_) => false,
                    Preparing::Describe(p) => {
                        &&& crate::session::is_prepared(p, statements@)
                        &&& p.kind == StatementKind::Query && p.sqlite_sql@.len() > 0
                    },
                    Preparing::Ready(p) => {
                        &&& crate::session::is_prepared(p, statements@)
                        &&& !(p.kind == StatementKind::Query && p.sqlite_sql@.len() > 0)
                    },
                },
            },
    {
        if self.session.is_none() {
            return Preparing::Refuse(denial());
        }
        let prepared = match Session::<C>::prepare(translated) {
            Ok(p) => p,
            Err(e) => {
                return Preparing::Refuse(session_error_reply(&e));
            },
        };
        let is_query = match prepared.kind {
            StatementKind::Query => true,
            _ => false,
        };
        if is_query && !prepared.sqlite_sql.as_str().is_empty() {
            Preparing::Describe(prepared)
        } else {
            Preparing::Ready(prepared)
        }
    }

    /// Keeps a prepared statement, with what its columns were described as.
    pub fn register(
        &mut self,
        prepared: Prepared,
        described: Option<Result<Vec<Column>, BackendError>>,
    ) -> (r: Result<PrepareReply, ErrorReply>)
        requires
            old(self).ok(),
            old(self).next_stmt_id < u32::MAX,
        ensures
            final(self).ok(),
            final(self).session == old(self).session,
            final(self).scramble == old(self).scramble,
            if old(self).stmts@.len() >= MAX_PREPARED_STMTS_PER_CONN {
                &&& final(self).stmts@ == old(self).stmts@
                &&& final(self).next_stmt_id == old(self).next_stmt_id
                &&& r matches Err(e) && reports_code(
                    e,
                    ER_MAX_PREPARED_STMT_COUNT_REACHED,
                    too_many_statements_text(),
                )
            } else {
                &&& final(self).stmts@ == old(self).stmts@.insert(old(self).next_stmt_id, prepared)
                &&& final(self).next_stmt_id == old(self).next_stmt_id + 1
                &&& r matches Ok(reply) && {
                    &&& reply.id == old(self).next_stmt_id
                    &&& info_views(reply.params@) == param_infos(
                        placeholders(prepared.sqlite_sql@, prepared.sqlite_sql@.len() as int),
                    )
                    &&& info_views(reply.columns@) == described_infos(described)
                }
            },
    {
        let params = param_columns(param_count(prepared.sqlite_sql.as_str()));
        let columns = described_columns(&described);
        if self.stmts.len() >= MAX_PREPARED_STMTS_PER_CONN {
            let mut m: String = "Can't create more than 1024 prepared statements ".to_owned();
            m.append("on this connection");
            return Err(
                ErrorReply { kind: error_kind(ER_MAX_PREPARED_STMT_COUNT_REACHED), message: m },
            );
        }
        let id: u32 = self.next_stmt_id;
        self.next_stmt_id += 1;
        self.stmts.insert(id, prepared);
        Ok(PrepareReply { id, params, columns })
    }

    /// What is run for the prepared statement `id`.
    pub fn on_execute(&mut self, id: u32) -> (r: Result<Work, ErrorReply>)
        ensures
            final(self).scramble == old(self).scramble,
            final(self).stmts == old(self).stmts,
            final(self).next_stmt_id == old(self).next_stmt_id,
            if old(self).session is None {
                &&& final(self).session is None
                &&& r matches Err(e) && is_denial(e)
            } else if !old(self).stmts@.contains_key(id) {
                &&& final(self).session == old(self).session
                &&& r matches Err(e) && reports_code(
                    e,
                    ER_UNKNOWN_STMT_HANDLER,
                    "unknown statement id: "@ + crate::text::decimal(id as nat),
                )
            } else {
                &&& r is Ok
                &&& final(self).session is Some
                &&& starts(
                    old(self).session->0,
                    old(self).stmts@[id],
                    final(self).session->0,
                    r->Ok_0,
                )
            },
    {
        if self.session.is_none() {
            return Err(denial());
        }
        match self.stmts.get(&id) {
            Some(stmt) => match &mut self.session {
                Some(session) => Ok(session.execute_prepared(stmt)),
                None => Err(denial()),
            },
            None => {
                let mut m: String = "unknown statement id: ".to_owned();
                crate::text::push_decimal(&mut m, id as u64);
                Err(ErrorReply { kind: error_kind(ER_UNKNOWN_STMT_HANDLER), message: m })
            },
        }
    }

    /// Forgets a prepared statement.
    pub fn on_close(&mut self, id: u32)
        requires
            old(self).ok(),
        ensures
            final(self).ok(),
            final(self).session == old(self).session,
            final(self).scramble == old(self).scramble,
            final(self).next_stmt_id == old(self).next_stmt_id,
            final(self).stmts@ == old(self).stmts@.remove(id),
    {
        self.stmts.remove(&id);
    }

    /// Begins to run a statement of the text protocol.
    pub fn on_query(&self, translated: Result<Vec<Statement>, TranslateError>) -> (r: Result<
        Batch,
        ErrorReply,
    >)
        ensures
            match (self.session, translated) {
                (None, _) => r matches Err(e) && is_denial(e),
                (Some(_), Err(t)) => r matches Err(e) && reports_code(
                    e,
                    ER_PARSE_ERROR,
                    translate_text(t),
                ),
                (Some(s), Ok(statements)) => r matches Ok(b) && {
                    &&& b.waiting@ == statements@
                    &&& b.last == Ok::<SessionResult, SessionError>(
                        crate::session::noop_ok(s.in_transaction),
                    )
                },
            },
    {
        match &self.session {
            None => Err(denial()),
            Some(session) => match session.query(translated, 0) {
                Ok(batch) => Ok(batch),
                Err(e) => Err(session_error_reply(&e)),
            },
        }
    }

    /// Answers a change of database, which changes nothing.
    pub fn on_init(&self) -> (r: Result<(), ErrorReply>)
        ensures
            match self.session {
                Some(_) => r is Ok,
                None => r matches Err(e) && is_denial(e),
            },
    {
        if self.session.is_none() {
            Err(denial())
        } else {
            Ok(())
        }
    }
}

/// `w` is what the session `before` runs for a prepared statement, and
/// `after` is the session then.
pub open spec fn starts<C>(before: Session<C>, p: Prepared, after: Session<C>, w: Work) -> bool {
    match p.special {
        crate::session::Special::FoundRows(column) => {
            &&& w matches Work::Answer(a) && crate::session::is_found_rows(
                a,
                column@,
                before.found,
            )
            &&& after == (Session { found: 1, ..before })
        },
        crate::session::Special::CalcFoundRows(count) => {
            &&& after == before
            &&& w matches Work::Query { sql, bind, count: c } && {
                &&& sql@ == p.sqlite_sql@
                &&& bind
                &&& match (c, count) {
                    (Some(a), Some(b)) => a@ == b@,
                    (None, None) => true,
                    _ => false,
                }
            }
        },
        crate::session::Special::Nothing => {
            &&& after == before
            &&& if p.sqlite_sql@.len() == 0 {
                w == Work::Answer(crate::session::noop_ok(before.in_transaction))
            } else {
                crate::session::runs(w, p.sqlite_sql@, p.kind, true)
            }
        },
    }
}

/// The id that a statement is kept under named no statement before, and
/// whatever was kept stays under its own id.
pub proof fn law_statement_ids_are_fresh<C>(h: LiteWireHandler<C>, prepared: Prepared, id: u32)
    requires
        h.ok(),
    ensures
        !h.stmts@.contains_key(h.next_stmt_id),
        h.stmts@.contains_key(id) ==> {
            &&& id != h.next_stmt_id
            &&& h.stmts@.insert(h.next_stmt_id, prepared)[id] == h.stmts@[id]
        },
{
}

/// A string parameter keeps its bytes: where they are the UTF-8 of a text,
/// the value is that text, whatever it says, and else a blob of them.
pub proof fn law_string_parameter_keeps_its_bytes(b: Vec<u8>, r: Value, s: Seq<char>)
    requires
        call_ensures(param_to_value, (ParamInner::Bytes(b),), r),
    ensures
        b@ == vstd::utf8::encode_utf8(s) ==> r@ == crate::backend::Datum::Text(s),
        (forall|t: Seq<char>| b@ != #[trigger] vstd::utf8::encode_utf8(t)) ==> r@
            == crate::backend::Datum::Blob(b@),
        r@ !is Integer && r@ !is Float && r@ !is Null,
{
    if b@ == vstd::utf8::encode_utf8(s) {
        vstd::utf8::encode_utf8_valid_utf8(s);
        let t = r@->Text_0;
        vstd::utf8::encode_utf8_decode_utf8(s);
        vstd::utf8::encode_utf8_decode_utf8(t);
    }
    if vstd::utf8::valid_utf8(b@) {
        vstd::utf8::decode_utf8_encode_utf8(b@);
        assert(b@ == vstd::utf8::encode_utf8(vstd::utf8::decode_utf8(b@)));
    }
}

/// Two string parameters with different bytes never have the same value.
pub proof fn law_string_parameters_are_told_apart(a: Vec<u8>, b: Vec<u8>, x: Value, y: Value)
    requires
        call_ensures(param_to_value, (ParamInner::Bytes(a),), x),
        call_ensures(param_to_value, (ParamInner::Bytes(b),), y),
        a@ != b@,
    ensures
        x@ != y@,
{
}

/// Numbers and nulls are what they were: an integer keeps its value, an
/// unsigned one its sixty-four bits, a float its own, and only a null is
/// null.
pub proof fn law_number_parameters_keep_their_value(p: ParamInner, r: Value)
    requires
        call_ensures(param_to_value, (p,), r),
    ensures
        p matches ParamInner::Int(i) ==> r@ is Integer && r@->Integer_0 == i,
        p matches ParamInner::UInt(u) ==> {
            &&& r@ is Integer
            &&& r@->Integer_0 >= 0 ==> r@->Integer_0 == u
            &&& r@->Integer_0 < 0 ==> r@->Integer_0 == u - 0x1_0000_0000_0000_0000
        },
        p matches ParamInner::Double(d) ==> r@ is Float && r@->Float_0 == d@,
        p is Null <==> r@ is Null,
        p is Date || p is Time || p is Datetime ==> r@ is Text,
{
}

/// A date or a time is the text that its bytes write, whatever it says.
pub proof fn law_times_keep_their_text(p: ParamInner, r: Value, b: Vec<u8>, s: Seq<char>)
    requires
        call_ensures(param_to_value, (p,), r),
        p == ParamInner::Date(b) || p == ParamInner::Time(b) || p == ParamInner::Datetime(b),
        b@ == vstd::utf8::encode_utf8(s),
    ensures
        r@ == crate::backend::Datum::Text(s),
{
    vstd::utf8::encode_utf8_valid_utf8(s);
    vstd::utf8::encode_utf8_decode_utf8(s);
    vstd::utf8::encode_utf8_decode_utf8(r@->Text_0);
}

} // verus!
