//! What a MySQL client can count on, whatever it sends.
use crate::backend::{BackendError, Column, ResultSet};
use crate::mysql::handler::{
    execute_reply, ok_response, param_count, query_reply, result_columns, scramble_from,
    session_error_reply, ColumnInfo, ErrorReply, LiteWireHandler, OkResponse, PrepareReply,
    Preparing, Reply,
};
use crate::mysql::types::ColumnType;
use crate::mysql::{allow_change_user, BackendSource};
use crate::session::{
    Batch, Prepared, Session, SessionError, SessionResult, Statement, TranslateError, Work,
};
use vstd::prelude::*;

verus! {

/// The transaction flag is the lowest bit of the status, and the other
/// numbers are told as they are.
pub proof fn law_ok_tells_the_numbers(rows: u64, id: u64, in_transaction: bool, r: OkResponse)
    requires
        call_ensures(ok_response, (rows, id, in_transaction), r),
    ensures
        r.affected_rows == rows,
        r.last_insert_id == id,
        r.status_flags == if in_transaction { 1u16 } else { 0u16 },
{
}

/// Rows are sent as they are, and so are the numbers of a statement without
/// rows; in the text protocol one that never reached the backend is answered
/// with zeros. An error is an error.
pub proof fn law_replies_tell_the_result(
    result: Result<SessionResult, SessionError>,
    text: Reply,
    prepared: Reply,
)
    requires
        call_ensures(query_reply, (result,), text),
        call_ensures(execute_reply, (result,), prepared),
    ensures
        match result {
            Ok(SessionResult::Rows(rs)) => text == Reply::Rows(rs) && prepared == Reply::Rows(rs),
            Ok(SessionResult::Done(ok)) => {
                &&& text matches Reply::Done(t)
                &&& prepared matches Reply::Done(p)
                &&& p.affected_rows == ok.affected_rows
                &&& p.last_insert_id == ok.last_insert_id
                &&& p.status_flags == if ok.in_transaction { 1u16 } else { 0u16 }
                &&& !ok.noop ==> t == p
                &&& ok.noop ==> t.affected_rows == 0 && t.last_insert_id == 0 && t.status_flags == 0
            },
            Err(_) => text is Error && prepared is Error,
        },
{
}

/// An error of the database is told with its own message and by the words in
/// it; a statement that could not be translated is a parse error.
pub proof fn law_errors_are_told(err: SessionError, r: ErrorReply)
    requires
        call_ensures(session_error_reply, (&err,), r),
    ensures
        match err {
            SessionError::Db { message, .. } => r.message@ == message@ && ({
                let m = message@;
                let locked = crate::text_laws::says_words(m, "database is locked"@)
                    || crate::text_laws::says_words(m, "database table is locked"@)
                    || crate::text_laws::says_words(m, "sqlite_busy"@)
                    || crate::text_laws::says_words(m, "sqlite_locked"@);
                let no_table = crate::text_laws::says_words(m, "no such table"@);
                let duplicate = crate::text_laws::says_words(m, "unique constraint failed"@)
                    || crate::text_laws::says_words(m, "primary key constraint failed"@);
                let foreign = crate::text_laws::says_words(m, "foreign key constraint failed"@);
                let read_only = crate::text_laws::says_words(
                    m,
                    "attempt to write a readonly database"@,
                ) || crate::text_laws::says_words(m, "readonly database"@)
                    || crate::text_laws::says_words(m, "sqlite_readonly"@);
                r.kind == crate::mysql::error_map::kind_of(
                    if locked {
                        1205
                    } else if no_table {
                        1146
                    } else if duplicate {
                        1062
                    } else if foreign {
                        1452
                    } else if read_only {
                        1290
                    } else {
                        1105
                    },
                )
            }),
            SessionError::Translate(TranslateError::Failed(m)) => r.message@ == m@ && r.kind
                == crate::mysql::error_map::kind_of(1064),
            SessionError::Translate(TranslateError::Unsupported(m)) => r.message@ == m@ && r.kind
                == crate::mysql::error_map::kind_of(1064),
        },
{
    if let SessionError::Db { message, .. } = err {
        let m = message@;
        crate::text_laws::lemma_occurs_lower(m, "database is locked"@);
        crate::text_laws::lemma_occurs_lower(m, "database table is locked"@);
        crate::text_laws::lemma_occurs_lower(m, "sqlite_busy"@);
        crate::text_laws::lemma_occurs_lower(m, "sqlite_locked"@);
        crate::text_laws::lemma_occurs_lower(m, "no such table"@);
        crate::text_laws::lemma_occurs_lower(m, "unique constraint failed"@);
        crate::text_laws::lemma_occurs_lower(m, "primary key constraint failed"@);
        crate::text_laws::lemma_occurs_lower(m, "foreign key constraint failed"@);
        crate::text_laws::lemma_occurs_lower(m, "attempt to write a readonly database"@);
        crate::text_laws::lemma_occurs_lower(m, "readonly database"@);
        crate::text_laws::lemma_occurs_lower(m, "sqlite_readonly"@);
    }
}

/// A statement has as many parameters as question marks: one more where one
/// more stands at its end, as many where another character does, and none in
/// no text.
pub proof fn law_parameters_are_question_marks(
    sql: &str,
    more: &str,
    c: char,
    few: usize,
    many: usize,
)
    requires
        call_ensures(param_count, (sql,), few),
        call_ensures(param_count, (more,), many),
        more@ == sql@.push(c),
    ensures
        many == if c == '?' { few + 1 } else { few as int },
        sql@.len() == 0 ==> few == 0,
{
    let n = sql@.len() as int;
    assert(more@[n] == c);
    lemma_same_front(sql@, more@, n);
}

proof fn lemma_same_front(a: Seq<char>, b: Seq<char>, n: int)
    requires
        0 <= n <= a.len(),
        a.len() <= b.len(),
        forall|i: int| 0 <= i < a.len() ==> a[i] == #[trigger] b[i],
    ensures
        crate::mysql::handler::placeholders(a, n) == crate::mysql::handler::placeholders(b, n),
    decreases n,
{
    if n > 0 {
        lemma_same_front(a, b, n - 1);
        assert(a[n - 1] == b[n - 1]);
    }
}

/// The columns are described in their order and by their names. One with a
/// declared type goes by the words in it: `INT` before `REAL`, `FLOAT` and
/// `DOUBLE`, and those before `BLOB`.
pub proof fn law_declared_columns(rs: ResultSet, r: Vec<ColumnInfo>, i: int)
    requires
        call_ensures(result_columns, (&rs,), r),
        0 <= i < rs.columns@.len(),
    ensures
        r@.len() == rs.columns@.len(),
        r@[i].name@ == rs.columns@[i].name@,
        rs.columns@[i].decltype matches Some(d) ==> {
            let integer = crate::text_laws::holds_word(d@, "INT"@);
            let float = crate::text_laws::holds_word(d@, "REAL"@)
                || crate::text_laws::holds_word(d@, "FLOAT"@)
                || crate::text_laws::holds_word(d@, "DOUBLE"@);
            let binary = crate::text_laws::holds_word(d@, "BLOB"@)
                || crate::text::upper(d@) == "BYTEA"@;
            r@[i].coltype == if integer {
                ColumnType::MYSQL_TYPE_LONGLONG
            } else if float {
                ColumnType::MYSQL_TYPE_DOUBLE
            } else if binary {
                ColumnType::MYSQL_TYPE_BLOB
            } else {
                ColumnType::MYSQL_TYPE_VAR_STRING
            }
        },
{
    let views = crate::mysql::handler::info_views(r@);
    assert(views.len() == r@.len());
    assert(views[i].name == r@[i].name@ && views[i].coltype == r@[i].coltype);
    assert(views[i] == crate::mysql::handler::result_infos(rs)[i]);
    if let Some(d) = rs.columns@[i].decltype {
        crate::text_laws::lemma_occurs_upper(d@, "INT"@);
        crate::text_laws::lemma_occurs_upper(d@, "REAL"@);
        crate::text_laws::lemma_occurs_upper(d@, "FLOAT"@);
        crate::text_laws::lemma_occurs_upper(d@, "DOUBLE"@);
        crate::text_laws::lemma_occurs_upper(d@, "BLOB"@);
    }
}

/// The row `k` has a value in the column `i` that is not null.
pub open spec fn has_value(rs: ResultSet, i: int, k: int) -> bool {
    i < rs.rows@[k]@.len() && !(rs.rows@[k]@[i]@ is Null)
}

/// A column without a declared type goes by its first value that is not
/// null, however many rows come before it, and is text where there is none.
pub proof fn law_undeclared_columns(rs: ResultSet, r: Vec<ColumnInfo>, i: int, k: int)
    requires
        call_ensures(result_columns, (&rs,), r),
        0 <= i < rs.columns@.len(),
        rs.columns@[i].decltype is None,
        0 <= k <= rs.rows@.len(),
        forall|j: int| 0 <= j < k ==> !#[trigger] has_value(rs, i, j),
        k < rs.rows@.len() ==> has_value(rs, i, k),
    ensures
        r@[i].coltype == if k == rs.rows@.len() {
            ColumnType::MYSQL_TYPE_VAR_STRING
        } else if rs.rows@[k]@[i]@ is Integer {
            ColumnType::MYSQL_TYPE_LONGLONG
        } else if rs.rows@[k]@[i]@ is Float {
            ColumnType::MYSQL_TYPE_DOUBLE
        } else if rs.rows@[k]@[i]@ is Blob {
            ColumnType::MYSQL_TYPE_BLOB
        } else {
            ColumnType::MYSQL_TYPE_VAR_STRING
        },
{
    let views = crate::mysql::handler::info_views(r@);
    assert(views.len() == r@.len());
    assert(views[i].coltype == r@[i].coltype);
    assert(views[i] == crate::mysql::handler::result_infos(rs)[i]);
    lemma_first_value(rs, i, 0, k);
}

proof fn lemma_first_value(rs: ResultSet, i: int, j: int, k: int)
    requires
        0 <= j <= k <= rs.rows@.len(),
        forall|m: int| j <= m < k ==> !#[trigger] has_value(rs, i, m),
        k < rs.rows@.len() ==> has_value(rs, i, k),
    ensures
        crate::mysql::handler::first_value(rs.rows@, i, j) == if k == rs.rows@.len() {
            None
        } else {
            Some(rs.rows@[k]@[i]@)
        },
    decreases k - j,
{
    if j < k {
        assert(!has_value(rs, i, j));
        lemma_first_value(rs, i, j + 1, k);
    }
}

/// A challenge is twenty printable characters, and random bytes that differ
/// by less than the number of those give different ones.
pub proof fn law_challenges_differ(a: [u8; 20], b: [u8; 20], x: [u8; 20], y: [u8; 20], i: int)
    requires
        call_ensures(scramble_from, (a,), x),
        call_ensures(scramble_from, (b,), y),
        0 <= i < 20,
    ensures
        '!' as int <= x@[i] <= '~' as int,
        a@[i] < b@[i] < a@[i] + 94 ==> x@[i] != y@[i],
        a@[i] == b@[i] ==> x@[i] == y@[i],
{
}

/// A connection that checks nothing greets with one fixed challenge.
pub proof fn law_fixed_challenge<C>(h: LiteWireHandler<C>, r: [u8; 20], i: int)
    requires
        call_ensures(LiteWireHandler::<C>::salt, (&h,), r),
        0 <= i < 20,
    ensures
        h.scramble matches Some(s) ==> r == s,
        h.scramble is None ==> r@[i] as int == ";X,po_k}>o6^Wz!/kM}N"@[i] as int,
{
    reveal_strlit(";X,po_k}>o6^Wz!/kM}N");
}

/// A connection without a session is refused whatever it asks: it is told
/// that it is not authenticated, and nothing is run.
pub proof fn law_no_session_no_work<C>(
    h: LiteWireHandler<C>,
    translated: Result<Vec<Statement>, TranslateError>,
    query: Result<Batch, ErrorReply>,
    prepare: Preparing,
    init: Result<(), ErrorReply>,
)
    requires
        h.session is None,
        call_ensures(LiteWireHandler::<C>::on_query, (&h, translated), query),
        call_ensures(LiteWireHandler::<C>::on_prepare, (&h, translated), prepare),
        call_ensures(LiteWireHandler::<C>::on_init, (&h,), init),
    ensures
        query matches Err(e) && is_refusal(e),
        prepare matches Preparing::Refuse(e) && is_refusal(e),
        init matches Err(e) && is_refusal(e),
{
}

/// The error for a connection that is not authenticated.
pub open spec fn is_refusal(e: ErrorReply) -> bool {
    &&& e.kind == crate::mysql::error_map::kind_of(1045)
    &&& e.message@ == "Access denied: connection is not authenticated"@
}

/// A prepared statement that is executed without a session is refused in the
/// same way; with one, an id that was never handed out or is closed is
/// unknown, and nothing changes.
pub proof fn law_unknown_ids<C>(h: &mut LiteWireHandler<C>, id: u32, r: Result<Work, ErrorReply>)
    requires
        call_ensures(LiteWireHandler::<C>::on_execute, (h, id), r),
    ensures
        final(h).stmts == old(h).stmts,
        final(h).next_stmt_id == old(h).next_stmt_id,
        r is Ok <==> old(h).session is Some && old(h).stmts@.contains_key(id),
        old(h).session is None ==> (r matches Err(e) && is_refusal(e)),
        old(h).session is Some && !old(h).stmts@.contains_key(id) ==> {
            &&& r matches Err(e)
            &&& e.kind == crate::mysql::error_map::kind_of(1243)
            &&& final(h).session == old(h).session
        },
{
}

/// A connection holds at most 1024 prepared statements: the next is refused
/// and nothing changes. Any other gets an id that no other statement has, and
/// is described with as many parameters as it has question marks.
pub proof fn law_prepared_statements_are_kept<C>(
    h: &mut LiteWireHandler<C>,
    prepared: Prepared,
    described: Option<Result<Vec<Column>, BackendError>>,
    r: Result<PrepareReply, ErrorReply>,
)
    requires
        old(h).ok(),
        old(h).next_stmt_id < u32::MAX,
        call_ensures(LiteWireHandler::<C>::register, (h, prepared, described), r),
    ensures
        r is Ok <==> old(h).stmts@.len() < 1024,
        final(h).session == old(h).session,
        r matches Err(e) ==> {
            &&& e.kind == crate::mysql::error_map::kind_of(1461)
            &&& e.message@ == "Can't create more than 1024 prepared statements "@
                + "on this connection"@
            &&& final(h).stmts@ == old(h).stmts@
        },
        r matches Ok(reply) ==> {
            &&& !old(h).stmts@.contains_key(reply.id)
            &&& final(h).stmts@ == old(h).stmts@.insert(reply.id, prepared)
            &&& reply.params@.len() == crate::mysql::handler::placeholders(
                prepared.sqlite_sql@,
                prepared.sqlite_sql@.len() as int,
            )
            &&& forall|i: int|
                0 <= i < reply.params@.len() ==> (#[trigger] reply.params@[i]).name@ == "?"@
                    && reply.params@[i].coltype == ColumnType::MYSQL_TYPE_VAR_STRING
        },
        r matches Ok(reply) ==> match described {
            Some(Ok(columns)) => {
                &&& reply.columns@.len() == columns@.len()
                &&& forall|i: int|
                    0 <= i < columns@.len() ==> (#[trigger] reply.columns@[i]).name@
                        == columns@[i].name@
                &&& forall|i: int|
                    0 <= i < columns@.len() ==> is_declared_type(
                        (#[trigger] reply.columns@[i]).coltype,
                        columns@[i],
                    )
            },
            _ => reply.columns@.len() == 0,
        },
{
    if let Ok(reply) = r {
        let views = crate::mysql::handler::info_views(reply.columns@);
        assert(views.len() == reply.columns@.len());
        let params = crate::mysql::handler::info_views(reply.params@);
        assert(params.len() == reply.params@.len());
        assert forall|i: int| 0 <= i < reply.params@.len() implies (
        #[trigger] reply.params@[i]).name@ == "?"@ && reply.params@[i].coltype
            == ColumnType::MYSQL_TYPE_VAR_STRING by {
            assert(params[i].name == "?"@);
        }
        if let Some(Ok(columns)) = described {
            assert forall|i: int| 0 <= i < columns@.len() implies (
            #[trigger] reply.columns@[i]).name@ == columns@[i].name@ by {
                assert(views[i] == crate::mysql::handler::described_infos(described)[i]);
            }
            assert forall|i: int| 0 <= i < columns@.len() implies is_declared_type(
                (#[trigger] reply.columns@[i]).coltype,
                columns@[i],
            ) by {
                assert(views[i] == crate::mysql::handler::described_infos(described)[i]);
                lemma_declared_type(columns@[i]);
            }
        }
    }
}

/// The type is that of the column's declared type, by the words in it; a
/// column without one is text.
pub open spec fn is_declared_type(t: ColumnType, column: Column) -> bool {
    match column.decltype {
        Some(d) => {
            let integer = crate::text_laws::holds_word(d@, "INT"@);
            let float = crate::text_laws::holds_word(d@, "REAL"@)
                || crate::text_laws::holds_word(d@, "FLOAT"@)
                || crate::text_laws::holds_word(d@, "DOUBLE"@);
            let binary = crate::text_laws::holds_word(d@, "BLOB"@)
                || crate::text::upper(d@) == "BYTEA"@;
            t == if integer {
                ColumnType::MYSQL_TYPE_LONGLONG
            } else if float {
                ColumnType::MYSQL_TYPE_DOUBLE
            } else if binary {
                ColumnType::MYSQL_TYPE_BLOB
            } else {
                ColumnType::MYSQL_TYPE_VAR_STRING
            }
        },
        None => t == ColumnType::MYSQL_TYPE_VAR_STRING,
    }
}

proof fn lemma_declared_type(column: Column)
    ensures
        is_declared_type(
            crate::mysql::types::declared_column_type(column@.decltype),
            column,
        ),
{
    if let Some(d) = column.decltype {
        crate::text_laws::lemma_occurs_upper(d@, "INT"@);
        crate::text_laws::lemma_occurs_upper(d@, "REAL"@);
        crate::text_laws::lemma_occurs_upper(d@, "FLOAT"@);
        crate::text_laws::lemma_occurs_upper(d@, "DOUBLE"@);
        crate::text_laws::lemma_occurs_upper(d@, "BLOB"@);
    }
}

/// A session is installed once at most: where an authentication opened one
/// and the connection has none yet. The connection is accepted exactly then.
pub proof fn law_authentication<C>(
    h: &mut LiteWireHandler<C>,
    session: Option<Session<C>>,
    r: bool,
)
    requires
        call_ensures(LiteWireHandler::<C>::authenticated, (h, session), r),
    ensures
        r <==> session is Some && old(h).session is None,
        r ==> final(h).session == session,
        !r ==> final(h).session == old(h).session,
{
}

/// A reset that is pending drops every prepared statement and asks for a
/// rollback where a transaction is open; one that is not does nothing. After
/// the rollback the session is in no transaction.
pub proof fn law_reset<C>(
    h: &mut LiteWireHandler<C>,
    after: &mut LiteWireHandler<C>,
    pending: bool,
    r: bool,
)
    requires
        old(h).ok(),
        call_ensures(LiteWireHandler::<C>::apply_pending_reset, (h, pending), r),
        call_ensures(LiteWireHandler::<C>::rolled_back, (after,), ()),
    ensures
        pending ==> final(h).stmts@.dom() == Set::<u32>::empty(),
        !pending ==> final(h).stmts@ == old(h).stmts@ && !r,
        final(h).session == old(h).session,
        r ==> old(h).session is Some && old(h).session->0.in_transaction,
        pending && !r ==> old(h).session is None || !old(h).session->0.in_transaction,
        final(after).session is Some <==> old(after).session is Some,
        final(after).session is Some ==> !final(after).session->0.in_transaction,
{
}

/// A change of user is a no-op only where every user reaches one backend.
pub proof fn law_change_of_user(source: BackendSource, r: bool)
    requires
        call_ensures(allow_change_user, (source,), r),
    ensures
        r <==> source is Fixed,
{
}

} // verus!
