//! What a client can count on of a session, whatever it runs.
use crate::backend::{BackendError, ExecuteResult, ResultSet};
use crate::session::{
    count_value, map_backend_err, Batch, Prepared, Session, SessionError, SessionResult, Special,
    Statement, TranslateError, Work,
};
use crate::statement::{StatementKind, TransactionVerb, Translated};
use vstd::prelude::*;

verus! {

/// SQL reaches the backend as it stands: a query is asked for its rows,
/// transaction control is run without parameters, and the effect is asked of
/// anything else.
pub proof fn law_sql_runs_as_it_stands<C>(
    session: Session<C>,
    sql: String,
    kind: StatementKind,
    r: Work,
)
    requires
        call_ensures(Session::<C>::run_translated, (&session, sql, kind), r),
    ensures
        match r {
            Work::Query { sql: s, bind, count } => kind is Query && s@ == sql@ && bind
                && count is None,
            Work::Transaction(s) => kind is Transaction && s@ == sql@,
            Work::Execute(s) => !(kind is Query) && !(kind is Transaction) && s@ == sql@,
            Work::Answer(_) => false,
        },
{
}

/// A statement that is started changes nothing of the session but, for
/// `FOUND_ROWS()`, what that gives next; one that is to do nothing does not
/// reach the backend, and a query of metadata gets no parameters.
pub proof fn law_start<C>(session: &mut Session<C>, statement: Statement, r: Work)
    requires
        call_ensures(Session::<C>::start, (session, statement), r),
    ensures
        final(session).conn == old(session).conn,
        final(session).in_transaction == old(session).in_transaction,
        final(session).dialect == old(session).dialect,
        !(statement is FoundRows) ==> final(session).found == old(session).found,
        statement is FoundRows ==> final(session).found == 1,
        match statement {
            Statement::Translated(Translated::Noop, _) => {
                &&& r matches Work::Answer(SessionResult::Done(ok))
                &&& ok.noop
                &&& ok.affected_rows == 0
                &&& ok.last_insert_id == 0
                &&& ok.in_transaction == old(session).in_transaction
            },
            Statement::Translated(Translated::Metadata(sql), _) => {
                &&& r matches Work::Query { sql: s, bind, count }
                &&& s@ == sql@
                &&& !bind
                &&& count is None
            },
            Statement::Translated(Translated::Sql(sql), kind) => match r {
                Work::Query { sql: s, bind, count } => kind is Query && s@ == sql@ && bind
                    && count is None,
                Work::Transaction(s) => kind is Transaction && s@ == sql@,
                Work::Execute(s) => !(kind is Query) && !(kind is Transaction) && s@ == sql@,
                Work::Answer(_) => false,
            },
            Statement::CalcFoundRows { sql, count } => {
                &&& r matches Work::Query { sql: s, bind, count: c }
                &&& s == sql
                &&& bind
                &&& c == count
            },
            Statement::FoundRows { column } => {
                &&& r matches Work::Answer(SessionResult::Rows(rs))
                &&& rs.columns@.len() == 1
                &&& rs.columns@[0].name@ == column@
                &&& rs.rows@.len() == 1
                &&& rs.rows@[0]@.len() == 1
                &&& old(session).found <= i64::MAX ==> rs.rows@[0]@[0]@
                    == crate::backend::Datum::Integer(old(session).found as i64)
                &&& old(session).found > i64::MAX ==> rs.rows@[0]@[0]@
                    == crate::backend::Datum::Integer(i64::MAX)
            },
        },
{
}

/// A prepared statement is run as it was prepared, and empty SQL is not run.
pub proof fn law_prepared_runs_as_it_stands<C>(
    session: &mut Session<C>,
    prepared: Prepared,
    r: Work,
)
    requires
        call_ensures(Session::<C>::execute_prepared, (session, &prepared), r),
    ensures
        final(session).conn == old(session).conn,
        final(session).in_transaction == old(session).in_transaction,
        final(session).dialect == old(session).dialect,
        prepared.special is FoundRows <==> r matches Work::Answer(SessionResult::Rows(_)),
        prepared.special is FoundRows ==> final(session).found == 1,
        !(prepared.special is FoundRows) ==> final(session).found == old(session).found,
        prepared.special is Nothing && prepared.sqlite_sql@.len() == 0 ==> r is Answer,
        prepared.special is CalcFoundRows ==> (r matches Work::Query { sql, bind, .. } && sql@
            == prepared.sqlite_sql@ && bind),
        prepared.special is Nothing && prepared.sqlite_sql@.len() > 0 ==> match r {
            Work::Query { sql, bind, count } => prepared.kind is Query && sql@
                == prepared.sqlite_sql@ && bind && count is None,
            Work::Transaction(sql) => prepared.kind is Transaction && sql@ == prepared.sqlite_sql@,
            Work::Execute(sql) => !(prepared.kind is Query) && !(prepared.kind is Transaction)
                && sql@ == prepared.sqlite_sql@,
            Work::Answer(_) => false,
        },
{
}

/// The transaction flag follows the commands that the backend accepted: one
/// that begins with `BEGIN` or `START` sets it, one that begins with `COMMIT`
/// or `ROLLBACK` takes it away, in whatever case and behind whatever white
/// space, any other leaves it, and so does any command that failed. The
/// result tells the flag as it is then.
pub proof fn law_transaction_flag_follows_the_commands<C>(
    session: &mut Session<C>,
    sql: &str,
    outcome: Result<ExecuteResult, BackendError>,
    r: Result<SessionResult, SessionError>,
    n: int,
)
    requires
        call_ensures(Session::<C>::finish_transaction, (session, sql, outcome), r),
    ensures
        final(session).conn == old(session).conn,
        final(session).found == old(session).found,
        final(session).dialect == old(session).dialect,
        outcome is Err ==> r is Err && final(session).in_transaction == old(session).in_transaction,
        outcome is Ok ==> {
            &&& crate::text_laws::leads(sql@, n, "BEGIN"@) || crate::text_laws::leads(
                sql@,
                n,
                "START"@,
            ) ==> final(session).in_transaction
            &&& crate::text_laws::leads(sql@, n, "COMMIT"@) || crate::text_laws::leads(
                sql@,
                n,
                "ROLLBACK"@,
            ) ==> !final(session).in_transaction
            &&& (forall|k: int|
                !#[trigger] crate::text_laws::leads(sql@, k, "BEGIN"@)
                    && !crate::text_laws::leads(sql@, k, "START"@) && !crate::text_laws::leads(
                    sql@,
                    k,
                    "COMMIT"@,
                ) && !crate::text_laws::leads(sql@, k, "ROLLBACK"@))
                ==> final(session).in_transaction == old(session).in_transaction
            &&& r matches Ok(SessionResult::Done(ok)) && {
                &&& ok.affected_rows == 0
                &&& ok.last_insert_id == 0
                &&& !ok.noop
                &&& ok.in_transaction == final(session).in_transaction
            }
        },
{
    crate::statement::lemma_verb(sql@);
    let verb = crate::statement::verb_of(sql@);
    if verb == TransactionVerb::Begin {
        let k = choose|k: int|
            crate::text_laws::leads(sql@, k, "BEGIN"@) || crate::text_laws::leads(
                sql@,
                k,
                "START"@,
            );
        assert(crate::text_laws::leads(sql@, k, "BEGIN"@) || crate::text_laws::leads(
            sql@,
            k,
            "START"@,
        ));
    } else if verb == TransactionVerb::Commit {
        let k = choose|k: int| crate::text_laws::leads(sql@, k, "COMMIT"@);
        assert(!crate::text_laws::leads(sql@, k, "BEGIN"@));
    } else if verb == TransactionVerb::Rollback {
        let k = choose|k: int| crate::text_laws::leads(sql@, k, "ROLLBACK"@);
        assert(!crate::text_laws::leads(sql@, k, "BEGIN"@));
    }
}

/// The rows of a query are handed on as they came, and `FOUND_ROWS()` then
/// gives what was counted, or the number of the rows; a query that failed
/// leaves it as it was.
pub proof fn law_rows_are_handed_on<C>(
    session: &mut Session<C>,
    outcome: Result<ResultSet, BackendError>,
    counted: Option<u64>,
    r: Result<SessionResult, SessionError>,
)
    requires
        call_ensures(Session::<C>::finish_query, (session, outcome, counted), r),
    ensures
        final(session).conn == old(session).conn,
        final(session).in_transaction == old(session).in_transaction,
        final(session).dialect == old(session).dialect,
        outcome is Err ==> r is Err && final(session).found == old(session).found,
        outcome matches Ok(rs) ==> {
            &&& r == Ok::<SessionResult, SessionError>(SessionResult::Rows(rs))
            &&& counted matches Some(n) ==> final(session).found == n
            &&& counted is None && rs.rows@.len() <= u64::MAX ==> final(session).found
                == rs.rows@.len()
        },
{
}

/// A count is the number in the first cell of the first row, where that is
/// an integer that is not negative; nothing else counts.
pub proof fn law_count_is_the_first_cell(outcome: Result<ResultSet, BackendError>, r: Option<u64>)
    requires
        call_ensures(count_value, (&outcome,), r),
    ensures
        r matches Some(n) ==> outcome matches Ok(rs) && rs.rows@.len() > 0 && rs.rows@[0]@.len() > 0
            && n <= i64::MAX && rs.rows@[0]@[0]@ == crate::backend::Datum::Integer(n as i64),
        r is None ==> outcome is Err || outcome->Ok_0.rows@.len() == 0
            || outcome->Ok_0.rows@[0]@.len() == 0 || !(outcome->Ok_0.rows@[0]@[0]@ is Integer)
            || outcome->Ok_0.rows@[0]@[0]@->Integer_0 < 0,
{
}

/// The effect of a statement is told as the backend told it: the rows
/// changed, the row id where there is one that is not negative, and the
/// transaction flag as it is.
pub proof fn law_effect_is_told<C>(
    session: Session<C>,
    outcome: Result<ExecuteResult, BackendError>,
    r: Result<SessionResult, SessionError>,
)
    requires
        call_ensures(Session::<C>::finish_execute, (&session, outcome), r),
    ensures
        outcome is Err <==> r is Err,
        outcome matches Ok(done) ==> r matches Ok(SessionResult::Done(ok)) && {
            &&& ok.affected_rows == done.affected_rows
            &&& ok.in_transaction == session.in_transaction
            &&& !ok.noop
            &&& match done.last_insert_rowid {
                Some(id) => if id >= 0 {
                    ok.last_insert_id == id
                } else {
                    ok.last_insert_id == 0
                },
                None => ok.last_insert_id == 0,
            }
        },
{
}

/// A failure of the backend is told with its own words in the message, and by
/// them: a lock that is held is 1205, a missing table 1146, a duplicate 1062,
/// a missing reference 1452, a database that is read only 1290, and anything
/// else 1105.
pub proof fn law_failure_is_told(e: BackendError, r: SessionError)
    requires
        call_ensures(map_backend_err, (&e,), r),
    ensures
        r matches SessionError::Db { code, message, .. } && ({
            let m = match e {
                BackendError::Sqlite(m) => "SQLite error: "@ + m@,
                BackendError::Other(m) => "backend error: "@ + m@,
            };
            let locked = crate::text_laws::says_words(m, "database is locked"@)
                || crate::text_laws::says_words(m, "database table is locked"@)
                || crate::text_laws::says_words(m, "sqlite_busy"@)
                || crate::text_laws::says_words(m, "sqlite_locked"@);
            let no_table = crate::text_laws::says_words(m, "no such table"@);
            let duplicate = crate::text_laws::says_words(m, "unique constraint failed"@)
                || crate::text_laws::says_words(m, "primary key constraint failed"@);
            let foreign = crate::text_laws::says_words(m, "foreign key constraint failed"@);
            let read_only = crate::text_laws::says_words(
                m,
                "attempt to write a readonly database"@,
            ) || crate::text_laws::says_words(m, "readonly database"@)
                || crate::text_laws::says_words(m, "sqlite_readonly"@);
            &&& crate::text::occurs(message@, m)
            &&& code != 1062 ==> message@ == m
            &&& code == 1205 <==> locked
            &&& code == 1146 <==> no_table && !locked
            &&& code == 1062 <==> duplicate && !locked && !no_table
            &&& code == 1452 <==> foreign && !locked && !no_table && !duplicate
            &&& code == 1290 <==> read_only && !locked && !no_table && !duplicate && !foreign
            &&& code == 1105 <==> !locked && !no_table && !duplicate && !foreign && !read_only
        }),
{
    let m = crate::backend::error_text(e);
    crate::session::error_map::law_backend_text_survives(m);
    crate::text_laws::lemma_occurs_lower(m, "database is locked"@);
    crate::text_laws::lemma_occurs_lower(m, "database table is locked"@);
    crate::text_laws::lemma_occurs_lower(m, "sqlite_busy"@);
    crate::text_laws::lemma_occurs_lower(m, "sqlite_locked"@);
    crate::text_laws::lemma_occurs_lower(m, "no such table"@);
    crate::text_laws::lemma_occurs_lower(m, "unique constraint failed"@);
    crate::text_laws::lemma_occurs_lower(m, "primary key constraint failed"@);
    crate::text_laws::lemma_occurs_lower(m, "foreign key constraint failed"@);
    crate::text_laws::lemma_occurs_lower(m, "attempt to write a readonly database"@);
    crate::text_laws::lemma_occurs_lower(m, "readonly database"@);
    crate::text_laws::lemma_occurs_lower(m, "sqlite_readonly"@);
}

/// A statement that could not be translated is a parse error, whatever its
/// message; any other error keeps the code and the SQLSTATE that it has.
pub proof fn law_codes_of_errors(e: SessionError, code: u16, state: [u8; 5], i: int)
    requires
        call_ensures(SessionError::code, (&e,), code),
        call_ensures(SessionError::sqlstate, (&e,), state),
        0 <= i < 5,
    ensures
        e is Translate ==> code == 1064 && state@[i] as int == "42000"@[i] as int,
        e matches SessionError::Db { code: c, sqlstate, .. } ==> code == c && state == sqlstate,
{
    reveal_strlit("42000");
}

/// Parameters are not spread over several statements: with any, a text that
/// became more than one is refused and nothing of it is run. Else all that it
/// became is run, in its order.
pub proof fn law_parameters_are_for_one_statement<C>(
    session: Session<C>,
    translated: Vec<Statement>,
    params: usize,
    r: Result<Batch, SessionError>,
)
    requires
        call_ensures(
            Session::<C>::query,
            (&session, Ok::<Vec<Statement>, TranslateError>(translated), params),
            r,
        ),
    ensures
        r is Err <==> translated@.len() > 1 && params > 0,
        r matches Err(e) ==> (e matches SessionError::Translate(TranslateError::Unsupported(m))
            && m@ == "parameters cannot be bound to a statement that expands to multiple "@
            + "SQLite statements"@),
        r matches Ok(b) ==> {
            &&& b.waiting@ == translated@
            &&& b.last matches Ok(SessionResult::Done(ok))
            &&& ok.noop
            &&& ok.affected_rows == 0
            &&& ok.in_transaction == session.in_transaction
        },
{
}

/// What a text is prepared as is its first statement: its SQL and its kind,
/// where it has any, and no SQL where nothing is to be run.
pub proof fn law_first_statement_is_prepared<C>(
    translated: Vec<Statement>,
    r: Result<Prepared, SessionError>,
)
    requires
        call_ensures(
            Session::<C>::prepare,
            (Ok::<Vec<Statement>, TranslateError>(translated),),
            r,
        ),
    ensures
        r matches Ok(p) && if translated@.len() == 0 {
            p.sqlite_sql@.len() == 0
        } else {
            match translated@[0] {
                Statement::Translated(Translated::Noop, _) => p.sqlite_sql@.len() == 0
                    && p.special is Nothing,
                Statement::Translated(Translated::Metadata(sql), _) => p.sqlite_sql@ == sql@
                    && p.kind is Query && p.special is Nothing,
                Statement::Translated(Translated::Sql(sql), kind) => p.sqlite_sql@ == sql@ && p.kind
                    == kind && p.special is Nothing,
                Statement::CalcFoundRows { sql, count } => p.sqlite_sql@ == sql@ && p.kind is Query
                    && p.special == Special::CalcFoundRows(count),
                Statement::FoundRows { column } => p.kind is Query && p.special
                    == Special::FoundRows(column),
            }
        },
{
}

} // verus!
