//! The statements of a PostgreSQL client: what is run for each, and what the
//! client is answered.
use crate::backend::{BackendError, Column, ExecuteResult, ResultSet, Value};
use crate::postgres::error_map::classify;
use crate::postgres::row::{encode_row, DataRow, FieldFormat, FieldInfo, Format};
use crate::postgres::types::{sqlite_to_pg_type, value_to_pg_type, Type};
use crate::session::queue_of;
use crate::statement::{transaction_verb, StatementKind, TransactionVerb, Translated};
use crate::text::{starts_with, trimmed_upper};
use std::collections::VecDeque;
use vstd::prelude::*;

verus! {

/// An error as a client is told.
#[derive(Clone, Debug, PartialEq, Eq)]
pub struct ErrorInfo {
    pub severity: String,
    /// The SQLSTATE.
    pub code: String,
    pub message: String,
}

/// `e` is an error with this SQLSTATE and message.
pub open spec fn is_error(e: ErrorInfo, code: Seq<char>, message: Seq<char>) -> bool {
    &&& e.severity@ == "ERROR"@
    &&& e.code@ == code
    &&& e.message@ == message
}

/// `e` is how a backend's failure is reported.
pub open spec fn reports(e: ErrorInfo, failure: BackendError) -> bool {
    let text = crate::backend::error_text(failure);
    is_error(e, crate::postgres::error_map::state_of(text), text)
}

/// An internal error with a message.
pub fn pg_error(msg: &str) -> (r: ErrorInfo)
    ensures
        is_error(r, "XX000"@, msg@),
{
    ErrorInfo {
        severity: "ERROR".to_owned(),
        code: "XX000".to_owned(),
        message: msg.to_owned(),
    }
}

/// The error of a backend's failure.
pub fn pg_backend_error(err: &BackendError) -> (r: ErrorInfo)
    ensures
        reports(r, *err),
{
    let text = err.to_text();
    let mapped = classify(text.as_str());
    ErrorInfo {
        severity: "ERROR".to_owned(),
        code: mapped.sqlstate.to_owned(),
        message: mapped.message,
    }
}

/// What a client is told of a statement that succeeded without rows.
#[derive(Clone, Copy, Debug, PartialEq, Eq)]
pub struct Tag {
    pub command: &'static str,
    /// The rows changed, where that is told.
    pub rows: Option<usize>,
}

/// The answer to a statement.
#[derive(Clone, Debug, PartialEq, Eq)]
pub enum Response {
    Query { fields: Vec<FieldInfo>, rows: Vec<DataRow> },
    Execution(Tag),
    TransactionStart(Tag),
    TransactionEnd(Tag),
}

/// `r` tells of a statement without rows.
pub open spec fn is_execution(r: Response, command: Seq<char>, rows: Option<usize>) -> bool {
    r matches Response::Execution(tag) && tag.command@ == command && tag.rows == rows
}

fn execution(command: &'static str) -> (r: Response)
    ensures
        is_execution(r, command@, None),
{
    Response::Execution(Tag { command, rows: None })
}

/// The type of a result column: the declared one, else that of its value in
/// the first row.
pub open spec fn column_type(columns: Seq<Column>, rows: Seq<Vec<Value>>, idx: int) -> Type {
    if columns[idx].decltype is Some {
        crate::postgres::types::declared_type(columns[idx]@.decltype)
    } else if rows.len() > 0 && idx < rows[0]@.len() {
        crate::postgres::types::datum_type(rows[0]@[idx]@)
    } else {
        Type::TEXT
    }
}

/// `fields` describe the columns of a result.
pub open spec fn describes(
    fields: Seq<FieldInfo>,
    columns: Seq<Column>,
    rows: Seq<Vec<Value>>,
    format: Format,
) -> bool {
    &&& fields.len() == columns.len()
    &&& forall|i: int|
        0 <= i < fields.len() ==> {
            &&& (#[trigger] fields[i]).name@ == columns[i].name@
            &&& fields[i].datatype == column_type(columns, rows, i)
            &&& fields[i].format == crate::postgres::row::format_at(format, i)
        }
}

/// The description of a result's columns.
pub fn describe(columns: &Vec<Column>, rows: &Vec<Vec<Value>>, format: &Format) -> (r: Vec<
    FieldInfo,
>)
    requires
        crate::postgres::row::covers(*format, columns@.len()),
    ensures
        describes(r@, columns@, rows@, *format),
        crate::postgres::row::is_result_schema(r@),
{
    let mut fields: Vec<FieldInfo> = Vec::new();
    for i in 0..columns.len()
        invariant
            crate::postgres::row::covers(*format, columns@.len()),
            fields@.len() == i,
            crate::postgres::row::is_result_schema(fields@),
            forall|j: int|
                0 <= j < i ==> {
                    &&& (#[trigger] fields@[j]).name@ == columns@[j].name@
                    &&& fields@[j].datatype == column_type(columns@, rows@, j)
                    &&& fields@[j].format == crate::postgres::row::format_at(*format, j)
                },
    {
        let datatype = match &columns[i].decltype {
            Some(d) => sqlite_to_pg_type(Some(d.as_str())),
            None => if rows.len() > 0 && i < rows[0].len() {
                value_to_pg_type(&rows[0][i])
            } else {
                Type::TEXT
            },
        };
        fields.push(
            FieldInfo { name: columns[i].name.clone(), datatype, format: format.format_for(i) },
        );
    }
    fields
}

/// The types and formats of a result's columns.
pub open spec fn result_shape(rs: ResultSet, format: Format) -> Seq<(Type, FieldFormat)> {
    Seq::new(
        rs.columns@.len(),
        |i: int|
            (
                column_type(rs.columns@, rs.rows@, i),
                crate::postgres::row::format_at(format, i),
            ),
    )
}

/// Every column has a format, no row is longer than the columns, and every
/// row can be held in memory as it is sent.
pub open spec fn can_be_sent(rs: ResultSet, format: Format) -> bool {
    &&& crate::postgres::row::covers(format, rs.columns@.len())
    &&& forall|i: int|
        0 <= i < rs.rows@.len() ==> {
            &&& (#[trigger] rs.rows@[i])@.len() <= rs.columns@.len()
            &&& crate::postgres::row::row_data(rs.rows@[i]@, result_shape(rs, format)).len()
                <= isize::MAX
        }
}

/// `rows` are the first rows of a result as they are sent.
pub open spec fn are_rows(rows: Seq<DataRow>, rs: ResultSet, format: Format) -> bool {
    forall|i: int|
        0 <= i < rows.len() ==> {
            &&& (#[trigger] rows[i]).data@ == crate::postgres::row::row_data(
                rs.rows@[i]@,
                result_shape(rs, format),
            )
            &&& rows[i].field_count == rs.rows@[i]@.len() as i16
        }
}

/// The answer to a query that resulted in `outcome`.
pub fn do_select(outcome: Result<ResultSet, BackendError>, format: &Format) -> (r: Result<
    Response,
    ErrorInfo,
>)
    requires
        outcome matches Ok(rs) ==> can_be_sent(rs, *format),
    ensures
        match outcome {
            Ok(rs) => r matches Ok(Response::Query { fields, rows }) && {
                &&& describes(fields@, rs.columns@, rs.rows@, *format)
                &&& rows@.len() == rs.rows@.len()
                &&& are_rows(rows@, rs, *format)
            },
            Err(failure) => r matches Err(e) && reports(e, failure),
        },
{
    let rs = match outcome {
        Ok(rs) => rs,
        Err(e) => {
            return Err(pg_backend_error(&e));
        },
    };
    let fields = describe(&rs.columns, &rs.rows, format);
    assert(crate::postgres::row::shape(fields@) =~= result_shape(rs, *format));
    let mut rows: Vec<DataRow> = Vec::new();
    for i in 0..rs.rows.len()
        invariant
            can_be_sent(rs, *format),
            fields@.len() == rs.columns@.len(),
            crate::postgres::row::shape(fields@) == result_shape(rs, *format),
            crate::postgres::row::is_result_schema(fields@),
            rows@.len() == i,
            are_rows(rows@, rs, *format),
    {
        rows.push(encode_row(rs.rows[i].as_slice(), fields.as_slice()));
    }
    Ok(Response::Query { fields, rows })
}

/// The command of a statement without rows, by its first letters.
pub open spec fn command_of(sql: Seq<char>, kind: StatementKind) -> Seq<char> {
    let u = crate::text::upper(crate::text::trim(sql));
    match kind {
        StatementKind::Mutation => if crate::text::begins_with(u, "INSERT"@) {
            "INSERT"@
        } else if crate::text::begins_with(u, "UPDATE"@) {
            "UPDATE"@
        } else if crate::text::begins_with(u, "DELETE"@) {
            "DELETE"@
        } else {
            "OK"@
        },
        StatementKind::Ddl => if crate::text::begins_with(u, "CREATE"@) {
            "CREATE"@
        } else if crate::text::begins_with(u, "DROP"@) {
            "DROP"@
        } else if crate::text::begins_with(u, "ALTER"@) {
            "ALTER"@
        } else {
            "OK"@
        },
        _ => "OK"@,
    }
}

fn command_name(sql: &str, kind: StatementKind) -> (r: &'static str)
    ensures
        r@ == command_of(sql@, kind),
{
    let up = trimmed_upper(sql);
    let u = up.as_slice();
    match kind {
        StatementKind::Mutation => if starts_with(u, "INSERT") {
            "INSERT"
        } else if starts_with(u, "UPDATE") {
            "UPDATE"
        } else if starts_with(u, "DELETE") {
            "DELETE"
        } else {
            "OK"
        },
        StatementKind::Ddl => if starts_with(u, "CREATE") {
            "CREATE"
        } else if starts_with(u, "DROP") {
            "DROP"
        } else if starts_with(u, "ALTER") {
            "ALTER"
        } else {
            "OK"
        },
        _ => "OK",
    }
}

/// `r` is the answer to a statement that succeeded without rows.
pub open spec fn is_done(
    r: Response,
    sql: Seq<char>,
    kind: StatementKind,
    affected_rows: u64,
) -> bool {
    match kind {
        StatementKind::Transaction => match crate::statement::verb_of(sql) {
            TransactionVerb::Begin => r matches Response::TransactionStart(tag) && tag.command@
                == "BEGIN"@ && tag.rows is None,
            TransactionVerb::Commit => r matches Response::TransactionEnd(tag) && tag.command@
                == "COMMIT"@ && tag.rows is None,
            TransactionVerb::Rollback => r matches Response::TransactionEnd(tag) && tag.command@
                == "ROLLBACK"@ && tag.rows is None,
            TransactionVerb::Other => is_execution(r, "OK"@, None),
        },
        StatementKind::Mutation => is_execution(
            r,
            command_of(sql, kind),
            Some(affected_rows as usize),
        ),
        _ => is_execution(r, command_of(sql, kind), None),
    }
}

/// The answer to a statement without rows that resulted in `outcome`. Only a
/// statement that changes rows tells how many.
pub fn do_mutation(
    sql: &str,
    kind: StatementKind,
    outcome: Result<ExecuteResult, BackendError>,
) -> (r: Result<Response, ErrorInfo>)
    ensures
        match outcome {
            Ok(result) => r matches Ok(resp) && is_done(resp, sql@, kind, result.affected_rows),
            Err(failure) => r matches Err(e) && reports(e, failure),
        },
{
    let result = match outcome {
        Ok(result) => result,
        Err(e) => {
            return Err(pg_backend_error(&e));
        },
    };
    if kind == StatementKind::Transaction {
        return Ok(
            match transaction_verb(sql) {
                TransactionVerb::Begin => Response::TransactionStart(
                    Tag { command: "BEGIN", rows: None },
                ),
                TransactionVerb::Commit => Response::TransactionEnd(
                    Tag { command: "COMMIT", rows: None },
                ),
                TransactionVerb::Rollback => Response::TransactionEnd(
                    Tag { command: "ROLLBACK", rows: None },
                ),
                TransactionVerb::Other => execution("OK"),
            },
        );
    }
    let command = command_name(sql, kind);
    let rows: Option<usize> = if kind == StatementKind::Mutation {
        Some(result.affected_rows as usize)
    } else {
        None
    };
    Ok(Response::Execution(Tag { command, rows }))
}

/// What is asked of the backend for a statement.
#[derive(Clone, Debug, PartialEq, Eq)]
pub enum Call {
    /// Its rows; [`do_select`] takes them.
    Query(String),
    /// Its effect; [`do_mutation`] takes what came of it.
    Execute(String, StatementKind),
}

/// `c` is what is asked for SQL of a kind.
pub open spec fn asks(c: Call, sql: Seq<char>, kind: StatementKind) -> bool {
    match kind {
        StatementKind::Query => c matches Call::Query(s) && s@ == sql,
        _ => c matches Call::Execute(s, k) && s@ == sql && k == kind,
    }
}

/// What is asked of the backend for SQL of a kind.
pub fn exec_query(sql: String, kind: StatementKind) -> (r: Call)
    ensures
        asks(r, sql@, kind),
{
    match kind {
        StatementKind::Query => Call::Query(sql),
        _ => Call::Execute(sql, kind),
    }
}

/// The first translated statement as SQL and kind; empty SQL where nothing is
/// to be run.
pub fn translate_sql(translated: Result<Vec<(Translated, StatementKind)>, String>) -> (r: Result<
    (String, StatementKind),
    ErrorInfo,
>)
    ensures
        match translated {
            Ok(t) => r matches Ok(first) && crate::session::is_first_translated(first, t@),
            Err(m) => r matches Err(e) && is_error(e, "XX000"@, m@),
        },
{
    match translated {
        Ok(t) => match crate::session::first_of(t) {
            None => Ok((String::new(), StatementKind::Other)),
            Some((Translated::Noop, _)) => Ok((String::new(), StatementKind::Other)),
            Some((Translated::Metadata(sql), _)) => Ok((sql, StatementKind::Query)),
            Some((Translated::Sql(sql), kind)) => Ok((sql, kind)),
        },
        Err(m) => Err(pg_error(m.as_str())),
    }
}

/// How a statement of the extended protocol is answered.
#[derive(Clone, Debug, PartialEq, Eq)]
pub enum Step {
    /// Without the backend.
    Respond(Response),
    /// By what the backend gives.
    Run(Call),
}

/// How a prepared statement is answered: nothing is run for empty SQL. `kind`
/// is that of the SQL.
pub fn do_extended(sql: String, kind: StatementKind) -> (r: Step)
    ensures
        match r {
            Step::Respond(resp) => sql@.len() == 0 && is_execution(resp, "OK"@, None),
            Step::Run(call) => sql@.len() > 0 && asks(call, sql@, kind),
        },
{
    if is_empty(sql.as_str()) {
        Step::Respond(execution("OK"))
    } else {
        Step::Run(exec_query(sql, kind))
    }
}

fn is_empty(s: &str) -> (r: bool)
    ensures
        r == (s@.len() == 0),
{
    crate::text::chars_of(s).len() == 0
}

/// Whether a description asks the backend about its columns: only a query
/// has any.
pub fn is_described(sql: &str, kind: StatementKind) -> (r: bool)
    ensures
        r == (kind == StatementKind::Query && sql@.len() > 0),
{
    kind == StatementKind::Query && !is_empty(sql)
}

/// What follows a description of a query's columns.
#[derive(Clone, Debug, PartialEq, Eq)]
pub enum Probe {
    /// The columns are known.
    Fields(Vec<FieldInfo>),
    /// A column has no declared type: this query finds a row to infer from.
    Query(String),
}

/// The query that finds one row.
pub open spec fn probe_of(sql: Seq<char>) -> Seq<char> {
    sql + " LIMIT 1"@
}

/// Some column has no declared type.
pub open spec fn has_untyped(columns: Seq<Column>) -> bool {
    exists|i: int| 0 <= i < columns.len() && (#[trigger] columns[i]).decltype is None
}

fn some_untyped(cols: &Vec<Column>) -> (r: bool)
    ensures
        r == has_untyped(cols@),
{
    for i in 0..cols.len()
        invariant
            forall|j: int| 0 <= j < i ==> (#[trigger] cols@[j]).decltype is Some,
    {
        if cols[i].decltype.is_none() {
            return true;
        }
    }
    false
}

/// What follows a description of a query's columns. A description that fails
/// describes no columns.
pub fn probe_columns(
    sql: &str,
    described: Result<Vec<Column>, BackendError>,
    format: &Format,
) -> (r: Probe)
    requires
        described matches Ok(cols) ==> crate::postgres::row::covers(*format, cols@.len()),
    ensures
        match described {
            Err(_) => r matches Probe::Fields(fields) && fields@.len() == 0,
            Ok(cols) => if has_untyped(cols@) {
                r matches Probe::Query(q) && q@ == probe_of(sql@)
            } else {
                r matches Probe::Fields(fields) && describes(
                    fields@,
                    cols@,
                    Seq::empty(),
                    *format,
                )
            },
        },
{
    let cols = match described {
        Ok(cols) => cols,
        Err(_) => {
            return Probe::Fields(Vec::new());
        },
    };
    if some_untyped(&cols) {
        let mut q: String = sql.to_owned();
        q.append(" LIMIT 1");
        return Probe::Query(q);
    }
    let none: Vec<Vec<Value>> = Vec::new();
    Probe::Fields(describe(&cols, &none, format))
}

/// The columns of a query, by the row that was found. A query that fails
/// describes no columns.
pub fn probed(outcome: Result<ResultSet, BackendError>, format: &Format) -> (r: Vec<FieldInfo>)
    requires
        outcome matches Ok(rs) ==> crate::postgres::row::covers(*format, rs.columns@.len()),
    ensures
        match outcome {
            Ok(rs) => describes(r@, rs.columns@, rs.rows@, *format),
            Err(_) => r@.len() == 0,
        },
{
    match outcome {
        Ok(rs) => describe(&rs.columns, &rs.rows, format),
        Err(_) => Vec::new(),
    }
}

/// The statements of one simple query on their way: each is answered in turn,
/// and the first that fails ends the run.
#[derive(Debug)]
pub struct SimpleQuery {
    /// The statements that are still to be answered, each with the kind of
    /// its SQL.
    pub waiting: VecDeque<(Translated, StatementKind)>,
    pub responses: Vec<Response>,
    pub failure: Option<ErrorInfo>,
}

/// What is next of a simple query.
#[derive(Clone, Debug, PartialEq, Eq)]
pub enum Next {
    /// Nothing.
    Done,
    /// A statement was answered without the backend.
    Answered,
    /// The backend is asked this, and what came of it is recorded.
    Run(Call),
}

/// A statement that is answered without the backend, and the command that the
/// answer names.
pub open spec fn answered(t: Translated) -> Option<Seq<char>> {
    match t {
        Translated::Noop => Some("SET"@),
        Translated::Metadata(_) => None,
        Translated::Sql(sql) => if sql@.len() == 0 {
            Some("OK"@)
        } else {
            None
        },
    }
}

/// The SQL of a statement.
pub open spec fn sql_of(t: Translated) -> Seq<char> {
    match t {
        Translated::Noop => Seq::empty(),
        Translated::Metadata(sql) => sql@,
        Translated::Sql(sql) => sql@,
    }
}

impl SimpleQuery {
    /// Begins to answer the statements that one SQL text became.
    pub fn new(translated: Result<Vec<(Translated, StatementKind)>, String>) -> (r: Result<
        SimpleQuery,
        ErrorInfo,
    >)
        ensures
            match translated {
                Ok(t) => r matches Ok(q) && {
                    &&& q.waiting@ == t@
                    &&& q.responses@.len() == 0
                    &&& q.failure is None
                },
                Err(m) => r matches Err(e) && is_error(e, "XX000"@, m@),
            },
    {
        match translated {
            Ok(t) => Ok(
                SimpleQuery { waiting: queue_of(t), responses: Vec::new(), failure: None },
            ),
            Err(m) => Err(pg_error(m.as_str())),
        }
    }

    /// Takes the next statement. One that needs no backend is answered here.
    pub fn next(&mut self) -> (r: Next)
        ensures
            final(self).failure == old(self).failure,
            if old(self).failure is Some || old(self).waiting@.len() == 0 {
                &&& r is Done
                &&& final(self).waiting@ == old(self).waiting@
                &&& final(self).responses@ == old(self).responses@
            } else {
                let (t, kind) = old(self).waiting@[0];
                &&& final(self).waiting@ == old(self).waiting@.skip(1)
                &&& match answered(t) {
                    Some(command) => {
                        &&& r is Answered
                        &&& final(self).responses@.len() == old(self).responses@.len() + 1
                        &&& final(self).responses@.drop_last() == old(self).responses@
                        &&& is_execution(final(self).responses@.last(), command, None)
                    },
                    None => {
                        &&& r matches Next::Run(call)
                        &&& asks(call, sql_of(t), kind)
                        &&& final(self).responses@ == old(self).responses@
                    },
                }
            },
    {
        if self.failure.is_some() {
            return Next::Done;
        }
        let first = self.waiting.pop_front();
        proof {
            if old(self).waiting@.len() > 0 {
                assert(self.waiting@ =~= old(self).waiting@.skip(1));
            }
        }
        let (t, kind) = match first {
            Some(first) => first,
            None => {
                return Next::Done;
            },
        };
        match t {
            Translated::Noop => {
                self.responses.push(execution("SET"));
                assert(self.responses@.drop_last() =~= old(self).responses@);
                Next::Answered
            },
            Translated::Metadata(sql) => Next::Run(exec_query(sql, kind)),
            Translated::Sql(sql) => match do_extended(sql, kind) {
                Step::Respond(resp) => {
                    self.responses.push(resp);
                    assert(self.responses@.drop_last() =~= old(self).responses@);
                    Next::Answered
                },
                Step::Run(call) => Next::Run(call),
            },
        }
    }

    /// Takes the answer to the statement at hand.
    pub fn record(&mut self, answer: Result<Response, ErrorInfo>)
        ensures
            final(self).waiting@ == old(self).waiting@,
            match answer {
                Ok(resp) => {
                    &&& final(self).responses@ == old(self).responses@.push(resp)
                    &&& final(self).failure == old(self).failure
                },
                Err(e) => {
                    &&& final(self).responses@ == old(self).responses@
                    &&& final(self).failure == Some(e)
                },
            },
    {
        match answer {
            Ok(resp) => {
                self.responses.push(resp);
            },
            Err(e) => {
                self.failure = Some(e);
            },
        }
    }

    /// The answers to the whole. There is always one, even to no statement.
    pub fn finish(self) -> (r: Result<Vec<Response>, ErrorInfo>)
        ensures
            match self.failure {
                Some(e) => r == Err::<Vec<Response>, ErrorInfo>(e),
                None => r matches Ok(responses) && if self.responses@.len() == 0 {
                    responses@.len() == 1 && is_execution(responses@[0], "OK"@, None)
                } else {
                    responses@ == self.responses@
                },
            },
    {
        match self.failure {
            Some(e) => Err(e),
            None => {
                let mut responses = self.responses;
                if responses.len() == 0 {
                    responses.push(execution("OK"));
                }
                Ok(responses)
            },
        }
    }
}

/// The number of answers that a query owes: those that it has and those that
/// are still to come.
pub open spec fn owed(q: SimpleQuery) -> nat {
    q.responses@.len() + q.waiting@.len()
}

/// A query's statements are answered one for one: as long as none fails,
/// taking a statement and recording its answer leaves the number of answers
/// owed as it was.
pub proof fn law_one_answer_per_statement(
    before: SimpleQuery,
    taken: SimpleQuery,
    after: SimpleQuery,
    answer: Response,
)
    requires
        before.failure is None,
        before.waiting@.len() > 0,
        taken.waiting@ == before.waiting@.skip(1),
        match answered(before.waiting@[0].0) {
            Some(command) => taken.responses@.len() == before.responses@.len() + 1 && after
                == taken,
            None => taken.responses@ == before.responses@ && after.responses@
                == taken.responses@.push(answer) && after.waiting@ == taken.waiting@,
        },
    ensures
        owed(after) == owed(before),
{
}

/// A column with a declared type has the same type whether its query is
/// described or run, whatever rows there are.
pub proof fn law_declared_type_does_not_depend_on_rows(
    columns: Seq<Column>,
    some: Seq<Vec<Value>>,
    others: Seq<Vec<Value>>,
    idx: int,
)
    requires
        0 <= idx < columns.len(),
        columns[idx].decltype is Some,
    ensures
        column_type(columns, some, idx) == column_type(columns, others, idx),
{
}

} // verus!
