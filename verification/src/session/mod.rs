//! The SQL session of one client, whatever the protocol.
//!
//! A session tracks the explicit transaction and MySQL's `FOUND_ROWS()`, and
//! reports a backend's failures as MySQL errors. What a statement asks for
//! comes from the translator and what it results in comes from the backend:
//! [`Session::start`] says what is to be run, and the `finish` functions take
//! what came of it.
pub mod error_map;
pub mod laws;

use crate::backend::{BackendError, Column, ExecuteResult, ResultSet, Value};
use crate::statement::{transaction_verb, StatementKind, TransactionVerb, Translated};
use std::collections::VecDeque;
use vstd::prelude::*;

verus! {

/// The code of a statement that cannot be translated, SQLSTATE 42000.
pub const ER_PARSE_ERROR: u16 = 1064;

/// A SQL dialect that clients speak.
#[derive(Clone, Copy, Debug, PartialEq, Eq, Structural)]
pub enum Dialect {
    MySQL,
    PostgreSQL,
    TDS,
}

/// Why a statement cannot be translated.
#[derive(Clone, Debug, PartialEq, Eq)]
pub enum TranslateError {
    /// The translator's own message.
    Failed(String),
    /// The statement is not supported.
    Unsupported(String),
}

/// Why a statement failed.
#[derive(Clone, Debug, PartialEq, Eq)]
pub enum SessionError {
    /// It could not be translated.
    Translate(TranslateError),
    /// The backend rejected it.
    Db { code: u16, sqlstate: [u8; 5], message: String },
}

/// `42000`.
pub open spec fn parse_state() -> Seq<u8> {
    seq![52u8, 50u8, 48u8, 48u8, 48u8]
}

impl SessionError {
    /// The MySQL error code.
    pub fn code(&self) -> (r: u16)
        ensures
            r == match *self {
                SessionError::Translate(_) => ER_PARSE_ERROR,
                SessionError::Db { code, .. } => code,
            },
    {
        match self {
            SessionError::Translate(_) => ER_PARSE_ERROR,
            SessionError::Db { code, .. } => *code,
        }
    }

    /// The SQLSTATE.
    pub fn sqlstate(&self) -> (r: [u8; 5])
        ensures
            match *self {
                SessionError::Translate(_) => r@ == parse_state(),
                SessionError::Db { sqlstate, .. } => r == sqlstate,
            },
    {
        match self {
            SessionError::Translate(_) => {
                let state: [u8; 5] = [52, 50, 48, 48, 48];
                assert(state@ =~= parse_state());
                state
            },
            SessionError::Db { sqlstate, .. } => *sqlstate,
        }
    }
}

/// A statement that succeeded without rows.
#[derive(Clone, Copy, Debug, PartialEq, Eq, Structural)]
pub struct SessionOk {
    /// Rows changed by the statement.
    pub affected_rows: u64,
    /// The last inserted row's id; zero where there is none.
    pub last_insert_id: u64,
    /// The session is in an explicit transaction after the statement.
    pub in_transaction: bool,
    /// The statement never reached the backend.
    pub noop: bool,
}

/// What a statement that succeeded results in.
#[derive(Clone, Debug)]
pub enum SessionResult {
    Rows(ResultSet),
    Done(SessionOk),
}

/// One statement as the translator hands it over.
#[derive(Debug)]
pub enum Statement {
    /// A statement, and the kind of its SQL.
    Translated(Translated, StatementKind),
    /// A `SELECT SQL_CALC_FOUND_ROWS`: the query, and the query of its number
    /// of rows without the limit. There is none where the limit is a
    /// parameter.
    CalcFoundRows { sql: String, count: Option<String> },
    /// `SELECT FOUND_ROWS()`, with the name of its column.
    FoundRows { column: String },
}

/// What is to be run for a statement.
#[derive(Debug)]
pub enum Work {
    /// Nothing: this is the result.
    Answer(SessionResult),
    /// A query, with the statement's parameters or without any; `count` is
    /// run after it, with the same parameters, for the number of rows found.
    Query { sql: String, bind: bool, count: Option<String> },
    /// A transaction command, without parameters.
    Transaction(String),
    /// Another statement, with the statement's parameters.
    Execute(String),
}

/// A prepared statement.
#[derive(Clone, Debug)]
pub struct Prepared {
    pub sqlite_sql: String,
    pub kind: StatementKind,
    pub special: Special,
}

/// What is special about a prepared statement.
#[derive(Clone, Debug)]
pub enum Special {
    Nothing,
    /// It counts the rows found; see [`Statement::CalcFoundRows`].
    CalcFoundRows(Option<String>),
    /// It is `SELECT FOUND_ROWS()`, with the name of its column.
    FoundRows(String),
}

/// A session over the connection `conn`.
#[derive(Debug)]
pub struct Session<C> {
    /// The connection. SQL that is sent through it directly is neither
    /// translated nor tracked.
    pub conn: C,
    /// The session is in an explicit transaction.
    pub in_transaction: bool,
    /// What `FOUND_ROWS()` gives.
    pub found: u64,
    pub dialect: Dialect,
}

/// The result of a statement that needs no backend.
pub open spec fn noop_ok(in_transaction: bool) -> SessionResult {
    SessionResult::Done(SessionOk { affected_rows: 0, last_insert_id: 0, in_transaction, noop: true })
}

/// The transaction flag after a successful transaction command.
pub open spec fn in_transaction_after(sql: Seq<char>, before: bool) -> bool {
    match crate::statement::verb_of(sql) {
        TransactionVerb::Begin => true,
        TransactionVerb::Commit => false,
        TransactionVerb::Rollback => false,
        TransactionVerb::Other => before,
    }
}

/// `e` is how a backend's failure is reported.
pub open spec fn reports(e: SessionError, failure: BackendError) -> bool {
    let text = crate::backend::error_text(failure);
    e matches SessionError::Db { code, sqlstate, message } && {
        &&& code == crate::session::error_map::code_of(text)
        &&& sqlstate@ == crate::session::error_map::state_of(code)
        &&& message@ == crate::session::error_map::message_of(text)
    }
}

/// A row id as MySQL reports it.
pub open spec fn insert_id(rowid: Option<i64>) -> u64 {
    match rowid {
        Some(v) => if v < 0 {
            0
        } else {
            v as u64
        },
        None => 0,
    }
}

/// A number of rows as a value holds it.
pub open spec fn found_value(found: u64) -> i64 {
    if found > i64::MAX {
        i64::MAX
    } else {
        found as i64
    }
}

/// The number of rows found by a query that returned `rows` rows: what was
/// counted, where anything was.
pub open spec fn found_after(rows: nat, counted: Option<u64>) -> u64 {
    match counted {
        Some(n) => n,
        None => rows as u64,
    }
}

/// `r` is the one row of `SELECT FOUND_ROWS()`.
pub open spec fn is_found_rows(r: SessionResult, column: Seq<char>, found: u64) -> bool {
    r matches SessionResult::Rows(rs) && {
        &&& rs.columns@.len() == 1
        &&& rs.columns@[0].name@ == column
        &&& rs.columns@[0].decltype is None
        &&& rs.rows@.len() == 1
        &&& rs.rows@[0]@.len() == 1
        &&& rs.rows@[0]@[0]@ == crate::backend::Datum::Integer(found_value(found))
    }
}

/// `w` is what is run for one SQL statement of a known kind.
pub open spec fn runs(w: Work, sql: Seq<char>, kind: StatementKind, bind: bool) -> bool {
    match kind {
        StatementKind::Query => w matches Work::Query { sql: s, bind: b, count } && s@ == sql && b
            == bind && count is None,
        StatementKind::Transaction => w matches Work::Transaction(s) && s@ == sql,
        _ => w matches Work::Execute(s) && s@ == sql,
    }
}

/// The error of a backend's failure.
pub fn map_backend_err(e: &BackendError) -> (r: SessionError)
    ensures
        reports(r, *e),
{
    let text = e.to_text();
    let mapped = crate::session::error_map::classify(text.as_str());
    SessionError::Db { code: mapped.code, sqlstate: mapped.sqlstate, message: mapped.message }
}

/// The number that a count query gives, where it gives one.
pub open spec fn count_of(outcome: Result<ResultSet, BackendError>) -> Option<u64> {
    match outcome {
        Ok(rs) => if rs.rows@.len() > 0 && rs.rows@[0]@.len() > 0 {
            match rs.rows@[0]@[0]@ {
                crate::backend::Datum::Integer(i) => if i < 0 {
                    None
                } else {
                    Some(i as u64)
                },
                _ => None,
            }
        } else {
            None
        },
        Err(_) => None,
    }
}

/// The number that a count query gives.
pub fn count_value(outcome: &Result<ResultSet, BackendError>) -> (r: Option<u64>)
    ensures
        r == count_of(*outcome),
{
    match outcome {
        Ok(rs) => {
            if rs.rows.len() > 0 && rs.rows[0].len() > 0 {
                match &rs.rows[0][0] {
                    Value::Integer(i) => if *i < 0 {
                        None
                    } else {
                        Some(*i as u64)
                    },
                    _ => None,
                }
            } else {
                None
            }
        },
        Err(_) => None,
    }
}

/// `r` is the SQL and the kind of the first of the translated statements.
pub open spec fn is_first_translated(
    r: (String, StatementKind),
    translated: Seq<(Translated, StatementKind)>,
) -> bool {
    if translated.len() == 0 {
        r.0@.len() == 0 && r.1 == StatementKind::Other
    } else {
        match translated[0].0 {
            Translated::Noop => r.0@.len() == 0 && r.1 == StatementKind::Other,
            Translated::Metadata(sql) => r.0@ == sql@ && r.1 == StatementKind::Query,
            Translated::Sql(sql) => r.0@ == sql@ && r.1 == translated[0].1,
        }
    }
}

/// `p` is the prepared form of the first of the translated statements.
pub open spec fn is_prepared(p: Prepared, statements: Seq<Statement>) -> bool {
    if statements.len() == 0 {
        p.sqlite_sql@.len() == 0 && p.kind == StatementKind::Other && p.special is Nothing
    } else {
        match statements[0] {
            Statement::Translated(Translated::Noop, _) => p.sqlite_sql@.len() == 0 && p.kind
                == StatementKind::Other && p.special is Nothing,
            Statement::Translated(Translated::Metadata(sql), _) => p.sqlite_sql@ == sql@ && p.kind
                == StatementKind::Query && p.special is Nothing,
            Statement::Translated(Translated::Sql(sql), kind) => p.sqlite_sql@ == sql@ && p.kind
                == kind && p.special is Nothing,
            Statement::CalcFoundRows { sql, count } => p.sqlite_sql@ == sql@ && p.kind
                == StatementKind::Query && p.special == Special::CalcFoundRows(count),
            Statement::FoundRows { column } => p.sqlite_sql@.len() == 0 && p.kind
                == StatementKind::Query && p.special == Special::FoundRows(column),
        }
    }
}

pub(crate) fn first_of<T>(v: Vec<T>) -> (r: Option<T>)
    ensures
        match r {
            Some(t) => v@.len() > 0 && t == v@[0],
            None => v@.len() == 0,
        },
{
    let mut v = v;
    if v.len() == 0 {
        None
    } else {
        Some(v.swap_remove(0))
    }
}

impl<C> Session<C> {
    pub fn new(conn: C, dialect: Dialect) -> (r: Session<C>)
        ensures
            r == (Session { conn, in_transaction: false, found: 0, dialect }),
    {
        Session { conn, in_transaction: false, found: 0, dialect }
    }

    /// The dialect that the session translates from.
    pub fn dialect(&self) -> (r: Dialect)
        ensures
            r == self.dialect,
    {
        self.dialect
    }

    /// What `FOUND_ROWS()` gives.
    pub fn found_rows(&self) -> (r: u64)
        ensures
            r == self.found,
    {
        self.found
    }

    /// The first translated statement as SQL and kind; empty SQL where
    /// nothing is to be run.
    pub fn translate_sql(
        translated: Result<Vec<(Translated, StatementKind)>, TranslateError>,
    ) -> (r: Result<(String, StatementKind), SessionError>)
        ensures
            match translated {
                Ok(t) => r matches Ok(first) && is_first_translated(first, t@),
                Err(e) => r == Err::<(String, StatementKind), SessionError>(
                    SessionError::Translate(e),
                ),
            },
    {
        match translated {
            Ok(t) => match first_of(t) {
                None => Ok((String::new(), StatementKind::Other)),
                Some((Translated::Noop, _)) => Ok((String::new(), StatementKind::Other)),
                Some((Translated::Metadata(sql), _)) => Ok((sql, StatementKind::Query)),
                Some((Translated::Sql(sql), kind)) => Ok((sql, kind)),
            },
            Err(e) => Err(SessionError::Translate(e)),
        }
    }

    /// The prepared form of the first translated statement.
    pub fn prepare(translated: Result<Vec<Statement>, TranslateError>) -> (r: Result<
        Prepared,
        SessionError,
    >)
        ensures
            match translated {
                Ok(t) => r matches Ok(p) && is_prepared(p, t@),
                Err(e) => r == Err::<Prepared, SessionError>(SessionError::Translate(e)),
            },
    {
        match translated {
            Ok(t) => Ok(
                match first_of(t) {
                    None => Prepared {
                        sqlite_sql: String::new(),
                        kind: StatementKind::Other,
                        special: Special::Nothing,
                    },
                    Some(Statement::Translated(Translated::Noop, _)) => Prepared {
                        sqlite_sql: String::new(),
                        kind: StatementKind::Other,
                        special: Special::Nothing,
                    },
                    Some(Statement::Translated(Translated::Metadata(sql), _)) => Prepared {
                        sqlite_sql: sql,
                        kind: StatementKind::Query,
                        special: Special::Nothing,
                    },
                    Some(Statement::Translated(Translated::Sql(sql), kind)) => Prepared {
                        sqlite_sql: sql,
                        kind,
                        special: Special::Nothing,
                    },
                    Some(Statement::CalcFoundRows { sql, count }) => Prepared {
                        sqlite_sql: sql,
                        kind: StatementKind::Query,
                        special: Special::CalcFoundRows(count),
                    },
                    Some(Statement::FoundRows { column }) => Prepared {
                        sqlite_sql: String::new(),
                        kind: StatementKind::Query,
                        special: Special::FoundRows(column),
                    },
                },
            ),
            Err(e) => Err(SessionError::Translate(e)),
        }
    }

    /// A result that reports the transaction flag as it is.
    fn ok(&self, affected_rows: u64, last_insert_id: u64, noop: bool) -> (r: SessionOk)
        ensures
            r == (SessionOk {
                affected_rows,
                last_insert_id,
                in_transaction: self.in_transaction,
                noop,
            }),
    {
        SessionOk { affected_rows, last_insert_id, in_transaction: self.in_transaction, noop }
    }

    /// The answer to `SELECT FOUND_ROWS()`, which is itself a query of one
    /// row.
    fn answer_found_rows(&mut self, column: &str) -> (r: SessionResult)
        ensures
            is_found_rows(r, column@, old(self).found),
            *final(self) == (Session { found: 1, ..*old(self) }),
    {
        let value: i64 = if self.found > 0x7FFF_FFFF_FFFF_FFFF {
            i64::MAX
        } else {
            self.found as i64
        };
        let mut columns: Vec<Column> = Vec::new();
        columns.push(Column { name: column.to_owned(), decltype: None });
        let mut row: Vec<Value> = Vec::new();
        row.push(Value::Integer(value));
        let mut rows: Vec<Vec<Value>> = Vec::new();
        rows.push(row);
        self.found = 1;
        SessionResult::Rows(ResultSet { columns, rows })
    }

    /// What is run for one SQL statement of a known kind.
    pub fn run_translated(&self, sql: String, kind: StatementKind) -> (r: Work)
        ensures
            runs(r, sql@, kind, true),
    {
        match kind {
            StatementKind::Query => Work::Query { sql, bind: true, count: None },
            StatementKind::Transaction => Work::Transaction(sql),
            _ => Work::Execute(sql),
        }
    }

    /// What is run for one statement.
    pub fn start(&mut self, statement: Statement) -> (r: Work)
        ensures
            match statement {
                Statement::Translated(Translated::Noop, _) => {
                    &&& r == Work::Answer(noop_ok(old(self).in_transaction))
                    &&& *final(self) == *old(self)
                },
                Statement::Translated(Translated::Metadata(sql), _) => {
                    &&& runs(r, sql@, StatementKind::Query, false)
                    &&& *final(self) == *old(self)
                },
                Statement::Translated(Translated::Sql(sql), kind) => {
                    &&& runs(r, sql@, kind, true)
                    &&& *final(self) == *old(self)
                },
                Statement::CalcFoundRows { sql, count } => {
                    &&& r == (Work::Query { sql, bind: true, count })
                    &&& *final(self) == *old(self)
                },
                Statement::FoundRows { column } => {
                    &&& r matches Work::Answer(a) && is_found_rows(a, column@, old(self).found)
                    &&& *final(self) == (Session { found: 1, ..*old(self) })
                },
            },
    {
        match statement {
            Statement::Translated(Translated::Noop, _) => Work::Answer(
                SessionResult::Done(self.ok(0, 0, true)),
            ),
            Statement::Translated(Translated::Metadata(sql), _) => Work::Query {
                sql,
                bind: false,
                count: None,
            },
            Statement::Translated(Translated::Sql(sql), kind) => self.run_translated(sql, kind),
            Statement::CalcFoundRows { sql, count } => Work::Query { sql, bind: true, count },
            Statement::FoundRows { column } => Work::Answer(
                self.answer_found_rows(column.as_str()),
            ),
        }
    }

    /// What is run for a prepared statement.
    pub fn execute_prepared(&mut self, prepared: &Prepared) -> (r: Work)
        ensures
            match prepared.special {
                Special::FoundRows(column) => {
                    &&& r matches Work::Answer(a) && is_found_rows(a, column@, old(self).found)
                    &&& *final(self) == (Session { found: 1, ..*old(self) })
                },
                Special::CalcFoundRows(count) => {
                    &&& *final(self) == *old(self)
                    &&& r matches Work::Query { sql, bind, count: c } && {
                        &&& sql@ == prepared.sqlite_sql@
                        &&& bind
                        &&& match (c, count) {
                            (Some(a), Some(b)) => a@ == b@,
                            (None, None) => true,
                            _ => false,
                        }
                    }
                },
                Special::Nothing => {
                    &&& *final(self) == *old(self)
                    &&& if prepared.sqlite_sql@.len() == 0 {
                        r == Work::Answer(noop_ok(old(self).in_transaction))
                    } else {
                        runs(r, prepared.sqlite_sql@, prepared.kind, true)
                    }
                },
            },
    {
        match &prepared.special {
            Special::FoundRows(column) => Work::Answer(self.answer_found_rows(column.as_str())),
            Special::CalcFoundRows(count) => Work::Query {
                sql: prepared.sqlite_sql.clone(),
                bind: true,
                count: match count {
                    Some(c) => Some(c.clone()),
                    None => None,
                },
            },
            Special::Nothing => {
                if prepared.sqlite_sql.as_str().is_empty() {
                    Work::Answer(SessionResult::Done(self.ok(0, 0, true)))
                } else {
                    self.run_translated(prepared.sqlite_sql.clone(), prepared.kind)
                }
            },
        }
    }

    /// Takes what came of a query, and the number of rows found where that
    /// was counted. `FOUND_ROWS()` then gives that number, else the number
    /// of rows returned.
    pub fn finish_query(
        &mut self,
        outcome: Result<ResultSet, BackendError>,
        counted: Option<u64>,
    ) -> (r: Result<SessionResult, SessionError>)
        ensures
            match outcome {
                Ok(rs) => {
                    &&& r == Ok::<SessionResult, SessionError>(SessionResult::Rows(rs))
                    &&& *final(self) == (Session {
                        found: found_after(rs.rows@.len(), counted),
                        ..*old(self)
                    })
                },
                Err(failure) => {
                    &&& r matches Err(e) && reports(e, failure)
                    &&& *final(self) == *old(self)
                },
            },
    {
        match outcome {
            Ok(rs) => {
                self.found = match counted {
                    Some(n) => n,
                    None => rs.rows.len() as u64,
                };
                Ok(SessionResult::Rows(rs))
            },
            Err(e) => Err(map_backend_err(&e)),
        }
    }

    /// Takes what came of a transaction command. The flag changes only where
    /// the backend accepted the command.
    pub fn finish_transaction(
        &mut self,
        sql: &str,
        outcome: Result<ExecuteResult, BackendError>,
    ) -> (r: Result<SessionResult, SessionError>)
        ensures
            match outcome {
                Ok(_) => {
                    let after = in_transaction_after(sql@, old(self).in_transaction);
                    &&& *final(self) == (Session { in_transaction: after, ..*old(self) })
                    &&& r == Ok::<SessionResult, SessionError>(
                        SessionResult::Done(
                            (SessionOk {
                                affected_rows: 0,
                                last_insert_id: 0,
                                in_transaction: after,
                                noop: false,
                            }),
                        ),
                    )
                },
                Err(failure) => {
                    &&& r matches Err(e) && reports(e, failure)
                    &&& *final(self) == *old(self)
                },
            },
    {
        match outcome {
            Ok(_) => {
                match transaction_verb(sql) {
                    TransactionVerb::Begin => {
                        self.in_transaction = true;
                    },
                    TransactionVerb::Commit => {
                        self.in_transaction = false;
                    },
                    TransactionVerb::Rollback => {
                        self.in_transaction = false;
                    },
                    TransactionVerb::Other => {},
                }
                Ok(SessionResult::Done(self.ok(0, 0, false)))
            },
            Err(e) => Err(map_backend_err(&e)),
        }
    }

    /// Takes what came of another statement.
    pub fn finish_execute(&self, outcome: Result<ExecuteResult, BackendError>) -> (r: Result<
        SessionResult,
        SessionError,
    >)
        ensures
            match outcome {
                Ok(result) => r == Ok::<SessionResult, SessionError>(
                    SessionResult::Done(
                        (SessionOk {
                            affected_rows: result.affected_rows,
                            last_insert_id: insert_id(result.last_insert_rowid),
                            in_transaction: self.in_transaction,
                            noop: false,
                        }),
                    ),
                ),
                Err(failure) => r matches Err(e) && reports(e, failure),
            },
    {
        match outcome {
            Ok(result) => {
                let last_id: u64 = match result.last_insert_rowid {
                    Some(v) => if v < 0 {
                        0
                    } else {
                        v as u64
                    },
                    None => 0,
                };
                Ok(SessionResult::Done(self.ok(result.affected_rows, last_id, false)))
            },
            Err(e) => Err(map_backend_err(&e)),
        }
    }

    /// Begins to run the statements that one SQL text became. Parameters
    /// cannot be spread over several statements.
    pub fn query(
        &self,
        translated: Result<Vec<Statement>, TranslateError>,
        params: usize,
    ) -> (r: Result<Batch, SessionError>)
        ensures
            match translated {
                Ok(t) => if t@.len() > 1 && params > 0 {
                    r matches Err(SessionError::Translate(TranslateError::Unsupported(m))) && m@
                        == unsplittable_text()
                } else {
                    r matches Ok(b) && {
                        &&& b.waiting@ == t@
                        &&& b.last == Ok::<SessionResult, SessionError>(
                            noop_ok(self.in_transaction),
                        )
                    }
                },
                Err(e) => r == Err::<Batch, SessionError>(SessionError::Translate(e)),
            },
    {
        match translated {
            Ok(t) => {
                if t.len() > 1 && params > 0 {
                    let mut m: String =
                        "parameters cannot be bound to a statement that expands to multiple ".to_owned();
                    m.append("SQLite statements");
                    return Err(SessionError::Translate(TranslateError::Unsupported(m)));
                }
                Ok(Batch { waiting: queue_of(t), last: Ok(SessionResult::Done(self.ok(0, 0, true))) })
            },
            Err(e) => Err(SessionError::Translate(e)),
        }
    }
}

pub open spec fn unsplittable_text() -> Seq<char> {
    "parameters cannot be bound to a statement that expands to multiple "@ + "SQLite statements"@
}

pub(crate) fn queue_of<T>(v: Vec<T>) -> (r: VecDeque<T>)
    ensures
        r@ == v@,
{
    let mut reversed = v;
    let mut r: VecDeque<T> = VecDeque::new();
    while reversed.len() > 0
        invariant
            reversed@ + r@ == v@,
        decreases reversed.len(),
    {
        match reversed.pop() {
            Some(t) => {
                r.push_front(t);
            },
            None => {},
        }
        assert(reversed@ + r@ =~= v@);
    }
    assert(reversed@ + r@ =~= r@);
    r
}

/// The statements of one SQL text on their way through a session. They are
/// run in turn; the first that fails ends the run, and the last one's result
/// is that of the whole.
#[derive(Debug)]
pub struct Batch {
    pub waiting: VecDeque<Statement>,
    pub last: Result<SessionResult, SessionError>,
}

impl Batch {
    /// The next statement to run.
    pub fn next(&mut self) -> (r: Option<Statement>)
        ensures
            final(self).last == old(self).last,
            match r {
                Some(s) => {
                    &&& old(self).last is Ok
                    &&& old(self).waiting@.len() > 0
                    &&& s == old(self).waiting@[0]
                    &&& final(self).waiting@ == old(self).waiting@.skip(1)
                },
                None => {
                    &&& old(self).last is Err || old(self).waiting@.len() == 0
                    &&& final(self).waiting@ == old(self).waiting@
                },
            },
    {
        if self.last.is_err() {
            return None;
        }
        let r = self.waiting.pop_front();
        proof {
            if old(self).waiting@.len() > 0 {
                assert(self.waiting@ =~= old(self).waiting@.skip(1));
            }
        }
        r
    }

    /// Takes what came of the statement at hand.
    pub fn record(&mut self, result: Result<SessionResult, SessionError>)
        ensures
            final(self).last == result,
            final(self).waiting@ == old(self).waiting@,
    {
        self.last = result;
    }

    /// What the whole came to.
    pub fn finish(self) -> (r: Result<SessionResult, SessionError>)
        ensures
            r == self.last,
    {
        self.last
    }
}

/// What a run of statements comes to when the statement at `i` results in
/// `results[i]`: the first error, else the last result, else `first`.
pub open spec fn run_outcome(
    results: Seq<Result<SessionResult, SessionError>>,
    first: Result<SessionResult, SessionError>,
) -> Result<SessionResult, SessionError>
    decreases results.len(),
{
    if first is Err || results.len() == 0 {
        first
    } else {
        run_outcome(results.skip(1), results[0])
    }
}

/// `after` is `before` once [`Batch::next`] gave a statement and
/// [`Batch::record`] took its result.
pub open spec fn advanced(
    before: Batch,
    result: Result<SessionResult, SessionError>,
    after: Batch,
) -> bool {
    &&& before.last is Ok
    &&& before.waiting@.len() > 0
    &&& after.waiting@ == before.waiting@.skip(1)
    &&& after.last == result
}

/// [`Batch::next`] gives nothing more.
pub open spec fn exhausted(batch: Batch) -> bool {
    batch.last is Err || batch.waiting@.len() == 0
}

/// A batch runs its statements in turn, and what it holds when
/// [`Batch::next`] gives no more, which is what [`Batch::finish`] gives, is
/// what the run comes to. `results` is what each of its statements results in
/// where it is run, and `batches` is the batch before each of them and at the
/// end.
pub proof fn law_batch_runs_in_turn(
    batches: Seq<Batch>,
    results: Seq<Result<SessionResult, SessionError>>,
)
    requires
        batches.len() > 0,
        results.len() == batches[0].waiting@.len(),
        batches.len() <= results.len() + 1,
        forall|i: int|
            0 <= i < batches.len() - 1 ==> advanced(
                #[trigger] batches[i],
                results[i],
                batches[i + 1],
            ),
        exhausted(batches.last()),
    ensures
        batches.last().last == run_outcome(results, batches[0].last),
        forall|i: int|
            0 <= i < batches.len() ==> (#[trigger] batches[i]).waiting@
                == batches[0].waiting@.skip(i),
    decreases batches.len(),
{
    let first = batches[0];
    if batches.len() == 1 {
        assert(first.waiting@.skip(0) =~= first.waiting@);
    } else {
        let rest = batches.skip(1);
        let after = results.skip(1);
        assert(advanced(batches[0], results[0], batches[1]));
        assert(rest[0] == batches[1]);
        assert(rest.last() == batches.last());
        assert forall|i: int| 0 <= i < rest.len() - 1 implies advanced(
            #[trigger] rest[i],
            after[i],
            rest[i + 1],
        ) by {
            assert(advanced(batches[i + 1], results[i + 1], batches[i + 2]));
        }
        law_batch_runs_in_turn(rest, after);
        assert forall|i: int| 0 <= i < batches.len() implies (#[trigger] batches[i]).waiting@
            == first.waiting@.skip(i) by {
            if i == 0 {
                assert(first.waiting@.skip(0) =~= first.waiting@);
            } else {
                assert(rest[i - 1] == batches[i]);
                assert(first.waiting@.skip(1).skip(i - 1) =~= first.waiting@.skip(i));
            }
        }
    }
}

/// The first error ends a run: what the statements after it would have
/// resulted in does not matter.
pub proof fn law_first_error_ends_the_run(
    results: Seq<Result<SessionResult, SessionError>>,
    first: Result<SessionResult, SessionError>,
    at: int,
)
    requires
        0 <= at < results.len(),
        first is Ok,
        results[at] is Err,
        forall|j: int| 0 <= j < at ==> #[trigger] results[j] is Ok,
    ensures
        run_outcome(results, first) == results[at],
    decreases results.len(),
{
    let rest = results.skip(1);
    if at == 0 {
        assert(run_outcome(rest, results[0]) == results[0]);
    } else {
        assert(rest[at - 1] == results[at]);
        assert forall|j: int| 0 <= j < at - 1 implies #[trigger] rest[j] is Ok by {
            assert(rest[j] == results[j + 1]);
        }
        law_first_error_ends_the_run(rest, results[0], at - 1);
    }
}

/// Without an error, the last statement's result is that of the run.
pub proof fn law_last_result_wins(
    results: Seq<Result<SessionResult, SessionError>>,
    first: Result<SessionResult, SessionError>,
)
    requires
        first is Ok,
        results.len() > 0,
        forall|j: int| 0 <= j < results.len() ==> #[trigger] results[j] is Ok,
    ensures
        run_outcome(results, first) == results.last(),
    decreases results.len(),
{
    let rest = results.skip(1);
    if results.len() == 1 {
        assert(run_outcome(rest, results[0]) == results[0]);
    } else {
        assert forall|j: int| 0 <= j < rest.len() implies #[trigger] rest[j] is Ok by {
            assert(rest[j] == results[j + 1]);
        }
        law_last_result_wins(rest, results[0]);
        assert(rest.last() == results.last());
    }
}

/// `SELECT FOUND_ROWS()` after a query tells how many rows were counted, or
/// without a count how many the query returned; asked once more it tells of
/// its own one row.
pub proof fn law_found_rows_tells_of_the_query(
    rows: nat,
    counted: Option<u64>,
    column: Seq<char>,
    first: SessionResult,
    second: SessionResult,
)
    requires
        rows <= i64::MAX,
        counted matches Some(n) ==> n <= i64::MAX,
        is_found_rows(first, column, found_after(rows, counted)),
        is_found_rows(second, column, 1),
    ensures
        first->Rows_0.rows@[0]@[0]@ == crate::backend::Datum::Integer(
            match counted {
                Some(n) => n as i64,
                None => rows as i64,
            },
        ),
        second->Rows_0.rows@[0]@[0]@ == crate::backend::Datum::Integer(1),
{
}

/// A `BEGIN` that succeeded leaves the session in a transaction and a
/// `COMMIT` or `ROLLBACK` that succeeded leaves it in none, whatever it was
/// in before.
pub proof fn law_transaction_flag(begin: Seq<char>, end: Seq<char>, before: bool)
    requires
        crate::statement::verb_of(begin) == TransactionVerb::Begin,
        crate::statement::verb_of(end) == TransactionVerb::Commit || crate::statement::verb_of(
            end,
        ) == TransactionVerb::Rollback,
    ensures
        in_transaction_after(begin, before),
        !in_transaction_after(end, before),
{
}

} // verus!
