//! A backend that forwards statements to a Hrana server.
//!
//! Every statement is a pipeline of its own. What the server replied is
//! handed over as a [`Reply`].
use crate::backend::write_admission::{
    default_acquire_timeout, SessionAdmission, SessionState, Timeout, WriteAdmission,
};
use crate::backend::{BackendError, Column, ExecuteResult, ResultSet, Value};
use crate::hrana::blob::encode_base64;
use crate::hrana::http::copy_text;
use crate::hrana::types::{
    blob_from, integer_from, ErrorResponse, ExecuteRequest, ExecuteResponse, HranaValue,
    PipelineRequest, PipelineResponse, ResponseValue, StmtRequest, StreamRequest, StreamResponse,
    StreamResult,
};
use crate::text::{chars_of, parse_i64, signed_decimal_text, starts_with, string_of};
use vstd::prelude::*;
use vstd::slice::slice_subrange;

verus! {

/// A client of one server. Every clone shares its pool of write permits.
#[derive(Clone, Debug)]
pub struct HranaClient {
    pub pipeline_url: String,
    pub health_url: String,
    /// The pool of write permits; without one, writes are not held back.
    pub admission: Option<WriteAdmission>,
    /// How long a write waits for a permit.
    pub acquire_timeout: Timeout,
}

/// `s` without the slashes at its end.
pub open spec fn without_slashes(s: Seq<char>) -> Seq<char>
    decreases s.len(),
{
    if s.len() > 0 && s.last() == '/' {
        without_slashes(s.drop_last())
    } else {
        s
    }
}

impl HranaClient {
    /// A client of the server at a base URL. Its writes are not held back.
    #[must_use]
    pub fn new(base_url: &str) -> (r: HranaClient)
        ensures
            r.pipeline_url@ == without_slashes(base_url@) + "/v2/pipeline"@,
            r.health_url@ == without_slashes(base_url@) + "/health"@,
            r.admission is None,
            r.acquire_timeout == (Timeout { secs: 30, nanos: 0 }),
    {
        let chars = chars_of(base_url);
        let mut n: usize = chars.len();
        assert(chars@.take(n as int) == chars@);
        while n > 0 && chars[n - 1] == '/'
            invariant
                n <= chars@.len(),
                without_slashes(chars@.take(n as int)) == without_slashes(chars@),
            decreases n,
        {
            assert(chars@.take(n as int).drop_last() == chars@.take(n - 1));
            n = n - 1;
        }
        assert(without_slashes(chars@.take(n as int)) == chars@.take(n as int));
        let base = string_of(slice_subrange(chars.as_slice(), 0, n));
        let mut pipeline_url = base.clone();
        pipeline_url.append("/v2/pipeline");
        let mut health_url = base;
        health_url.append("/health");
        HranaClient {
            pipeline_url,
            health_url,
            admission: None,
            acquire_timeout: default_acquire_timeout(),
        }
    }

    /// Lets at most `permits` writes go on at once. Zero holds none back.
    #[must_use]
    pub fn write_permits(self, permits: usize) -> (r: HranaClient)
        requires
            permits <= usize::MAX / 8,
        ensures
            r.pipeline_url == self.pipeline_url,
            r.health_url == self.health_url,
            r.acquire_timeout == self.acquire_timeout,
            match r.admission {
                None => permits == 0,
                Some(a) => {
                    &&& permits > 0
                    &&& a.permits == permits
                    &&& a.acquire_timeout == self.acquire_timeout
                    &&& crate::backend::write_admission::made_with(*a.sem) == permits
                },
            },
    {
        HranaClient { admission: WriteAdmission::new(permits, self.acquire_timeout), ..self }
    }

    /// Sets how long a write waits for a permit.
    #[must_use]
    pub fn write_acquire_timeout(self, timeout: Timeout) -> (r: HranaClient)
        ensures
            r.pipeline_url == self.pipeline_url,
            r.health_url == self.health_url,
            r.acquire_timeout == timeout,
            r.admission == match self.admission {
                Some(a) => Some(WriteAdmission { acquire_timeout: timeout, ..a }),
                None => None,
            },
    {
        HranaClient {
            pipeline_url: self.pipeline_url,
            health_url: self.health_url,
            admission: match self.admission {
                Some(a) => Some(
                    WriteAdmission { acquire_timeout: timeout, sem: a.sem, permits: a.permits },
                ),
                None => None,
            },
            acquire_timeout: timeout,
        }
    }

    /// A new session's view of the pool of write permits. A permit that the
    /// session holds comes back when a transaction ends, whether or not the
    /// server accepted the end, and when the session is dropped.
    pub fn connect<P>(&self) -> (r: SessionAdmission<P>)
        ensures
            r.admission is Some == self.admission is Some,
            r.admission matches Some(a) ==> {
                &&& self.admission matches Some(own)
                &&& a.sem == own.sem
                &&& a.permits == own.permits
                &&& a.acquire_timeout == own.acquire_timeout
            },
            r.state == (SessionState::<P> { begun: false, savepoints: 0, permit: None }),
    {
        SessionAdmission::new(
            match &self.admission {
                Some(a) => Some(
                    WriteAdmission {
                        sem: a.sem.clone(),
                        acquire_timeout: a.acquire_timeout,
                        permits: a.permits,
                    },
                ),
                None => None,
            },
        )
    }

    /// What the health of the server is, by the reply of its health endpoint.
    pub fn health_check(&self, reply: Health) -> (r: Result<(), BackendError>)
        ensures
            match reply {
                Health::Failed(e) => r matches Err(BackendError::Other(m)) && m@
                    == "health check failed: "@ + e@,
                Health::Status { success, status } => if success {
                    r is Ok
                } else {
                    r matches Err(BackendError::Other(m)) && m@ == "health check returned "@
                        + status@
                },
            },
    {
        match reply {
            Health::Failed(e) => Err(other("health check failed: ", e.as_str())),
            Health::Status { success, status } => if success {
                Ok(())
            } else {
                Err(other("health check returned ", status.as_str()))
            },
        }
    }

    /// The result set of a query, by the server's reply.
    pub fn query(&self, reply: Reply) -> (r: Result<ResultSet, BackendError>)
        ensures
            match r {
                Ok(rs) => result_of(reply) matches Ok(exec) && is_result_set(rs, exec),
                Err(e) => result_of(reply) matches Err(failure) && is_failure(e, failure),
            },
    {
        match execute_pipeline(reply) {
            Ok(exec) => Ok(execute_response_to_result_set(exec)),
            Err(e) => Err(e),
        }
    }

    /// What another statement did, by the server's reply. A row id that is no
    /// integer is none.
    pub fn execute(&self, reply: Reply) -> (r: Result<ExecuteResult, BackendError>)
        ensures
            match r {
                Ok(done) => result_of(reply) matches Ok(exec) && {
                    &&& done.affected_rows == exec.affected_row_count
                    &&& done.last_insert_rowid == match exec.last_insert_rowid {
                        Some(id) => crate::text::i64_value(id@),
                        None => None,
                    }
                },
                Err(e) => result_of(reply) matches Err(failure) && is_failure(e, failure),
            },
    {
        match execute_pipeline(reply) {
            Ok(exec) => Ok(
                ExecuteResult {
                    affected_rows: exec.affected_row_count,
                    last_insert_rowid: match &exec.last_insert_rowid {
                        Some(id) => parse_i64(id.as_str()),
                        None => None,
                    },
                },
            ),
            Err(e) => Err(e),
        }
    }
}

/// What came of asking a server's health.
#[derive(Debug)]
pub enum Health {
    /// There was no reply: why.
    Failed(String),
    /// The status of the reply.
    Status { success: bool, status: String },
}

/// What came of sending a pipeline.
#[derive(Debug)]
pub enum Reply {
    /// There was no reply: why.
    Failed(String),
    /// The reply is not a success: its status and body.
    Status { status: String, body: String },
    /// The reply cannot be read: why.
    Unreadable(String),
    Response(PipelineResponse),
}

/// Why a pipeline gave no result.
pub enum Failure {
    /// Not the database: the message.
    Other(Seq<char>),
    /// The server's own error.
    Error(ErrorResponse),
}

/// The result that a reply holds, or why it holds none. Only the first result
/// counts.
pub open spec fn result_of(reply: Reply) -> Result<ExecuteResponse, Failure> {
    match reply {
        Reply::Failed(e) => Err(Failure::Other("HTTP request failed: "@ + e@)),
        Reply::Status { status, body } => Err(
            Failure::Other("sqld returned "@ + status@ + ": "@ + body@),
        ),
        Reply::Unreadable(e) => Err(Failure::Other("failed to parse response: "@ + e@)),
        Reply::Response(response) => if response.results@.len() == 0 {
            Err(Failure::Other("empty pipeline response"@))
        } else {
            match response.results@[0] {
                StreamResult::Done { response } => match response {
                    StreamResponse::Execute { result } => Ok(result),
                    StreamResponse::Close => Err(Failure::Other("unexpected close response"@)),
                },
                StreamResult::Error { error } => Err(Failure::Error(error)),
            }
        },
    }
}

/// `e` is how a failure is reported.
pub open spec fn is_failure(e: BackendError, failure: Failure) -> bool {
    match failure {
        Failure::Other(m) => e matches BackendError::Other(x) && x@ == m,
        Failure::Error(error) => is_error(e, error),
    }
}

/// `e` is how a server's error is reported: an error with one of SQLite's
/// codes is one of the database.
pub open spec fn is_error(e: BackendError, error: ErrorResponse) -> bool {
    match error.code {
        Some(code) => if crate::text::begins_with(code@, "SQLITE"@) {
            e matches BackendError::Sqlite(m) && m@ == "["@ + code@ + "] "@ + error.message@
        } else {
            e == BackendError::Other(error.message)
        },
        None => e == BackendError::Other(error.message),
    }
}

fn other(prefix: &str, rest: &str) -> (r: BackendError)
    ensures
        r matches BackendError::Other(m) && m@ == prefix@ + rest@,
{
    let mut m: String = prefix.to_owned();
    m.append(rest);
    BackendError::Other(m)
}

/// The pipeline of one statement.
pub fn pipeline_request(sql: &str, params: &[Value]) -> (r: PipelineRequest)
    requires
        forall|i: int|
            0 <= i < params@.len() ==> crate::hrana::types::is_writable((#[trigger] params@[i])@),
    ensures
        r.baton is None,
        r.requests@.len() == 1,
        r.requests@[0] matches StreamRequest::Execute(exec) && {
            &&& exec.stmt.sql@ == sql@
            &&& exec.stmt.args@.len() == params@.len()
            &&& forall|i: int|
                0 <= i < params@.len() ==> (#[trigger] exec.stmt.args@[i])@
                    == crate::hrana::types::wire_of(params@[i]@)
        },
{
    let mut args: Vec<HranaValue> = Vec::new();
    for i in 0..params.len()
        invariant
            forall|j: int|
                0 <= j < params@.len() ==> crate::hrana::types::is_writable(
                    (#[trigger] params@[j])@,
                ),
            args@.len() == i,
            forall|j: int|
                0 <= j < i ==> (#[trigger] args@[j])@ == crate::hrana::types::wire_of(params@[j]@),
    {
        args.push(value_to_hrana(&params[i]));
    }
    let mut requests: Vec<StreamRequest> = Vec::new();
    requests.push(
        StreamRequest::Execute(ExecuteRequest { stmt: StmtRequest { sql: sql.to_owned(), args } }),
    );
    PipelineRequest { baton: None, requests }
}

/// The result of the one statement of a pipeline, by the server's reply.
pub fn execute_pipeline(reply: Reply) -> (r: Result<ExecuteResponse, BackendError>)
    ensures
        match r {
            Ok(exec) => result_of(reply) == Ok::<ExecuteResponse, Failure>(exec),
            Err(e) => result_of(reply) matches Err(failure) && is_failure(e, failure),
        },
{
    let response = match reply {
        Reply::Failed(e) => {
            return Err(other("HTTP request failed: ", e.as_str()));
        },
        Reply::Status { status, body } => {
            let mut m: String = "sqld returned ".to_owned();
            m.append(status.as_str());
            m.append(": ");
            m.append(body.as_str());
            return Err(BackendError::Other(m));
        },
        Reply::Unreadable(e) => {
            return Err(other("failed to parse response: ", e.as_str()));
        },
        Reply::Response(response) => response,
    };
    match crate::session::first_of(response.results) {
        None => Err(BackendError::Other("empty pipeline response".to_owned())),
        Some(StreamResult::Done { response: StreamResponse::Execute { result } }) => Ok(result),
        Some(StreamResult::Done { response: StreamResponse::Close }) => Err(
            BackendError::Other("unexpected close response".to_owned()),
        ),
        Some(StreamResult::Error { error }) => Err(hrana_error_to_backend(error)),
    }
}

/// The argument that means a value.
pub fn value_to_hrana(val: &Value) -> (r: HranaValue)
    requires
        crate::hrana::types::is_writable(val@),
    ensures
        r@ == crate::hrana::types::wire_of(val@),
{
    match val {
        Value::Null => HranaValue::Null,
        Value::Integer(i) => HranaValue::Integer { value: signed_decimal_text(*i) },
        Value::Float(d) => HranaValue::Float { value: d.clone() },
        Value::Text(s) => HranaValue::Text { value: s.clone() },
        Value::Blob(b) => HranaValue::Blob { base64: encode_base64(b.as_slice()) },
    }
}

/// The value that a value of a result means.
pub fn response_value_to_backend(rv: &ResponseValue) -> (r: Value)
    ensures
        crate::hrana::types::means(rv@, r@),
{
    match rv {
        ResponseValue::Null => Value::Null,
        ResponseValue::Integer { value } => Value::Integer(integer_from(value.as_str())),
        ResponseValue::Float { value } => Value::Float(value.clone()),
        ResponseValue::Text { value } => Value::Text(value.clone()),
        ResponseValue::Blob { base64 } => Value::Blob(blob_from(base64.as_str())),
    }
}

/// `row` is what the values of a row mean.
pub open spec fn is_row(row: Seq<Value>, written: Seq<ResponseValue>) -> bool {
    &&& row.len() == written.len()
    &&& forall|i: int|
        0 <= i < row.len() ==> crate::hrana::types::means(written[i]@, (#[trigger] row[i])@)
}

/// `rs` is what a response means.
pub open spec fn is_result_set(rs: ResultSet, exec: ExecuteResponse) -> bool {
    &&& crate::hrana::http::are_cols(exec.cols@, rs.columns@)
    &&& rs.rows@.len() == exec.rows@.len()
    &&& forall|i: int|
        0 <= i < rs.rows@.len() ==> is_row((#[trigger] rs.rows@[i])@, exec.rows@[i]@)
}

fn row_from(written: &Vec<ResponseValue>) -> (r: Vec<Value>)
    ensures
        is_row(r@, written@),
{
    let mut row: Vec<Value> = Vec::new();
    for i in 0..written.len()
        invariant
            row@.len() == i,
            forall|j: int|
                0 <= j < i ==> crate::hrana::types::means(written@[j]@, (#[trigger] row@[j])@),
    {
        row.push(response_value_to_backend(&written[i]));
    }
    row
}

/// The result set that a response means.
pub fn execute_response_to_result_set(exec: ExecuteResponse) -> (r: ResultSet)
    ensures
        is_result_set(r, exec),
{
    let mut columns: Vec<Column> = Vec::new();
    for i in 0..exec.cols.len()
        invariant
            columns@.len() == i,
            forall|j: int|
                0 <= j < i ==> {
                    &&& (#[trigger] exec.cols@[j]).name@ == columns@[j].name@
                    &&& crate::hrana::http::text_view(exec.cols@[j].decltype)
                        == crate::hrana::http::text_view(columns@[j].decltype)
                },
    {
        let c = &exec.cols[i];
        columns.push(Column { name: c.name.clone(), decltype: copy_text(&c.decltype) });
    }
    let mut rows: Vec<Vec<Value>> = Vec::new();
    for i in 0..exec.rows.len()
        invariant
            rows@.len() == i,
            forall|j: int| 0 <= j < i ==> is_row((#[trigger] rows@[j])@, exec.rows@[j]@),
    {
        rows.push(row_from(&exec.rows[i]));
    }
    ResultSet { columns, rows }
}

/// The error of a server's error.
pub fn hrana_error_to_backend(err: ErrorResponse) -> (r: BackendError)
    ensures
        is_error(r, err),
{
    match err.code {
        Some(code) => {
            let chars = chars_of(code.as_str());
            if starts_with(chars.as_slice(), "SQLITE") {
                let mut m: String = "[".to_owned();
                m.append(code.as_str());
                m.append("] ");
                m.append(err.message.as_str());
                BackendError::Sqlite(m)
            } else {
                BackendError::Other(err.message)
            }
        },
        None => BackendError::Other(err.message),
    }
}

/// A result set that is written in a message and read from it is the same:
/// column by column and value by value.
pub proof fn law_result_set_reads_back(rs: ResultSet, exec: ExecuteResponse, back: ResultSet)
    requires
        crate::hrana::http::are_cols(exec.cols@, rs.columns@),
        crate::hrana::http::are_rows(exec.rows@, rs.rows@),
        is_result_set(back, exec),
    ensures
        back.columns@.len() == rs.columns@.len(),
        forall|i: int|
            0 <= i < rs.columns@.len() ==> (#[trigger] back.columns@[i])@ == rs.columns@[i]@,
        back.rows@.len() == rs.rows@.len(),
        forall|i: int|
            0 <= i < rs.rows@.len() ==> (#[trigger] back.rows@[i])@.len() == rs.rows@[i]@.len(),
        forall|i: int, j: int|
            0 <= i < rs.rows@.len() && 0 <= j < rs.rows@[i]@.len() ==> (
            #[trigger] back.rows@[i]@[j])@ == rs.rows@[i]@[j]@,
{
    assert forall|i: int| 0 <= i < rs.columns@.len() implies (#[trigger] back.columns@[i])@
        == rs.columns@[i]@ by {
        assert(exec.cols@[i].name@ == rs.columns@[i].name@);
    }
    assert forall|i: int| 0 <= i < rs.rows@.len() implies (#[trigger] back.rows@[i])@.len()
        == rs.rows@[i]@.len() by {
        assert(is_row(back.rows@[i]@, exec.rows@[i]@));
        assert(crate::hrana::http::is_row(exec.rows@[i]@, rs.rows@[i]@));
    }
    assert forall|i: int, j: int|
        0 <= i < rs.rows@.len() && 0 <= j < rs.rows@[i]@.len() implies (
    #[trigger] back.rows@[i]@[j])@ == rs.rows@[i]@[j]@ by {
        assert(is_row(back.rows@[i]@, exec.rows@[i]@));
        assert(crate::hrana::http::is_row(exec.rows@[i]@, rs.rows@[i]@));
        assert(exec.rows@[i]@[j]@ == crate::hrana::types::wire_of(rs.rows@[i]@[j]@));
        crate::hrana::types::law_value_reads_back(rs.rows@[i]@[j]@, back.rows@[i]@[j]@);
    }
}

} // verus!
