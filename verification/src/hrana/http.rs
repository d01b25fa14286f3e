//! The pipeline: a list of requests that are answered in turn, one result
//! for each.
use crate::backend::{BackendError, Column, ExecuteResult, ResultSet, Value};
use crate::hrana::types::{
    ColResponse, ErrorResponse, ExecuteResponse, HranaValue, PipelineRequest, PipelineResponse,
    ResponseValue, StmtRequest, StreamRequest, StreamResponse, StreamResult,
};
use crate::session::queue_of;
use crate::text::{signed_decimal_text, starts_with, trimmed_upper};
use std::collections::VecDeque;
use vstd::prelude::*;

verus! {

/// A statement is a query, by its first letters.
pub open spec fn is_query(sql: Seq<char>) -> bool {
    let u = crate::text::upper(crate::text::trim(sql));
    ||| crate::text::begins_with(u, "SELECT"@)
    ||| crate::text::begins_with(u, "PRAGMA"@)
    ||| crate::text::begins_with(u, "EXPLAIN"@)
}

/// What is asked of the backend for a statement.
#[derive(Debug)]
pub enum Call {
    /// Its rows.
    Query { sql: String, params: Vec<Value> },
    /// Its effect.
    Execute { sql: String, params: Vec<Value> },
}

/// `params` are what arguments mean.
pub open spec fn are_meant(args: Seq<HranaValue>, params: Seq<Value>) -> bool {
    &&& params.len() == args.len()
    &&& forall|i: int|
        0 <= i < args.len() ==> crate::hrana::types::means(args[i]@, (#[trigger] params[i])@)
}

/// `c` is what is asked for a statement.
pub open spec fn asks(c: Call, stmt: StmtRequest) -> bool {
    if is_query(stmt.sql@) {
        c matches Call::Query { sql, params } && sql@ == stmt.sql@ && are_meant(
            stmt.args@,
            params@,
        )
    } else {
        c matches Call::Execute { sql, params } && sql@ == stmt.sql@ && are_meant(
            stmt.args@,
            params@,
        )
    }
}

/// What is asked of the backend for a statement. The SQL is SQLite's own.
pub fn execute_stmt(stmt: &StmtRequest) -> (r: Call)
    ensures
        asks(r, *stmt),
{
    let mut params: Vec<Value> = Vec::new();
    for i in 0..stmt.args.len()
        invariant
            params@.len() == i,
            forall|j: int|
                0 <= j < i ==> crate::hrana::types::means(
                    stmt.args@[j]@,
                    (#[trigger] params@[j])@,
                ),
    {
        params.push(stmt.args[i].to_backend_value());
    }
    let sql = stmt.sql.clone();
    let up = trimmed_upper(stmt.sql.as_str());
    let u = up.as_slice();
    if starts_with(u, "SELECT") || starts_with(u, "PRAGMA") || starts_with(u, "EXPLAIN") {
        Call::Query { sql, params }
    } else {
        Call::Execute { sql, params }
    }
}

pub open spec fn text_view(s: Option<String>) -> Option<Seq<char>> {
    match s {
        Some(t) => Some(t@),
        None => None,
    }
}

/// `cols` describe the columns of a result.
pub open spec fn are_cols(cols: Seq<ColResponse>, columns: Seq<Column>) -> bool {
    &&& cols.len() == columns.len()
    &&& forall|i: int|
        0 <= i < cols.len() ==> {
            &&& (#[trigger] cols[i]).name@ == columns[i].name@
            &&& text_view(cols[i].decltype) == text_view(columns[i].decltype)
        }
}

/// `written` holds the values of a row.
pub open spec fn is_row(written: Seq<ResponseValue>, row: Seq<Value>) -> bool {
    &&& written.len() == row.len()
    &&& forall|i: int|
        0 <= i < row.len() ==> (#[trigger] written[i])@ == crate::hrana::types::wire_of(row[i]@)
}

/// `written` holds the rows of a result.
pub open spec fn are_rows(written: Seq<Vec<ResponseValue>>, rows: Seq<Vec<Value>>) -> bool {
    &&& written.len() == rows.len()
    &&& forall|i: int| 0 <= i < rows.len() ==> is_row((#[trigger] written[i])@, rows[i]@)
}

/// Every value of a result can be written in a message.
pub open spec fn is_writable(rs: ResultSet) -> bool {
    forall|i: int, j: int|
        0 <= i < rs.rows@.len() && 0 <= j < rs.rows@[i]@.len()
            ==> crate::hrana::types::is_writable((#[trigger] rs.rows@[i]@[j])@)
}

pub(crate) fn copy_text(s: &Option<String>) -> (r: Option<String>)
    ensures
        text_view(r) == text_view(*s),
{
    match s {
        Some(t) => Some(t.clone()),
        None => None,
    }
}

fn cols_of(columns: &Vec<Column>) -> (r: Vec<ColResponse>)
    ensures
        are_cols(r@, columns@),
{
    let mut cols: Vec<ColResponse> = Vec::new();
    for i in 0..columns.len()
        invariant
            cols@.len() == i,
            forall|j: int|
                0 <= j < i ==> {
                    &&& (#[trigger] cols@[j]).name@ == columns@[j].name@
                    &&& text_view(cols@[j].decltype) == text_view(columns@[j].decltype)
                },
    {
        let c = &columns[i];
        cols.push(ColResponse { name: c.name.clone(), decltype: copy_text(&c.decltype) });
    }
    cols
}

fn row_of(row: &Vec<Value>) -> (r: Vec<ResponseValue>)
    requires
        forall|j: int|
            0 <= j < row@.len() ==> crate::hrana::types::is_writable((#[trigger] row@[j])@),
    ensures
        is_row(r@, row@),
{
    let mut written: Vec<ResponseValue> = Vec::new();
    for i in 0..row.len()
        invariant
            forall|j: int|
                0 <= j < row@.len() ==> crate::hrana::types::is_writable((#[trigger] row@[j])@),
            written@.len() == i,
            forall|j: int|
                0 <= j < i ==> (#[trigger] written@[j])@ == crate::hrana::types::wire_of(
                    row@[j]@,
                ),
    {
        written.push(ResponseValue::from_backend_value(&row[i]));
    }
    written
}

/// `r` is the result of a query that resulted in `outcome`.
pub open spec fn is_query_result(
    r: StreamResult,
    outcome: Result<ResultSet, BackendError>,
) -> bool {
    match outcome {
        Ok(rs) => r matches StreamResult::Done { response } && response
            matches StreamResponse::Execute { result } && {
            &&& are_cols(result.cols@, rs.columns@)
            &&& are_rows(result.rows@, rs.rows@)
            &&& result.affected_row_count == 0
            &&& result.last_insert_rowid is None
        },
        Err(failure) => is_failure(r, failure),
    }
}

/// `r` tells of a backend's failure.
pub open spec fn is_failure(r: StreamResult, failure: BackendError) -> bool {
    r matches StreamResult::Error { error } && error.message@ == crate::backend::error_text(
        failure,
    ) && error.code is None
}

/// `r` is the result of another statement that resulted in `outcome`.
pub open spec fn is_execute_result(
    r: StreamResult,
    outcome: Result<ExecuteResult, BackendError>,
) -> bool {
    match outcome {
        Ok(done) => r matches StreamResult::Done { response } && response
            matches StreamResponse::Execute { result } && {
            &&& result.cols@.len() == 0
            &&& result.rows@.len() == 0
            &&& result.affected_row_count == done.affected_rows
            &&& text_view(result.last_insert_rowid) == match done.last_insert_rowid {
                Some(id) => Some(crate::text::signed_decimal(id as int)),
                None => None,
            }
        },
        Err(failure) => is_failure(r, failure),
    }
}

fn failure_of(e: &BackendError) -> (r: StreamResult)
    ensures
        is_failure(r, *e),
{
    StreamResult::Error { error: ErrorResponse { message: e.to_text(), code: None } }
}

/// The result of a query that resulted in `outcome`.
pub fn query_result(outcome: Result<ResultSet, BackendError>) -> (r: StreamResult)
    requires
        outcome matches Ok(rs) ==> is_writable(rs),
    ensures
        is_query_result(r, outcome),
{
    let rs = match outcome {
        Ok(rs) => rs,
        Err(e) => {
            return failure_of(&e);
        },
    };
    let mut rows: Vec<Vec<ResponseValue>> = Vec::new();
    for i in 0..rs.rows.len()
        invariant
            is_writable(rs),
            rows@.len() == i,
            forall|j: int| 0 <= j < i ==> is_row((#[trigger] rows@[j])@, rs.rows@[j]@),
    {
        rows.push(row_of(&rs.rows[i]));
    }
    StreamResult::Done {
        response: StreamResponse::Execute {
            result: ExecuteResponse {
                cols: cols_of(&rs.columns),
                rows,
                affected_row_count: 0,
                last_insert_rowid: None,
            },
        },
    }
}

/// The result of another statement that resulted in `outcome`.
pub fn execute_result(outcome: Result<ExecuteResult, BackendError>) -> (r: StreamResult)
    ensures
        is_execute_result(r, outcome),
{
    match outcome {
        Ok(done) => StreamResult::Done {
            response: StreamResponse::Execute {
                result: ExecuteResponse {
                    cols: Vec::new(),
                    rows: Vec::new(),
                    affected_row_count: done.affected_rows,
                    last_insert_rowid: match done.last_insert_rowid {
                        Some(id) => Some(signed_decimal_text(id)),
                        None => None,
                    },
                },
            },
        },
        Err(e) => failure_of(&e),
    }
}

/// The requests of a pipeline on their way. One that fails does not stop the
/// others.
#[derive(Debug)]
pub struct Pipeline {
    pub waiting: VecDeque<StreamRequest>,
    pub results: Vec<StreamResult>,
}

/// What is next of a pipeline.
#[derive(Debug)]
pub enum Next {
    /// Nothing.
    Done,
    /// A request was answered without the backend.
    Answered,
    /// The backend is asked this, and the result is recorded.
    Run(Call),
}

/// `r` is the answer to a request to close.
pub open spec fn is_close(r: StreamResult) -> bool {
    r matches StreamResult::Done { response } && response is Close
}

impl Pipeline {
    /// Begins to answer a pipeline. The baton plays no part: no state is kept
    /// from one pipeline to the next.
    pub fn new(request: PipelineRequest) -> (r: Pipeline)
        ensures
            r.waiting@ == request.requests@,
            r.results@.len() == 0,
    {
        Pipeline { waiting: queue_of(request.requests), results: Vec::new() }
    }

    /// Takes the next request.
    pub fn next(&mut self) -> (r: Next)
        ensures
            if old(self).waiting@.len() == 0 {
                &&& r is Done
                &&& final(self).waiting@ == old(self).waiting@
                &&& final(self).results@ == old(self).results@
            } else {
                &&& final(self).waiting@ == old(self).waiting@.skip(1)
                &&& match old(self).waiting@[0] {
                    StreamRequest::Execute(exec) => {
                        &&& r matches Next::Run(call)
                        &&& asks(call, exec.stmt)
                        &&& final(self).results@ == old(self).results@
                    },
                    StreamRequest::Close => {
                        &&& r is Answered
                        &&& final(self).results@.len() == old(self).results@.len() + 1
                        &&& final(self).results@.drop_last() == old(self).results@
                        &&& is_close(final(self).results@.last())
                    },
                }
            },
    {
        let first = self.waiting.pop_front();
        proof {
            if old(self).waiting@.len() > 0 {
                assert(self.waiting@ =~= old(self).waiting@.skip(1));
            }
        }
        match first {
            None => Next::Done,
            Some(StreamRequest::Execute(exec)) => Next::Run(execute_stmt(&exec.stmt)),
            Some(StreamRequest::Close) => {
                self.results.push(StreamResult::Done { response: StreamResponse::Close });
                assert(self.results@.drop_last() =~= old(self).results@);
                Next::Answered
            },
        }
    }

    /// Takes the result of the request at hand.
    pub fn record(&mut self, result: StreamResult)
        ensures
            final(self).waiting@ == old(self).waiting@,
            final(self).results@ == old(self).results@.push(result),
    {
        self.results.push(result);
    }

    /// The answer to the whole.
    pub fn finish(self) -> (r: PipelineResponse)
        ensures
            r.baton is None,
            r.base_url is None,
            r.results@ == self.results@,
    {
        PipelineResponse { baton: None, base_url: None, results: self.results }
    }
}

/// Every request gets exactly one result, whatever comes of it: taking a
/// request and recording its result leaves the number of results and of
/// requests that wait, taken together, as it was.
pub proof fn law_one_result_per_request(
    before: Pipeline,
    taken: Pipeline,
    after: Pipeline,
    result: StreamResult,
)
    requires
        before.waiting@.len() > 0,
        taken.waiting@ == before.waiting@.skip(1),
        match before.waiting@[0] {
            StreamRequest::Execute(_) => {
                &&& taken.results@ == before.results@
                &&& after.waiting@ == taken.waiting@
                &&& after.results@ == taken.results@.push(result)
            },
            StreamRequest::Close => {
                &&& taken.results@.len() == before.results@.len() + 1
                &&& after == taken
            },
        },
    ensures
        after.results@.len() + after.waiting@.len() == before.results@.len()
            + before.waiting@.len(),
{
}

/// A statement whose first word is `SELECT`, `PRAGMA` or `EXPLAIN`, in
/// whatever case and behind whatever white space, is asked for its rows, as
/// it stands, whatever follows the word: a space, a line break, a comment, a
/// bracket, a star or nothing.
pub proof fn law_queries_are_asked_for_rows(
    stmt: StmtRequest,
    c: Call,
    space: Seq<char>,
    word: Seq<char>,
    rest: Seq<char>,
)
    requires
        call_ensures(execute_stmt, (&stmt,), c),
        forall|i: int| 0 <= i < space.len() ==> crate::text::is_space(#[trigger] space[i]),
        crate::text::upper(word) == "SELECT"@ || crate::text::upper(word) == "PRAGMA"@
            || crate::text::upper(word) == "EXPLAIN"@,
        stmt.sql@ == space + word + rest,
    ensures
        c matches Call::Query { sql, .. } && sql@ == space + word + rest,
{
    lemma_query_words();
    crate::text_laws::lemma_word_leads(space, word, rest, crate::text::upper(word));
    crate::text_laws::lemma_begins(stmt.sql@, crate::text::upper(word));
}

/// Only such a statement is asked for its rows: the effect is asked of any
/// other, as it stands.
pub proof fn law_other_statements_are_executed(stmt: StmtRequest, c: Call)
    requires
        call_ensures(execute_stmt, (&stmt,), c),
    ensures
        c is Query <==> exists|n: int|
            {
                ||| crate::text_laws::leads(stmt.sql@, n, "SELECT"@)
                ||| crate::text_laws::leads(stmt.sql@, n, "PRAGMA"@)
                ||| crate::text_laws::leads(stmt.sql@, n, "EXPLAIN"@)
            },
        c matches Call::Execute { sql, .. } ==> sql@ == stmt.sql@,
        c matches Call::Query { sql, .. } ==> sql@ == stmt.sql@,
{
    lemma_query_words();
    crate::text_laws::lemma_begins(stmt.sql@, "SELECT"@);
    crate::text_laws::lemma_begins(stmt.sql@, "PRAGMA"@);
    crate::text_laws::lemma_begins(stmt.sql@, "EXPLAIN"@);
}

proof fn lemma_query_words()
    ensures
        crate::text_laws::is_capital_word("SELECT"@),
        crate::text_laws::is_capital_word("PRAGMA"@),
        crate::text_laws::is_capital_word("EXPLAIN"@),
{
    reveal_strlit("SELECT");
    reveal_strlit("PRAGMA");
    reveal_strlit("EXPLAIN");
}

/// The arguments are handed on in their order, none left out and none added,
/// and texts, floats and nulls as they are; an integer argument that is
/// written in base ten is that integer.
pub proof fn law_arguments_are_handed_on(stmt: StmtRequest, c: Call, i: int)
    requires
        call_ensures(execute_stmt, (&stmt,), c),
        0 <= i < stmt.args@.len(),
    ensures
        ({
            let params = match c {
                Call::Query { params, .. } => params@,
                Call::Execute { params, .. } => params@,
            };
            &&& params.len() == stmt.args@.len()
            &&& match stmt.args@[i] {
                HranaValue::Null => params[i]@ is Null,
                HranaValue::Integer { value } => {
                    &&& params[i]@ is Integer
                    &&& forall|n: i64|
                        #[trigger] crate::text::signed_decimal(n as int) == value@
                            ==> params[i]@->Integer_0 == n
                },
                HranaValue::Float { value } => params[i]@ is Float && params[i]@->Float_0
                    == value@,
                HranaValue::Text { value } => params[i]@ is Text && params[i]@->Text_0 == value@,
                HranaValue::Blob { base64 } => {
                    &&& params[i]@ is Blob
                    &&& forall|b: Seq<u8>|
                        #[trigger] crate::hrana::blob::base64_text(b) == base64@
                            ==> params[i]@->Blob_0 == b
                },
            }
        }),
{
    let params = match c {
        Call::Query { params, .. } => params@,
        Call::Execute { params, .. } => params@,
    };
    assert(crate::hrana::types::means(stmt.args@[i]@, params[i]@));
    match stmt.args@[i] {
        HranaValue::Integer { value } => {
            assert forall|n: i64|
                #[trigger] crate::text::signed_decimal(n as int) == value@ implies params[i]@->Integer_0
                == n by {
                crate::text::law_decimal_reads_back(n);
            }
        },
        HranaValue::Blob { base64 } => {
            assert forall|b: Seq<u8>|
                #[trigger] crate::hrana::blob::base64_text(b) == base64@ implies params[i]@->Blob_0
                == b by {
                crate::hrana::blob::law_base64_tells_apart(b, params[i]@->Blob_0);
            }
        },
        _ => {},
    }
}

} // verus!
