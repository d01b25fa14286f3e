//! What a Hrana client and a Hrana server can count on, whatever is sent.
use crate::backend::hrana_client::{
    execute_pipeline, hrana_error_to_backend, pipeline_request, response_value_to_backend,
    value_to_hrana, Health, HranaClient, Reply,
};
use crate::backend::write_admission::{SessionAdmission, Timeout};
use crate::backend::{BackendError, ExecuteResult, ResultSet, Value};
use crate::hrana::http::{execute_result, query_result, Next, Pipeline};
use crate::hrana::types::{
    ErrorResponse, ExecuteResponse, HranaValue, PipelineRequest, PipelineResponse, ResponseValue,
    StreamRequest, StreamResponse, StreamResult,
};
use vstd::prelude::*;

verus! {

/// The URLs of a server are its base URL and their paths, whether or not the
/// base URL ends in slashes.
pub proof fn law_urls(url: &str, r: HranaClient, base: Seq<char>, slashes: Seq<char>)
    requires
        call_ensures(HranaClient::new, (url,), r),
        url@ == base + slashes,
        forall|i: int| 0 <= i < slashes.len() ==> #[trigger] slashes[i] == '/',
        base.len() > 0 ==> base.last() != '/',
    ensures
        r.pipeline_url@ == base + "/v2/pipeline"@,
        r.health_url@ == base + "/health"@,
        r.admission is None,
{
    lemma_slashes(base, slashes);
}

proof fn lemma_slashes(base: Seq<char>, slashes: Seq<char>)
    requires
        forall|i: int| 0 <= i < slashes.len() ==> #[trigger] slashes[i] == '/',
        base.len() > 0 ==> base.last() != '/',
    ensures
        crate::backend::hrana_client::without_slashes(base + slashes) == base,
    decreases slashes.len(),
{
    let all = base + slashes;
    if slashes.len() == 0 {
        assert(all =~= base);
    } else {
        assert(all.last() == slashes.last());
        assert(all.drop_last() =~= base + slashes.drop_last());
        lemma_slashes(base, slashes.drop_last());
    }
}

/// A value is written in a message as what it is: an integer in base ten, a
/// text and a float as they are, and bytes in base64.
pub proof fn law_value_is_written(val: Value, r: HranaValue)
    requires
        call_ensures(value_to_hrana, (&val,), r),
    ensures
        match val@ {
            crate::backend::Datum::Null => r is Null,
            crate::backend::Datum::Integer(i) => r matches HranaValue::Integer { value } && value@
                == crate::text::signed_decimal(i as int),
            crate::backend::Datum::Float(d) => r matches HranaValue::Float { value } && value@ == d,
            crate::backend::Datum::Text(s) => r matches HranaValue::Text { value } && value@ == s,
            crate::backend::Datum::Blob(b) => r matches HranaValue::Blob { base64 } && base64@
                == crate::hrana::blob::base64_text(b),
        },
{
}

/// A value of a result means what it writes; a text that should be an integer
/// and writes none that fits means zero, and one that should be base64 and is
/// not means no bytes.
pub proof fn law_value_is_read(rv: ResponseValue, r: Value, i: i64, b: Seq<u8>)
    requires
        call_ensures(response_value_to_backend, (&rv,), r),
    ensures
        match rv {
            ResponseValue::Null => r@ is Null,
            ResponseValue::Integer { value } => {
                &&& r@ is Integer
                &&& value@ == crate::text::signed_decimal(i as int) ==> r@->Integer_0 == i
                &&& crate::text::i64_value(value@) is None ==> r@->Integer_0 == 0
            },
            ResponseValue::Float { value } => r@ is Float && r@->Float_0 == value@,
            ResponseValue::Text { value } => r@ is Text && r@->Text_0 == value@,
            ResponseValue::Blob { base64 } => {
                &&& r@ is Blob
                &&& base64@ == crate::hrana::blob::base64_text(b) ==> r@->Blob_0 == b
                &&& !crate::hrana::blob::is_base64(base64@) ==> r@->Blob_0.len() == 0
            },
        },
{
    crate::text::law_decimal_reads_back(i);
    if let ResponseValue::Blob { base64 } = rv {
        if base64@ == crate::hrana::blob::base64_text(b) {
            crate::hrana::blob::law_base64_tells_apart(b, r@->Blob_0);
        }
    }
}

/// A statement is sent as it stands, alone in its pipeline, with its
/// parameters in their order; the server that reads it takes each of them for
/// the value that it was.
pub proof fn law_statement_is_sent(sql: &str, params: &[Value], r: PipelineRequest, i: int)
    requires
        call_ensures(pipeline_request, (sql, params), r),
        0 <= i < params@.len(),
    ensures
        r.requests@.len() == 1,
        r.requests@[0] matches StreamRequest::Execute(exec) && {
            &&& exec.stmt.sql@ == sql@
            &&& exec.stmt.args@.len() == params@.len()
            &&& forall|back: Value|
                call_ensures(HranaValue::to_backend_value, (&exec.stmt.args@[i],), back)
                    ==> #[trigger] back@ == params@[i]@
        },
{
    if let StreamRequest::Execute(exec) = r.requests@[0] {
        assert forall|back: Value|
            call_ensures(
                HranaValue::to_backend_value,
                (&exec.stmt.args@[i],),
                back,
            ) implies #[trigger] back@ == params@[i]@ by {
            crate::hrana::types::law_value_reads_back(params@[i]@, back@);
        }
    }
}

/// Only the first result of a reply counts, and only the result of a
/// statement is one: anything else is an error that is not the database's, or
/// the server's own.
pub proof fn law_reply_is_its_first_result(
    reply: Reply,
    r: Result<ExecuteResponse, BackendError>,
)
    requires
        call_ensures(execute_pipeline, (reply,), r),
    ensures
        r is Ok <==> (reply matches Reply::Response(p) && p.results@.len() > 0 && (p.results@[0]
            matches StreamResult::Done { response } && response is Execute)),
        r matches Ok(exec) ==> (reply matches Reply::Response(p) && (p.results@[0]
            matches StreamResult::Done { response } && (response
            matches StreamResponse::Execute { result } && result == exec))),
        reply matches Reply::Failed(e) ==> (r matches Err(BackendError::Other(m)) && m@
            == "HTTP request failed: "@ + e@),
        reply matches Reply::Status { status, body } ==> (r matches Err(BackendError::Other(m))
            && m@ == "sqld returned "@ + status@ + ": "@ + body@),
        reply matches Reply::Unreadable(e) ==> (r matches Err(BackendError::Other(m)) && m@
            == "failed to parse response: "@ + e@),
{
}

/// An error whose code begins with `SQLITE` is the database's, and tells the
/// code in brackets; any other is not.
pub proof fn law_server_errors(err: ErrorResponse, r: BackendError, rest: Seq<char>)
    requires
        call_ensures(hrana_error_to_backend, (err,), r),
    ensures
        err.code matches Some(code) ==> (code@ == "SQLITE"@ + rest ==> (r
            matches BackendError::Sqlite(m) && m@ == "["@ + code@ + "] "@ + err.message@)),
        err.code is None ==> r == BackendError::Other(err.message),
        err.code matches Some(code) ==> ((forall|t: Seq<char>|
            #[trigger] ("SQLITE"@ + t) != code@) ==> r == BackendError::Other(err.message)),
{
    if let Some(code) = err.code {
        let n = "SQLITE"@.len() as int;
        if code@ == "SQLITE"@ + rest {
            assert(code@.subrange(0, n) =~= "SQLITE"@);
        }
        if crate::text::begins_with(code@, "SQLITE"@) {
            assert("SQLITE"@ + code@.skip(n) =~= code@);
        }
    }
}

/// What a statement did is told as the server told it: the rows changed, and
/// the row id where it is an integer.
pub proof fn law_effect_is_told(
    client: HranaClient,
    exec: ExecuteResponse,
    reply: Reply,
    r: Result<ExecuteResult, BackendError>,
    id: i64,
)
    requires
        call_ensures(HranaClient::execute, (&client, reply), r),
        call_ensures(
            execute_pipeline,
            (reply,),
            Ok::<ExecuteResponse, BackendError>(exec),
        ),
    ensures
        r matches Ok(done) && {
            &&& done.affected_rows == exec.affected_row_count
            &&& exec.last_insert_rowid is None ==> done.last_insert_rowid is None
            &&& exec.last_insert_rowid matches Some(text) ==> (text@ == crate::text::signed_decimal(
                id as int,
            ) ==> done.last_insert_rowid == Some(id))
        },
{
    crate::text::law_decimal_reads_back(id);
}

/// The rows of a result are answered one for one, each with its values in
/// their order, and its columns by name and declared type; no rows count as
/// changed. A client reads the same rows.
pub proof fn law_rows_are_answered(rs: ResultSet, r: StreamResult, i: int, j: int)
    requires
        call_ensures(query_result, (Ok::<ResultSet, BackendError>(rs),), r),
        0 <= i < rs.rows@.len(),
        0 <= j < rs.rows@[i]@.len(),
    ensures
        r matches StreamResult::Done { response } && (response
            matches StreamResponse::Execute { result } && {
            &&& result.cols@.len() == rs.columns@.len()
            &&& forall|k: int|
                0 <= k < rs.columns@.len() ==> (#[trigger] result.cols@[k]).name@
                    == rs.columns@[k].name@ && match (
                    result.cols@[k].decltype,
                    rs.columns@[k].decltype,
                ) {
                    (Some(a), Some(b)) => a@ == b@,
                    (None, None) => true,
                    _ => false,
                }
            &&& result.rows@.len() == rs.rows@.len()
            &&& result.rows@[i]@.len() == rs.rows@[i]@.len()
            &&& result.affected_row_count == 0
            &&& result.last_insert_rowid is None
            &&& forall|back: Value|
                call_ensures(response_value_to_backend, (&result.rows@[i]@[j],), back)
                    ==> #[trigger] back@ == rs.rows@[i]@[j]@
        }),
{
    if let StreamResult::Done { response } = r {
        if let StreamResponse::Execute { result } = response {
            assert(crate::hrana::http::is_row(result.rows@[i]@, rs.rows@[i]@));
            assert(result.rows@[i]@[j]@ == crate::hrana::types::wire_of(rs.rows@[i]@[j]@));
            assert forall|back: Value|
                call_ensures(
                    response_value_to_backend,
                    (&result.rows@[i]@[j],),
                    back,
                ) implies #[trigger] back@ == rs.rows@[i]@[j]@ by {
                crate::hrana::types::law_value_reads_back(rs.rows@[i]@[j]@, back@);
            }
        }
    }
}

/// The effect of a statement is answered as the backend told it: the rows
/// changed, and the row id in base ten where there is one.
pub proof fn law_effect_is_answered(done: ExecuteResult, r: StreamResult)
    requires
        call_ensures(execute_result, (Ok::<ExecuteResult, BackendError>(done),), r),
    ensures
        r matches StreamResult::Done { response } && (response
            matches StreamResponse::Execute { result } && {
            &&& result.cols@.len() == 0
            &&& result.rows@.len() == 0
            &&& result.affected_row_count == done.affected_rows
            &&& match (result.last_insert_rowid, done.last_insert_rowid) {
                (Some(text), Some(id)) => text@ == crate::text::signed_decimal(id as int),
                (None, None) => true,
                _ => false,
            }
        }),
{
}

/// A failure is answered with the backend's own words, whatever was run.
pub proof fn law_failure_is_answered(e: BackendError, q: StreamResult, x: StreamResult)
    requires
        call_ensures(query_result, (Err::<ResultSet, BackendError>(e),), q),
        call_ensures(execute_result, (Err::<ExecuteResult, BackendError>(e),), x),
    ensures
        ({
            let told = match e {
                BackendError::Sqlite(m) => "SQLite error: "@ + m@,
                BackendError::Other(m) => "backend error: "@ + m@,
            };
            &&& q matches StreamResult::Error { error } && error.message@ == told
            &&& x matches StreamResult::Error { error } && error.message@ == told
        }),
{
}

/// A request is taken from the front: a close is answered at once, and a
/// statement is asked of the backend before it is answered.
pub proof fn law_requests_are_taken_in_turn(pipeline: &mut Pipeline, r: Next)
    requires
        call_ensures(Pipeline::next, (pipeline,), r),
    ensures
        r is Done <==> old(pipeline).waiting@.len() == 0,
        old(pipeline).waiting@.len() > 0 ==> {
            &&& final(pipeline).waiting@ == old(pipeline).waiting@.skip(1)
            &&& r is Run <==> old(pipeline).waiting@[0] is Execute
            &&& r is Run ==> final(pipeline).results@ == old(pipeline).results@
            &&& r is Answered ==> final(pipeline).results@.len() == old(pipeline).results@.len() + 1
        },
{
}

/// The answer holds every result in its order, and keeps no state for a
/// later pipeline.
pub proof fn law_answer_holds_every_result(pipeline: Pipeline, r: PipelineResponse)
    requires
        call_ensures(Pipeline::finish, (pipeline,), r),
    ensures
        r.results@ == pipeline.results@,
        r.baton is None,
        r.base_url is None,
{
}

/// A server is healthy where its health endpoint replied with success, and
/// only there.
pub proof fn law_health(client: HranaClient, reply: Health, r: Result<(), BackendError>)
    requires
        call_ensures(HranaClient::health_check, (&client, reply), r),
    ensures
        r is Ok <==> (reply matches Health::Status { success, .. } && success),
        r matches Err(e) ==> e is Other,
{
}

/// The rows that a client reads are those of the reply, one for one, with
/// their columns; and a failure to get them is an error.
pub proof fn law_rows_are_read(
    client: HranaClient,
    reply: Reply,
    exec: Result<ExecuteResponse, BackendError>,
    r: Result<ResultSet, BackendError>,
)
    requires
        call_ensures(HranaClient::query, (&client, reply), r),
        call_ensures(execute_pipeline, (reply,), exec),
    ensures
        r is Ok <==> exec is Ok,
        r is Ok ==> {
            &&& r->Ok_0.rows@.len() == exec->Ok_0.rows@.len()
            &&& r->Ok_0.columns@.len() == exec->Ok_0.cols@.len()
            &&& forall|i: int|
                0 <= i < r->Ok_0.rows@.len() ==> (#[trigger] r->Ok_0.rows@[i])@.len()
                    == exec->Ok_0.rows@[i]@.len()
        },
{
    if r is Ok && exec is Ok {
        assert forall|i: int| 0 <= i < r->Ok_0.rows@.len() implies (
        #[trigger] r->Ok_0.rows@[i])@.len() == exec->Ok_0.rows@[i]@.len() by {
            assert(crate::backend::hrana_client::is_row(
                r->Ok_0.rows@[i]@,
                exec->Ok_0.rows@[i]@,
            ));
        }
    }
}

/// A client that holds writes back lets as many go on as it was told, and
/// none is held back where it was told none; each session shares its pool.
pub proof fn law_client_holds_writes_back<P>(
    client: HranaClient,
    permits: usize,
    timeout: Timeout,
    limited: HranaClient,
    timed: HranaClient,
    session: SessionAdmission<P>,
)
    requires
        permits <= usize::MAX / 8,
        call_ensures(HranaClient::write_permits, (client, permits), limited),
        call_ensures(HranaClient::write_acquire_timeout, (limited, timeout), timed),
        call_ensures(HranaClient::connect::<P>, (&timed,), session),
    ensures
        timed.pipeline_url == client.pipeline_url,
        timed.health_url == client.health_url,
        limited.admission is None <==> permits == 0,
        timed.admission is None <==> permits == 0,
        session.admission is None <==> permits == 0,
        session.admission matches Some(a) ==> {
            &&& a.permits == permits
            &&& a.acquire_timeout == timeout
            &&& limited.admission is Some && a.sem == limited.admission->0.sem
        },
        !session.state.begun && session.state.savepoints == 0 && session.state.permit is None,
{
}

} // verus!
