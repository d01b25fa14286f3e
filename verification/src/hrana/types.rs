//! The messages of the Hrana pipeline protocol, and values in them.
use crate::backend::{Double, Value};
use crate::hrana::blob::{decode_base64, encode_base64};
use crate::text::{parse_i64, signed_decimal_text};
use vstd::prelude::*;

verus! {

/// What a client asks: statements to run in turn.
#[derive(Debug, Clone)]
pub struct PipelineRequest {
    pub baton: Option<String>,
    pub requests: Vec<StreamRequest>,
}

#[derive(Debug, Clone)]
pub enum StreamRequest {
    Execute(ExecuteRequest),
    Close,
}

#[derive(Debug, Clone)]
pub struct ExecuteRequest {
    pub stmt: StmtRequest,
}

/// A statement and its arguments.
#[derive(Debug, Clone)]
pub struct StmtRequest {
    pub sql: String,
    pub args: Vec<HranaValue>,
}

/// An argument. Integers are decimal texts, and bytes are base64 texts.
#[derive(Debug, Clone)]
pub enum HranaValue {
    Null,
    Integer { value: String },
    Float { value: Double },
    Text { value: String },
    Blob { base64: String },
}

/// What a client is answered.
#[derive(Debug, Clone)]
pub struct PipelineResponse {
    pub baton: Option<String>,
    pub base_url: Option<String>,
    pub results: Vec<StreamResult>,
}

/// What came of one request.
#[derive(Debug, Clone)]
pub enum StreamResult {
    /// It was done. The wire calls this `ok`.
    Done { response: StreamResponse },
    Error { error: ErrorResponse },
}

#[derive(Debug, Clone)]
pub enum StreamResponse {
    Execute { result: ExecuteResponse },
    Close,
}

/// What a statement results in.
#[derive(Debug, Clone)]
pub struct ExecuteResponse {
    pub cols: Vec<ColResponse>,
    pub rows: Vec<Vec<ResponseValue>>,
    pub affected_row_count: u64,
    /// A decimal text.
    pub last_insert_rowid: Option<String>,
}

#[derive(Debug, Clone)]
pub struct ColResponse {
    pub name: String,
    pub decltype: Option<String>,
}

/// A value of a result, in the same form as an argument.
#[derive(Debug, Clone)]
pub enum ResponseValue {
    Null,
    Integer { value: String },
    Float { value: Double },
    Text { value: String },
    Blob { base64: String },
}

#[derive(Debug, Clone)]
pub struct ErrorResponse {
    pub message: String,
    pub code: Option<String>,
}

/// What a value in a message holds.
pub enum WireView {
    Null,
    Integer(Seq<char>),
    Float(crate::backend::DoubleView),
    Text(Seq<char>),
    Blob(Seq<char>),
}

impl View for HranaValue {
    type V = WireView;

    open spec fn view(&self) -> WireView {
        match *self {
            HranaValue::Null => WireView::Null,
            HranaValue::Integer { value } => WireView::Integer(value@),
            HranaValue::Float { value } => WireView::Float(value@),
            HranaValue::Text { value } => WireView::Text(value@),
            HranaValue::Blob { base64 } => WireView::Blob(base64@),
        }
    }
}

impl View for ResponseValue {
    type V = WireView;

    open spec fn view(&self) -> WireView {
        match *self {
            ResponseValue::Null => WireView::Null,
            ResponseValue::Integer { value } => WireView::Integer(value@),
            ResponseValue::Float { value } => WireView::Float(value@),
            ResponseValue::Text { value } => WireView::Text(value@),
            ResponseValue::Blob { base64 } => WireView::Blob(base64@),
        }
    }
}

/// How a value is written in a message.
pub open spec fn wire_of(v: crate::backend::Datum) -> WireView {
    match v {
        crate::backend::Datum::Null => WireView::Null,
        crate::backend::Datum::Integer(i) => WireView::Integer(
            crate::text::signed_decimal(i as int),
        ),
        crate::backend::Datum::Float(d) => WireView::Float(d),
        crate::backend::Datum::Text(s) => WireView::Text(s),
        crate::backend::Datum::Blob(b) => WireView::Blob(crate::hrana::blob::base64_text(b)),
    }
}

/// The integer that a text writes; zero for a text that writes none.
pub open spec fn integer_of(text: Seq<char>) -> i64 {
    match crate::text::i64_value(text) {
        Some(i) => i,
        None => 0,
    }
}

/// `v` is what a value in a message means. A text that should be an integer
/// and is none means zero, and one that should be base64 and is not means no
/// bytes.
pub open spec fn means(w: WireView, v: crate::backend::Datum) -> bool {
    match w {
        WireView::Null => v == crate::backend::Datum::Null,
        WireView::Integer(text) => v == crate::backend::Datum::Integer(integer_of(text)),
        WireView::Float(d) => v == crate::backend::Datum::Float(d),
        WireView::Text(s) => v == crate::backend::Datum::Text(s),
        WireView::Blob(text) => v matches crate::backend::Datum::Blob(b)
            && if crate::hrana::blob::is_base64(text) {
            crate::hrana::blob::base64_text(b) == text
        } else {
            b.len() == 0
        },
    }
}

/// A value can be written in a message.
pub open spec fn is_writable(v: crate::backend::Datum) -> bool {
    v matches crate::backend::Datum::Blob(b) ==> crate::hrana::blob::has_text(b)
}

pub(crate) fn integer_from(text: &str) -> (r: i64)
    ensures
        r == integer_of(text@),
{
    match parse_i64(text) {
        Some(i) => i,
        None => 0,
    }
}

pub(crate) fn blob_from(text: &str) -> (r: Vec<u8>)
    ensures
        means(WireView::Blob(text@), crate::backend::Datum::Blob(r@)),
{
    match decode_base64(text) {
        Some(b) => {
            assert(crate::hrana::blob::is_base64(text@));
            b
        },
        None => Vec::new(),
    }
}

impl HranaValue {
    /// The value that an argument means.
    pub fn to_backend_value(&self) -> (r: Value)
        ensures
            means(self@, r@),
    {
        match self {
            HranaValue::Null => Value::Null,
            HranaValue::Integer { value } => Value::Integer(integer_from(value.as_str())),
            HranaValue::Float { value } => Value::Float(value.clone()),
            HranaValue::Text { value } => Value::Text(value.clone()),
            HranaValue::Blob { base64 } => Value::Blob(blob_from(base64.as_str())),
        }
    }
}

impl ResponseValue {
    /// The value of a result that means a value.
    pub fn from_backend_value(val: &Value) -> (r: ResponseValue)
        requires
            is_writable(val@),
        ensures
            r@ == wire_of(val@),
    {
        match val {
            Value::Null => ResponseValue::Null,
            Value::Integer(i) => ResponseValue::Integer { value: signed_decimal_text(*i) },
            Value::Float(d) => ResponseValue::Float { value: d.clone() },
            Value::Text(s) => ResponseValue::Text { value: s.clone() },
            Value::Blob(b) => ResponseValue::Blob { base64: encode_base64(b.as_slice()) },
        }
    }
}

/// A value that is written in a message means itself.
pub proof fn law_value_reads_back(v: crate::backend::Datum, back: crate::backend::Datum)
    requires
        means(wire_of(v), back),
    ensures
        back == v,
{
    match v {
        crate::backend::Datum::Integer(i) => {
            crate::text::law_decimal_reads_back(i);
        },
        crate::backend::Datum::Blob(b) => {
            let text = crate::hrana::blob::base64_text(b);
            assert(crate::hrana::blob::is_base64(text));
            match back {
                crate::backend::Datum::Blob(x) => {
                    crate::hrana::blob::law_base64_tells_apart(x, b);
                },
                _ => {},
            }
        },
        _ => {},
    }
}

} // verus!
