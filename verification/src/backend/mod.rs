//! SQL values, result sets and errors, and the rules around a database
//! session.
pub mod admission_laws;
pub mod conn_limit;
pub mod hrana_client;
pub mod pool_laws;
pub mod rusqlite_backend;
pub mod screen_laws;
pub mod tenant_laws;
pub mod tenant_screen;
pub mod value_laws;
pub mod write_admission;

use vstd::prelude::*;

verus! {

/// A double-precision number, held by what is read of it.
#[derive(Debug)]
pub struct Double {
    /// Its IEEE 754 representation.
    pub bits: u64,
    /// Its decimal text.
    pub text: String,
    /// Its integer part, saturated to the range of `i64`; zero for NaN.
    pub whole: i64,
}

/// What a [`Double`] holds.
pub struct DoubleView {
    pub bits: u64,
    pub text: Seq<char>,
    pub whole: i64,
}

impl View for Double {
    type V = DoubleView;

    open spec fn view(&self) -> DoubleView {
        DoubleView { bits: self.bits, text: self.text@, whole: self.whole }
    }
}

pub open spec fn bits_are_nan(bits: u64) -> bool {
    bits % 0x8000_0000_0000_0000 > 0x7FF0_0000_0000_0000
}

/// Equality of IEEE 754 numbers: NaN equals nothing, and the two zeros are
/// equal.
pub open spec fn bits_equal(a: u64, b: u64) -> bool {
    &&& !bits_are_nan(a)
    &&& !bits_are_nan(b)
    &&& a == b || (a % 0x8000_0000_0000_0000 == 0 && b % 0x8000_0000_0000_0000 == 0)
}

impl PartialEq for Double {
    fn eq(&self, other: &Double) -> (r: bool) {
        let a: u64 = self.bits % 0x8000_0000_0000_0000;
        let b: u64 = other.bits % 0x8000_0000_0000_0000;
        !(a > 0x7FF0_0000_0000_0000) && !(b > 0x7FF0_0000_0000_0000) && (self.bits == other.bits
            || (a == 0 && b == 0))
    }
}

impl vstd::std_specs::cmp::PartialEqSpecImpl for Double {
    open spec fn obeys_eq_spec() -> bool {
        true
    }

    open spec fn eq_spec(&self, other: &Double) -> bool {
        bits_equal(self.bits, other.bits)
    }
}

impl Clone for Double {
    fn clone(&self) -> (r: Double)
        ensures
            r@ == self@,
    {
        Double { bits: self.bits, text: self.text.clone(), whole: self.whole }
    }
}

/// A dynamically typed SQL value.
#[derive(Debug, PartialEq)]
pub enum Value {
    Null,
    Integer(i64),
    Float(Double),
    Text(String),
    Blob(Vec<u8>),
}

/// What a [`Value`] holds.
pub enum Datum {
    Null,
    Integer(i64),
    Float(DoubleView),
    Text(Seq<char>),
    Blob(Seq<u8>),
}

impl View for Value {
    type V = Datum;

    open spec fn view(&self) -> Datum {
        match *self {
            Value::Null => Datum::Null,
            Value::Integer(i) => Datum::Integer(i),
            Value::Float(d) => Datum::Float(d@),
            Value::Text(s) => Datum::Text(s@),
            Value::Blob(b) => Datum::Blob(b@),
        }
    }
}

impl Clone for Value {
    fn clone(&self) -> (r: Value)
        ensures
            r@ == self@,
    {
        match self {
            Value::Null => Value::Null,
            Value::Integer(i) => Value::Integer(*i),
            Value::Float(d) => Value::Float(d.clone()),
            Value::Text(s) => Value::Text(s.clone()),
            Value::Blob(b) => {
                let mut copy: Vec<u8> = Vec::new();
                copy.extend_from_slice(b.as_slice());
                assert(copy@ == b@);
                Value::Blob(copy)
            },
        }
    }
}

/// How a value reads in a text.
pub open spec fn datum_text(v: Datum) -> Seq<char> {
    match v {
        Datum::Null => "NULL"@,
        Datum::Integer(i) => crate::text::signed_decimal(i as int),
        Datum::Float(d) => d.text,
        Datum::Text(s) => s,
        Datum::Blob(b) => "<blob "@ + crate::text::decimal(b.len()) + " bytes>"@,
    }
}

impl Value {
    /// The value as text.
    pub fn to_text(&self) -> (r: String)
        ensures
            r@ == datum_text(self@),
    {
        match self {
            Value::Null => "NULL".to_owned(),
            Value::Integer(i) => crate::text::signed_decimal_text(*i),
            Value::Float(d) => d.text.clone(),
            Value::Text(s) => s.clone(),
            Value::Blob(b) => {
                let mut r: String = "<blob ".to_owned();
                crate::text::push_decimal(&mut r, b.len() as u64);
                r.append(" bytes>");
                r
            },
        }
    }
}

/// Column metadata in a result set.
#[derive(Clone, Debug)]
pub struct Column {
    /// Column name, or alias.
    pub name: String,
    /// Declared type from the schema, such as `INTEGER`; `None` for an
    /// expression.
    pub decltype: Option<String>,
}

/// What a [`Column`] holds.
pub struct ColumnView {
    pub name: Seq<char>,
    pub decltype: Option<Seq<char>>,
}

impl View for Column {
    type V = ColumnView;

    open spec fn view(&self) -> ColumnView {
        ColumnView {
            name: self.name@,
            decltype: match self.decltype {
                Some(d) => Some(d@),
                None => None,
            },
        }
    }
}

/// A set of rows returned from a query.
#[derive(Clone, Debug)]
pub struct ResultSet {
    pub columns: Vec<Column>,
    pub rows: Vec<Vec<Value>>,
}

/// Result of a statement that returns no rows.
#[derive(Clone, Copy, Debug, PartialEq, Eq, Structural)]
pub struct ExecuteResult {
    pub affected_rows: u64,
    pub last_insert_rowid: Option<i64>,
}

/// Errors from backend operations.
#[derive(Clone, Debug, PartialEq, Eq)]
pub enum BackendError {
    Sqlite(String),
    Other(String),
}

/// How an error reads.
pub open spec fn error_text(e: BackendError) -> Seq<char> {
    match e {
        BackendError::Sqlite(m) => "SQLite error: "@ + m@,
        BackendError::Other(m) => "backend error: "@ + m@,
    }
}

impl BackendError {
    /// The error as text.
    pub fn to_text(&self) -> (r: String)
        ensures
            r@ == error_text(*self),
    {
        match self {
            BackendError::Sqlite(m) => {
                let mut r: String = "SQLite error: ".to_owned();
                r.append(m.as_str());
                r
            },
            BackendError::Other(m) => {
                let mut r: String = "backend error: ".to_owned();
                r.append(m.as_str());
                r
            },
        }
    }
}

} // verus!
