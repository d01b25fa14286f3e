//! PostgreSQL types for SQLite columns and values.
use crate::backend::Value;
use crate::text::{chars_of, contains, upper_chars};
use vstd::prelude::*;

verus! {

/// A PostgreSQL type. Those that parameters and results are told apart by
/// have a name; any other is known by its object id.
#[allow(non_camel_case_types)]
#[derive(Clone, Copy, Debug, PartialEq, Eq, Structural)]
pub enum Type {
    BOOL,
    BYTEA,
    INT8,
    INT2,
    INT4,
    TEXT,
    FLOAT4,
    FLOAT8,
    Other(u32),
}

/// The type of a declared type.
pub open spec fn declared_type(decltype: Option<Seq<char>>) -> Type {
    match decltype {
        None => Type::TEXT,
        Some(dt) => {
            let u = crate::text::upper(dt);
            if crate::text::occurs(u, "INT"@) {
                Type::INT8
            } else if crate::text::occurs(u, "REAL"@) || crate::text::occurs(u, "FLOAT"@)
                || crate::text::occurs(u, "DOUBLE"@) {
                Type::FLOAT8
            } else if crate::text::occurs(u, "BLOB"@) || crate::text::occurs(u, "BYTEA"@) {
                Type::BYTEA
            } else if crate::text::occurs(u, "BOOL"@) {
                Type::BOOL
            } else {
                Type::TEXT
            }
        },
    }
}

/// The type of a value.
pub open spec fn datum_type(v: crate::backend::Datum) -> Type {
    match v {
        crate::backend::Datum::Null => Type::TEXT,
        crate::backend::Datum::Integer(_) => Type::INT8,
        crate::backend::Datum::Float(_) => Type::FLOAT8,
        crate::backend::Datum::Text(_) => Type::TEXT,
        crate::backend::Datum::Blob(_) => Type::BYTEA,
    }
}

/// The object id that PostgreSQL gives a type.
pub open spec fn type_oid(t: Type) -> u32 {
    match t {
        Type::BOOL => 16,
        Type::BYTEA => 17,
        Type::INT8 => 20,
        Type::INT2 => 21,
        Type::INT4 => 23,
        Type::TEXT => 25,
        Type::FLOAT4 => 700,
        Type::FLOAT8 => 701,
        Type::Other(oid) => oid,
    }
}

/// The types that result columns have.
pub open spec fn is_result_type(t: Type) -> bool {
    t == Type::BOOL || t == Type::BYTEA || t == Type::INT8 || t == Type::TEXT || t == Type::FLOAT8
}

impl Type {
    /// The object id of the type.
    pub fn oid(&self) -> (r: u32)
        ensures
            r == type_oid(*self),
    {
        match *self {
            Type::BOOL => 16,
            Type::BYTEA => 17,
            Type::INT8 => 20,
            Type::INT2 => 21,
            Type::INT4 => 23,
            Type::TEXT => 25,
            Type::FLOAT4 => 700,
            Type::FLOAT8 => 701,
            Type::Other(oid) => oid,
        }
    }

    /// The type with an object id.
    pub fn from_oid(oid: u32) -> (r: Type)
        ensures
            type_oid(r) == oid,
            r matches Type::Other(_) ==> oid != 16 && oid != 17 && oid != 20 && oid != 21 && oid
                != 23 && oid != 25 && oid != 700 && oid != 701,
    {
        if oid == 16 {
            Type::BOOL
        } else if oid == 17 {
            Type::BYTEA
        } else if oid == 20 {
            Type::INT8
        } else if oid == 21 {
            Type::INT2
        } else if oid == 23 {
            Type::INT4
        } else if oid == 25 {
            Type::TEXT
        } else if oid == 700 {
            Type::FLOAT4
        } else if oid == 701 {
            Type::FLOAT8
        } else {
            Type::Other(oid)
        }
    }
}

/// The PostgreSQL type of a SQLite declared type. Text is the fallback: SQLite
/// can give any value as text.
pub fn sqlite_to_pg_type(decltype: Option<&str>) -> (r: Type)
    ensures
        r == declared_type(crate::tds::token::decltype_view(decltype)),
        is_result_type(r),
{
    let dt = match decltype {
        Some(d) => d,
        None => {
            return Type::TEXT;
        },
    };
    let chars = chars_of(dt);
    let up = upper_chars(chars.as_slice());
    let u = up.as_slice();
    if contains(u, "INT") {
        Type::INT8
    } else if contains(u, "REAL") || contains(u, "FLOAT") || contains(u, "DOUBLE") {
        Type::FLOAT8
    } else if contains(u, "BLOB") || contains(u, "BYTEA") {
        Type::BYTEA
    } else if contains(u, "BOOL") {
        Type::BOOL
    } else {
        Type::TEXT
    }
}

/// The PostgreSQL type of a value, for a column without a declared type.
pub fn value_to_pg_type(val: &Value) -> (r: Type)
    ensures
        r == datum_type(val@),
        is_result_type(r),
{
    match val {
        Value::Null => Type::TEXT,
        Value::Integer(_) => Type::INT8,
        Value::Float(_) => Type::FLOAT8,
        Value::Text(_) => Type::TEXT,
        Value::Blob(_) => Type::BYTEA,
    }
}

/// A declared type is announced by the words in it, in whatever case and
/// wherever they stand: by the first of these that it holds, and as text
/// where it holds none. A column without a declared type is text.
pub proof fn law_announced_type(decltype: Option<&str>, r: Type)
    requires
        call_ensures(sqlite_to_pg_type, (decltype,), r),
    ensures
        decltype is None ==> r == Type::TEXT,
        decltype matches Some(d) ==> {
            let integer = crate::text_laws::holds_word(d@, "INT"@);
            let float = crate::text_laws::holds_word(d@, "REAL"@)
                || crate::text_laws::holds_word(d@, "FLOAT"@)
                || crate::text_laws::holds_word(d@, "DOUBLE"@);
            let binary = crate::text_laws::holds_word(d@, "BLOB"@)
                || crate::text_laws::holds_word(d@, "BYTEA"@);
            let boolean = crate::text_laws::holds_word(d@, "BOOL"@);
            &&& r == Type::INT8 <==> integer
            &&& r == Type::FLOAT8 <==> float && !integer
            &&& r == Type::BYTEA <==> binary && !integer && !float
            &&& r == Type::BOOL <==> boolean && !integer && !float && !binary
            &&& r == Type::TEXT <==> !integer && !float && !binary && !boolean
        },
{
    if let Some(d) = decltype {
        crate::text_laws::lemma_occurs_upper(d@, "INT"@);
        crate::text_laws::lemma_occurs_upper(d@, "REAL"@);
        crate::text_laws::lemma_occurs_upper(d@, "FLOAT"@);
        crate::text_laws::lemma_occurs_upper(d@, "DOUBLE"@);
        crate::text_laws::lemma_occurs_upper(d@, "BLOB"@);
        crate::text_laws::lemma_occurs_upper(d@, "BYTEA"@);
        crate::text_laws::lemma_occurs_upper(d@, "BOOL"@);
    }
}

/// Dates, times, decimals and strings of limited length are announced as
/// text, in whatever case they are declared.
pub proof fn law_dates_are_text(d: &str, r: Type)
    requires
        call_ensures(sqlite_to_pg_type, (Some(d),), r),
        ({
            let u = crate::text::upper(d@);
            ||| u == "DATE"@
            ||| u == "DATETIME"@
            ||| u == "TIMESTAMP"@
            ||| u == "DECIMAL"@
            ||| u == "VARCHAR"@
        }),
    ensures
        r == Type::TEXT,
{
    reveal_strlit("DATE");
    reveal_strlit("DATETIME");
    reveal_strlit("TIMESTAMP");
    reveal_strlit("DECIMAL");
    reveal_strlit("VARCHAR");
    reveal_strlit("INT");
    reveal_strlit("REAL");
    reveal_strlit("FLOAT");
    reveal_strlit("DOUBLE");
    reveal_strlit("BLOB");
    reveal_strlit("BYTEA");
    reveal_strlit("BOOL");
    let u = crate::text::upper(d@);
    crate::text_laws::lemma_letter_missing(u, "INT"@, 1);
    if u == "DATE"@ || u == "DATETIME"@ || u == "TIMESTAMP"@ || u == "DECIMAL"@ {
        crate::text_laws::lemma_letter_missing(u, "REAL"@, 0);
    } else {
        crate::text_laws::lemma_letter_missing(u, "REAL"@, 1);
    }
    crate::text_laws::lemma_letter_missing(u, "FLOAT"@, 0);
    crate::text_laws::lemma_letter_missing(u, "DOUBLE"@, 1);
    crate::text_laws::lemma_letter_missing(u, "BLOB"@, 0);
    crate::text_laws::lemma_letter_missing(u, "BYTEA"@, 0);
    crate::text_laws::lemma_letter_missing(u, "BOOL"@, 0);
}

/// A column without a declared type is announced by a value: integers,
/// floats and bytes as what they are, texts and nulls as text.
pub proof fn law_value_type(v: Value, r: Type)
    requires
        call_ensures(value_to_pg_type, (&v,), r),
    ensures
        r == Type::INT8 <==> v@ is Integer,
        r == Type::FLOAT8 <==> v@ is Float,
        r == Type::BYTEA <==> v@ is Blob,
        r == Type::TEXT <==> v@ is Text || v@ is Null,
{
}

/// The object ids tell the types apart, and are PostgreSQL's.
pub proof fn law_object_ids(t: Type, oid: u32, back: Type)
    requires
        call_ensures(Type::oid, (&t,), oid),
        call_ensures(Type::from_oid, (oid,), back),
    ensures
        t !is Other ==> back == t,
        t matches Type::Other(n) ==> oid == n,
        t == Type::BOOL ==> oid == 16,
        t == Type::BYTEA ==> oid == 17,
        t == Type::INT8 ==> oid == 20,
        t == Type::INT2 ==> oid == 21,
        t == Type::INT4 ==> oid == 23,
        t == Type::TEXT ==> oid == 25,
        t == Type::FLOAT4 ==> oid == 700,
        t == Type::FLOAT8 ==> oid == 701,
{
}

} // verus!
