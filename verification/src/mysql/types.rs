//! MySQL column types for SQLite columns.
use crate::backend::Value;
use crate::text::{chars_of, contains, is_word, upper_chars};
use vstd::prelude::*;

verus! {

/// The column types that results have.
#[allow(non_camel_case_types)]
#[derive(Clone, Copy, Debug, PartialEq, Eq, Structural)]
pub enum ColumnType {
    MYSQL_TYPE_LONGLONG,
    MYSQL_TYPE_DOUBLE,
    MYSQL_TYPE_BLOB,
    MYSQL_TYPE_VAR_STRING,
}

/// The column type of a declared type.
pub open spec fn declared_column_type(decltype: Option<Seq<char>>) -> ColumnType {
    match decltype {
        None => ColumnType::MYSQL_TYPE_VAR_STRING,
        Some(dt) => {
            let u = crate::text::upper(dt);
            if crate::text::occurs(u, "INT"@) {
                ColumnType::MYSQL_TYPE_LONGLONG
            } else if crate::text::occurs(u, "REAL"@) || crate::text::occurs(u, "FLOAT"@)
                || crate::text::occurs(u, "DOUBLE"@) {
                ColumnType::MYSQL_TYPE_DOUBLE
            } else if crate::text::occurs(u, "BLOB"@) || u == "BYTEA"@ {
                ColumnType::MYSQL_TYPE_BLOB
            } else {
                ColumnType::MYSQL_TYPE_VAR_STRING
            }
        },
    }
}

/// The column type of a value.
pub open spec fn datum_column_type(v: crate::backend::Datum) -> ColumnType {
    match v {
        crate::backend::Datum::Integer(_) => ColumnType::MYSQL_TYPE_LONGLONG,
        crate::backend::Datum::Float(_) => ColumnType::MYSQL_TYPE_DOUBLE,
        crate::backend::Datum::Blob(_) => ColumnType::MYSQL_TYPE_BLOB,
        crate::backend::Datum::Text(_) => ColumnType::MYSQL_TYPE_VAR_STRING,
        crate::backend::Datum::Null => ColumnType::MYSQL_TYPE_VAR_STRING,
    }
}

/// The MySQL column type of a SQLite declared type.
pub fn sqlite_to_mysql_column_type(decltype: Option<&str>) -> (r: ColumnType)
    ensures
        r == declared_column_type(crate::tds::token::decltype_view(decltype)),
{
    let dt = match decltype {
        Some(d) => d,
        None => {
            return ColumnType::MYSQL_TYPE_VAR_STRING;
        },
    };
    let chars = chars_of(dt);
    let up = upper_chars(chars.as_slice());
    let u = up.as_slice();
    if contains(u, "INT") {
        ColumnType::MYSQL_TYPE_LONGLONG
    } else if contains(u, "REAL") || contains(u, "FLOAT") || contains(u, "DOUBLE") {
        ColumnType::MYSQL_TYPE_DOUBLE
    } else if contains(u, "BLOB") || is_word(u, "BYTEA") {
        ColumnType::MYSQL_TYPE_BLOB
    } else {
        ColumnType::MYSQL_TYPE_VAR_STRING
    }
}

/// The MySQL column type that fits a value.
pub fn mysql_type_for_value(val: &Value) -> (r: ColumnType)
    ensures
        r == datum_column_type(val@),
{
    match val {
        Value::Integer(_) => ColumnType::MYSQL_TYPE_LONGLONG,
        Value::Float(_) => ColumnType::MYSQL_TYPE_DOUBLE,
        Value::Blob(_) => ColumnType::MYSQL_TYPE_BLOB,
        Value::Text(_) => ColumnType::MYSQL_TYPE_VAR_STRING,
        Value::Null => ColumnType::MYSQL_TYPE_VAR_STRING,
    }
}

/// A declared type is announced by the words in it, in whatever case and
/// wherever they stand: by the first of these that it holds, and as text
/// where it holds none. A column without a declared type is text.
pub proof fn law_announced_type(decltype: Option<&str>, r: ColumnType)
    requires
        call_ensures(sqlite_to_mysql_column_type, (decltype,), r),
    ensures
        decltype is None ==> r == ColumnType::MYSQL_TYPE_VAR_STRING,
        decltype matches Some(d) ==> {
            let integer = crate::text_laws::holds_word(d@, "INT"@);
            let float = crate::text_laws::holds_word(d@, "REAL"@)
                || crate::text_laws::holds_word(d@, "FLOAT"@)
                || crate::text_laws::holds_word(d@, "DOUBLE"@);
            let binary = crate::text_laws::holds_word(d@, "BLOB"@)
                || crate::text::upper(d@) == "BYTEA"@;
            &&& r == ColumnType::MYSQL_TYPE_LONGLONG <==> integer
            &&& r == ColumnType::MYSQL_TYPE_DOUBLE <==> float && !integer
            &&& r == ColumnType::MYSQL_TYPE_BLOB <==> binary && !integer && !float
            &&& r == ColumnType::MYSQL_TYPE_VAR_STRING <==> !integer && !float && !binary
        },
{
    if let Some(d) = decltype {
        crate::text_laws::lemma_occurs_upper(d@, "INT"@);
        crate::text_laws::lemma_occurs_upper(d@, "REAL"@);
        crate::text_laws::lemma_occurs_upper(d@, "FLOAT"@);
        crate::text_laws::lemma_occurs_upper(d@, "DOUBLE"@);
        crate::text_laws::lemma_occurs_upper(d@, "BLOB"@);
    }
}

/// Dates, times, decimals and strings of limited length are announced as
/// text, in whatever case they are declared.
pub proof fn law_dates_are_text(d: &str, r: ColumnType)
    requires
        call_ensures(sqlite_to_mysql_column_type, (Some(d),), r),
        ({
            let u = crate::text::upper(d@);
            ||| u == "DATE"@
            ||| u == "DATETIME"@
            ||| u == "TIMESTAMP"@
            ||| u == "DECIMAL"@
            ||| u == "VARCHAR"@
        }),
    ensures
        r == ColumnType::MYSQL_TYPE_VAR_STRING,
{
    reveal_strlit("DATE");
    reveal_strlit("DATETIME");
    reveal_strlit("TIMESTAMP");
    reveal_strlit("DECIMAL");
    reveal_strlit("VARCHAR");
    reveal_strlit("INT");
    reveal_strlit("REAL");
    reveal_strlit("FLOAT");
    reveal_strlit("DOUBLE");
    reveal_strlit("BLOB");
    reveal_strlit("BYTEA");
    let u = crate::text::upper(d@);
    crate::text_laws::lemma_letter_missing(u, "INT"@, 1);
    if u == "DATE"@ || u == "DATETIME"@ || u == "TIMESTAMP"@ || u == "DECIMAL"@ {
        crate::text_laws::lemma_letter_missing(u, "REAL"@, 0);
    } else {
        crate::text_laws::lemma_letter_missing(u, "REAL"@, 1);
    }
    crate::text_laws::lemma_letter_missing(u, "FLOAT"@, 0);
    crate::text_laws::lemma_letter_missing(u, "DOUBLE"@, 1);
    crate::text_laws::lemma_letter_missing(u, "BLOB"@, 0);
    assert(u[0] != "BYTEA"@[0]);
}

/// A column without a declared type is announced by a value: integers,
/// floats and bytes as what they are, texts and nulls as text.
pub proof fn law_value_type(v: Value, r: ColumnType)
    requires
        call_ensures(mysql_type_for_value, (&v,), r),
    ensures
        r == ColumnType::MYSQL_TYPE_LONGLONG <==> v@ is Integer,
        r == ColumnType::MYSQL_TYPE_DOUBLE <==> v@ is Float,
        r == ColumnType::MYSQL_TYPE_BLOB <==> v@ is Blob,
        r == ColumnType::MYSQL_TYPE_VAR_STRING <==> v@ is Text || v@ is Null,
{
}

} // verus!
