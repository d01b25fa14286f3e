//! What a client reads of the tokens: each value, text and count reads back
//! from the bytes that were written for it.
use crate::backend::Value;
use crate::tds::token::{sqlite_to_tds_type, value_to_tds_type, write_value, TdsType};
use bytes::BytesMut;
use vstd::prelude::*;

verus! {

/// The number that two bytes write, the less significant first.
pub open spec fn low_first2(a: u8, b: u8) -> int {
    a + 256 * b
}

/// The bytes are a text with its length in bytes in front.
pub open spec fn is_text_cell(b: Seq<u8>, s: Seq<char>) -> bool {
    &&& b.len() >= 2
    &&& b.len() < 2 + 0x1_0000 ==> low_first2(b[0], b[1]) == b.len() - 2
    &&& crate::utf16::text_of(crate::utf16::bytes_units(b.skip(2))) == Some(s)
}

proof fn lemma_text_cell(s: Seq<char>)
    ensures
        is_text_cell(crate::tds::token::nvarchar_bytes(s), s),
{
    let u = crate::utf16::utf16le(s);
    let b = crate::tds::token::nvarchar_bytes(s);
    crate::wire::lemma_le2(u.len());
    crate::utf16::law_utf16_reads_back(s);
    assert(b.skip(2) =~= u);
}

/// The bytes are the byte 8 and eight bytes that write `i` in two's
/// complement, the less significant first.
pub open spec fn is_integer_cell(b: Seq<u8>, i: int) -> bool {
    &&& b.len() == 9
    &&& b[0] == 8
    &&& b[1] + 0x100 * b[2] + 0x1_0000 * b[3] + 0x100_0000 * b[4] + 0x1_0000_0000 * b[5]
        + 0x100_0000_0000 * b[6] + 0x1_0000_0000_0000 * b[7] + 0x100_0000_0000_0000 * b[8] - (
    if b[8] < 128 {
        0
    } else {
        0x1_0000_0000_0000_0000int
    }) == i
}

proof fn lemma_integer_cell(i: i64)
    ensures
        is_integer_cell(crate::tds::token::bigint_bytes(i), i as int),
{
    crate::wire::law_le_signed_is_twos_complement(i);
    let w = crate::wire::le_signed(i as int, 8);
    let b = crate::tds::token::bigint_bytes(i);
    assert forall|k: int| 0 <= k < 8 implies b[k + 1] == #[trigger] w[k] by {}
    assert(b[1] == w[0] && b[2] == w[1] && b[3] == w[2] && b[4] == w[3]);
    assert(b[5] == w[4] && b[6] == w[5] && b[7] == w[6] && b[8] == w[7]);
}

/// A cell of an integer column reads back: an integer is the byte 8 and eight
/// bytes that write it in two's complement, so two different integers are
/// never written alike. A float is its integer part, a text is the integer
/// that it writes, and a text that writes none is null, as a null is.
pub proof fn law_integer_cell_reads_back(v: crate::backend::Datum, as_double: Option<u64>)
    ensures
        ({
            let b = crate::tds::token::value_bytes(v, TdsType::BigInt, as_double);
            match v {
                crate::backend::Datum::Null => b == seq![0u8],
                crate::backend::Datum::Integer(i) => is_integer_cell(b, i as int),
                crate::backend::Datum::Float(d) => is_integer_cell(b, d.whole as int),
                crate::backend::Datum::Text(s) => {
                    &&& forall|i: i64|
                        #[trigger] crate::text::signed_decimal(i as int) == s ==> is_integer_cell(
                            b,
                            i as int,
                        )
                    &&& crate::text::i64_value(s) is None ==> b == seq![0u8]
                },
                crate::backend::Datum::Blob(x) => is_text_cell(b, crate::text::hex_text(x)),
            }
        }),
{
    let b = crate::tds::token::value_bytes(v, TdsType::BigInt, as_double);
    match v {
        crate::backend::Datum::Null => {},
        crate::backend::Datum::Integer(i) => {
            lemma_integer_cell(i);
        },
        crate::backend::Datum::Float(d) => {
            lemma_integer_cell(d.whole);
        },
        crate::backend::Datum::Text(s) => {
            assert forall|i: i64|
                #[trigger] crate::text::signed_decimal(i as int) == s implies is_integer_cell(
                b,
                i as int,
            ) by {
                crate::text::law_decimal_reads_back(i);
                lemma_integer_cell(i);
            }
        },
        crate::backend::Datum::Blob(x) => {
            lemma_text_cell(crate::text::hex_text(x));
        },
    }
}

/// Two different integers are never written alike.
pub proof fn law_integer_cells_are_told_apart(i: i64, j: i64, x: Option<u64>, y: Option<u64>)
    requires
        i != j,
    ensures
        crate::tds::token::value_bytes(crate::backend::Datum::Integer(i), TdsType::BigInt, x)
            != crate::tds::token::value_bytes(
            crate::backend::Datum::Integer(j),
            TdsType::BigInt,
            y,
        ),
{
    law_integer_cell_reads_back(crate::backend::Datum::Integer(i), x);
    law_integer_cell_reads_back(crate::backend::Datum::Integer(j), y);
}

/// The bytes are the byte 8 and the eight bytes of a double, or the byte 0
/// for none.
pub open spec fn is_float_cell(b: Seq<u8>, bits: Option<u64>) -> bool {
    match bits {
        Some(bits) => b.len() == 9 && b[0] == 8 && crate::wire::low_first8(b.skip(1)) == bits,
        None => b == seq![0u8],
    }
}

/// A cell of a float column reads back: a float is its sixty-four bits, an
/// integer or a text is the double that was found for it or null, and a null
/// is null.
pub proof fn law_float_cell_reads_back(v: crate::backend::Datum, as_double: Option<u64>)
    ensures
        ({
            let b = crate::tds::token::value_bytes(v, TdsType::Float8, as_double);
            match v {
                crate::backend::Datum::Null => b == seq![0u8],
                crate::backend::Datum::Integer(_) => is_float_cell(b, as_double),
                crate::backend::Datum::Float(d) => is_float_cell(b, Some(d.bits)),
                crate::backend::Datum::Text(_) => is_float_cell(b, as_double),
                crate::backend::Datum::Blob(x) => is_text_cell(b, crate::text::hex_text(x)),
            }
        }),
{
    let b = crate::tds::token::value_bytes(v, TdsType::Float8, as_double);
    match v {
        crate::backend::Datum::Blob(x) => {
            lemma_text_cell(crate::text::hex_text(x));
        },
        crate::backend::Datum::Float(d) => {
            crate::wire::law_le_counts(d.bits);
            assert(b.skip(1) =~= crate::wire::le(d.bits as nat, 8));
        },
        _ => {
            if let Some(bits) = as_double {
                crate::wire::law_le_counts(bits);
                if !(v is Null) {
                    assert(b.skip(1) =~= crate::wire::le(bits as nat, 8));
                }
            }
        },
    }
}

/// A cell of a text column reads back: a text is itself, a number is its
/// decimal text, bytes are their hexadecimal text, and a null is the length
/// that no text has.
pub proof fn law_text_cell_reads_back(v: crate::backend::Datum, as_double: Option<u64>)
    ensures
        ({
            let b = crate::tds::token::value_bytes(v, TdsType::NVarChar, as_double);
            match v {
                crate::backend::Datum::Null => b == seq![255u8, 255u8],
                crate::backend::Datum::Integer(i) => is_text_cell(
                    b,
                    crate::text::signed_decimal(i as int),
                ),
                crate::backend::Datum::Float(d) => is_text_cell(b, d.text),
                crate::backend::Datum::Text(s) => is_text_cell(b, s),
                crate::backend::Datum::Blob(x) => is_text_cell(b, crate::text::hex_text(x)),
            }
        }),
{
    match v {
        crate::backend::Datum::Null => {
            crate::wire::lemma_le2(0xFFFF);
        },
        crate::backend::Datum::Integer(i) => {
            lemma_text_cell(crate::text::signed_decimal(i as int));
        },
        crate::backend::Datum::Float(d) => {
            lemma_text_cell(d.text);
        },
        crate::backend::Datum::Text(s) => {
            lemma_text_cell(s);
        },
        crate::backend::Datum::Blob(x) => {
            lemma_text_cell(crate::text::hex_text(x));
        },
    }
}

/// A cell of a binary column reads back: bytes are themselves behind their
/// number, and anything else is written as in a text column.
pub proof fn law_binary_cell_reads_back(v: crate::backend::Datum, as_double: Option<u64>)
    ensures
        ({
            let b = crate::tds::token::value_bytes(v, TdsType::VarBinary, as_double);
            match v {
                crate::backend::Datum::Null => b == seq![255u8, 255u8],
                crate::backend::Datum::Blob(x) => {
                    &&& b.len() >= 2
                    &&& x.len() < 0x1_0000 ==> low_first2(b[0], b[1]) == x.len()
                    &&& b.skip(2) == x
                },
                _ => b == crate::tds::token::value_bytes(v, TdsType::NVarChar, as_double),
            }
        }),
{
    match v {
        crate::backend::Datum::Null => {
            crate::wire::lemma_le2(0xFFFF);
        },
        crate::backend::Datum::Blob(x) => {
            crate::wire::lemma_le2(x.len());
            let b = crate::tds::token::value_bytes(v, TdsType::VarBinary, as_double);
            assert(b.skip(2) =~= x);
        },
        _ => {},
    }
}

/// One more cell in a row is its bytes behind those of the row, in the type
/// of its column; beyond the columns it is text. A row of no cells is the
/// token alone.
pub proof fn law_row_is_cell_by_cell(
    columns: Seq<crate::tds::token::WireColumn>,
    row: Seq<Value>,
    as_doubles: Seq<Option<u64>>,
    v: Value,
)
    ensures
        crate::tds::token::row_bytes(columns, row.push(v), as_doubles)
            == crate::tds::token::row_bytes(columns, row, as_doubles)
            + crate::tds::token::value_bytes(
            v@,
            if row.len() < columns.len() {
                columns[row.len() as int].tds_type
            } else {
                TdsType::NVarChar
            },
            if row.len() < as_doubles.len() {
                as_doubles[row.len() as int]
            } else {
                None
            },
        ),
        crate::tds::token::row_bytes(columns, Seq::empty(), as_doubles) == seq![0xD1u8],
{
    lemma_cells(columns, row, as_doubles, v, 0);
    let n = row.len() as int;
    let last = crate::tds::token::value_bytes(
        v@,
        crate::tds::token::type_at(columns, n),
        crate::tds::token::double_at(as_doubles, n),
    );
    assert(crate::tds::token::row_bytes(columns, row.push(v), as_doubles)
        =~= crate::tds::token::row_bytes(columns, row, as_doubles) + last);
    assert(crate::tds::token::row_bytes(columns, Seq::empty(), as_doubles) =~= seq![0xD1u8]);
}

proof fn lemma_cells(
    columns: Seq<crate::tds::token::WireColumn>,
    row: Seq<Value>,
    as_doubles: Seq<Option<u64>>,
    v: Value,
    i: int,
)
    requires
        0 <= i <= row.len(),
    ensures
        crate::tds::token::cells_bytes(columns, row.push(v), as_doubles, i)
            == crate::tds::token::cells_bytes(columns, row, as_doubles, i)
            + crate::tds::token::value_bytes(
            v@,
            crate::tds::token::type_at(columns, row.len() as int),
            crate::tds::token::double_at(as_doubles, row.len() as int),
        ),
    decreases row.len() - i,
{
    let more = row.push(v);
    let n = row.len() as int;
    let last = crate::tds::token::value_bytes(
        v@,
        crate::tds::token::type_at(columns, n),
        crate::tds::token::double_at(as_doubles, n),
    );
    if i < row.len() {
        lemma_cells(columns, row, as_doubles, v, i + 1);
        assert(more[i] == row[i]);
        assert(crate::tds::token::cells_bytes(columns, more, as_doubles, i)
            =~= crate::tds::token::cells_bytes(columns, row, as_doubles, i) + last);
    } else {
        assert(more[i] == v);
        assert(crate::tds::token::cells_bytes(columns, more, as_doubles, i + 1)
            =~= Seq::<u8>::empty());
        assert(crate::tds::token::cells_bytes(columns, more, as_doubles, i) =~= last);
        assert(crate::tds::token::cells_bytes(columns, row, as_doubles, i) + last =~= last);
    }
}

/// A DONE token reads back: the token, the status and the row count.
pub proof fn law_done_reads_back(status: u16, row_count: u64)
    ensures
        ({
            let b = crate::tds::token::done_bytes(status, row_count as nat);
            &&& b.len() == 13
            &&& b[0] == 0xFD
            &&& low_first2(b[1], b[2]) == status
            &&& low_first2(b[3], b[4]) == 0
            &&& crate::wire::low_first8(b.skip(5)) == row_count
        }),
{
    let b = crate::tds::token::done_bytes(status, row_count as nat);
    crate::wire::lemma_le2(status as nat);
    crate::wire::lemma_le2(0);
    crate::wire::law_le_counts(row_count);
    assert(b.skip(5) =~= crate::wire::le(row_count as nat, 8));
}

/// The tokens that tell of a transaction's begin and end carry its number:
/// the begin as the new value, with no old one, and the end as the old value,
/// with no new one.
pub proof fn law_transaction_tokens_read_back(kind: u8, id: u64)
    ensures
        ({
            let b = crate::tds::token::begin_tran_bytes(id as nat);
            &&& b.len() == 14
            &&& b[0] == 0xE3
            &&& low_first2(b[1], b[2]) == 11
            &&& b[3] == 8
            &&& b[4] == 8
            &&& crate::wire::low_first8(b.subrange(5, 13)) == id
            &&& b[13] == 0
        }),
        ({
            let b = crate::tds::token::end_tran_bytes(kind, id as nat);
            &&& b.len() == 14
            &&& b[0] == 0xE3
            &&& low_first2(b[1], b[2]) == 11
            &&& b[3] == kind
            &&& b[4] == 0
            &&& b[5] == 8
            &&& crate::wire::low_first8(b.skip(6)) == id
        }),
{
    crate::wire::lemma_le2(11);
    crate::wire::law_le_counts(id);
    let b = crate::tds::token::begin_tran_bytes(id as nat);
    let e = crate::tds::token::end_tran_bytes(kind, id as nat);
    let w = crate::wire::le(id as nat, 8);
    assert(b.subrange(5, 13) =~= w);
    assert(e.skip(6) =~= w);
}

/// A message reads back: the token, the length of what follows, the number,
/// the state and the class, and then the text behind its length, no server,
/// no procedure and no line. An error and a note differ in the token, the
/// state and the class alone.
pub proof fn law_message_token_reads_back(number: u32, message: Seq<char>, error: bool)
    ensures
        ({
            let text = crate::utf16::utf16le(message);
            let n = text.len() as int;
            let b = if error {
                crate::tds::token::error_bytes(number as nat, message)
            } else {
                crate::tds::token::info_bytes(number as nat, message)
            };
            &&& b.len() == 17 + n
            &&& b[0] == if error { 0xAAu8 } else { 0xABu8 }
            &&& 14 + n < 0x1_0000 ==> low_first2(b[1], b[2]) == 14 + n
            &&& b[3] + 0x100 * b[4] + 0x1_0000 * b[5] + 0x100_0000 * b[6] == number
            &&& b[7] == if error { 14u8 } else { 1u8 }
            &&& b[8] == if error { 14u8 } else { 0u8 }
            &&& message.len() < 0x1_0000 ==> low_first2(b[9], b[10]) == message.len()
            &&& crate::utf16::text_of(crate::utf16::bytes_units(b.subrange(11, 11 + n))) == Some(
                message,
            )
            &&& b.skip(11 + n) == seq![0u8, 0u8, 0u8, 0u8, 0u8, 0u8]
        }),
{
    let text = crate::utf16::utf16le(message);
    let none = crate::utf16::utf16le(""@);
    reveal_strlit("");
    assert(""@ =~= Seq::<char>::empty());
    assert(none =~= Seq::<u8>::empty());
    let n = text.len() as int;
    let b = if error {
        crate::tds::token::error_bytes(number as nat, message)
    } else {
        crate::tds::token::info_bytes(number as nat, message)
    };
    let w = crate::wire::le(number as nat, 4);
    let z = crate::wire::le(0, 4);
    crate::wire::lemma_le2((14 + n) as nat);
    crate::wire::lemma_le2(message.len());
    crate::wire::law_le_counts(number as u64);
    crate::wire::law_le_counts(0);
    crate::utf16::law_utf16_reads_back(message);
    reveal_with_fuel(crate::wire::le, 5);
    assert(z =~= seq![0u8, 0u8, 0u8, 0u8]);
    assert(b[3] == w[0] && b[4] == w[1] && b[5] == w[2] && b[6] == w[3]);
    assert(b.subrange(11, 11 + n) =~= text);
    assert(b.skip(11 + n) =~= seq![0u8, 0u8, 0u8, 0u8, 0u8, 0u8]);
}

/// A declared type is announced by the words in it, in whatever case and
/// wherever they stand: by the first of these that it holds, and as text
/// where it holds none. A column without a declared type is text.
pub proof fn law_announced_type(decltype: Option<&str>, r: TdsType)
    requires
        call_ensures(sqlite_to_tds_type, (decltype,), r),
    ensures
        decltype is None ==> r == TdsType::NVarChar,
        decltype matches Some(d) ==> {
            let integer = crate::text_laws::holds_word(d@, "INT"@)
                || crate::text_laws::holds_word(d@, "BOOL"@)
                || crate::text_laws::holds_word(d@, "BIT"@);
            let float = crate::text_laws::holds_word(d@, "REAL"@)
                || crate::text_laws::holds_word(d@, "FLOAT"@)
                || crate::text_laws::holds_word(d@, "DOUBLE"@);
            let binary = crate::text_laws::holds_word(d@, "BLOB"@)
                || crate::text_laws::holds_word(d@, "BINARY"@);
            &&& r == TdsType::BigInt <==> integer
            &&& r == TdsType::Float8 <==> float && !integer
            &&& r == TdsType::VarBinary <==> binary && !integer && !float
            &&& r == TdsType::NVarChar <==> !integer && !float && !binary
        },
{
    if let Some(d) = decltype {
        crate::text_laws::lemma_occurs_upper(d@, "INT"@);
        crate::text_laws::lemma_occurs_upper(d@, "BOOL"@);
        crate::text_laws::lemma_occurs_upper(d@, "BIT"@);
        crate::text_laws::lemma_occurs_upper(d@, "REAL"@);
        crate::text_laws::lemma_occurs_upper(d@, "FLOAT"@);
        crate::text_laws::lemma_occurs_upper(d@, "DOUBLE"@);
        crate::text_laws::lemma_occurs_upper(d@, "BLOB"@);
        crate::text_laws::lemma_occurs_upper(d@, "BINARY"@);
    }
}

/// Dates, times, decimals and strings of limited length are announced as
/// text, in whatever case they are declared.
pub proof fn law_dates_are_text(d: &str, r: TdsType)
    requires
        call_ensures(sqlite_to_tds_type, (Some(d),), r),
        ({
            let u = crate::text::upper(d@);
            ||| u == "DATE"@
            ||| u == "DATETIME"@
            ||| u == "TIMESTAMP"@
            ||| u == "DECIMAL"@
            ||| u == "VARCHAR"@
        }),
    ensures
        r == TdsType::NVarChar,
{
    reveal_strlit("DATE");
    reveal_strlit("DATETIME");
    reveal_strlit("TIMESTAMP");
    reveal_strlit("DECIMAL");
    reveal_strlit("VARCHAR");
    reveal_strlit("INT");
    reveal_strlit("BOOL");
    reveal_strlit("BIT");
    reveal_strlit("REAL");
    reveal_strlit("FLOAT");
    reveal_strlit("DOUBLE");
    reveal_strlit("BLOB");
    reveal_strlit("BINARY");
    let u = crate::text::upper(d@);
    crate::text_laws::lemma_letter_missing(u, "INT"@, 1);
    crate::text_laws::lemma_letter_missing(u, "BOOL"@, 0);
    crate::text_laws::lemma_letter_missing(u, "BIT"@, 0);
    if u == "DATE"@ || u == "DATETIME"@ || u == "TIMESTAMP"@ || u == "DECIMAL"@ {
        crate::text_laws::lemma_letter_missing(u, "REAL"@, 0);
    } else {
        crate::text_laws::lemma_letter_missing(u, "REAL"@, 1);
    }
    crate::text_laws::lemma_letter_missing(u, "FLOAT"@, 0);
    crate::text_laws::lemma_letter_missing(u, "DOUBLE"@, 1);
    crate::text_laws::lemma_letter_missing(u, "BLOB"@, 0);
    crate::text_laws::lemma_letter_missing(u, "BINARY"@, 0);
}

/// A column without a declared type is announced by a value: integers,
/// floats and bytes as what they are, texts and nulls as text.
pub proof fn law_value_type(v: Value, r: TdsType)
    requires
        call_ensures(value_to_tds_type, (&v,), r),
    ensures
        r == TdsType::BigInt <==> v@ is Integer,
        r == TdsType::Float8 <==> v@ is Float,
        r == TdsType::VarBinary <==> v@ is Blob,
        r == TdsType::NVarChar <==> v@ is Text || v@ is Null,
{
}

/// What is written for a value stands behind what the buffer held: of an
/// integer in an integer column the byte 8 and the eight bytes that write it,
/// and of a text in a text column the text behind its length.
pub proof fn law_written_value_reads_back(
    buf: &mut BytesMut,
    val: Value,
    t: TdsType,
    as_double: Option<u64>,
)
    requires
        call_ensures(write_value, (buf, &val, t, as_double), ()),
    ensures
        ({
            let start = crate::buffer::held(*old(buf));
            let b = crate::buffer::held(*final(buf)).skip(start.len() as int);
            &&& crate::buffer::held(*final(buf)) == start + b
            &&& t is BigInt ==> (val@ matches crate::backend::Datum::Integer(i) ==> is_integer_cell(
                b,
                i as int,
            ))
            &&& t is Float8 ==> (val@ matches crate::backend::Datum::Float(d) ==> is_float_cell(
                b,
                Some(d.bits),
            ))
            &&& t is NVarChar ==> (val@ matches crate::backend::Datum::Text(s) ==> is_text_cell(
                b,
                s,
            ))
            &&& t is VarBinary ==> (val@ matches crate::backend::Datum::Blob(x) ==> b.len() >= 2
                && b.skip(2) == x)
            &&& val@ is Null ==> b == if t is BigInt || t is Float8 {
                seq![0u8]
            } else {
                seq![255u8, 255u8]
            }
        }),
{
    let start = crate::buffer::held(*old(buf));
    let b = crate::buffer::held(*final(buf)).skip(start.len() as int);
    let written = crate::tds::token::value_bytes(val@, t, as_double);
    assert(b =~= written);
    assert(crate::buffer::held(*final(buf)) =~= start + b);
    law_integer_cell_reads_back(val@, as_double);
    law_float_cell_reads_back(val@, as_double);
    law_text_cell_reads_back(val@, as_double);
    law_binary_cell_reads_back(val@, as_double);
}

/// A login is acknowledged with the length of what follows, the interface,
/// the version of the protocol, the server's name behind its length, and the
/// version of the server.
pub proof fn law_loginack_reads_back(name: Seq<char>)
    ensures
        ({
            let n = crate::utf16::utf16le(name).len() as int;
            let b = crate::tds::token::loginack_bytes(name);
            &&& b.len() == 13 + n
            &&& b[0] == 0xAD
            &&& 10 + n < 0x1_0000 ==> low_first2(b[1], b[2]) == 10 + n
            &&& b[3] == 1
            &&& b.subrange(4, 8) == seq![0x74u8, 0u8, 0u8, 4u8]
            &&& name.len() < 256 ==> b[8] == name.len()
            &&& crate::utf16::text_of(crate::utf16::bytes_units(b.subrange(9, 9 + n))) == Some(name)
            &&& b.skip(9 + n) == seq![0u8, 0u8, 0u8, 15u8]
        }),
{
    let text = crate::utf16::utf16le(name);
    let n = text.len() as int;
    let b = crate::tds::token::loginack_bytes(name);
    crate::wire::lemma_le2((10 + n) as nat);
    crate::utf16::law_utf16_reads_back(name);
    reveal_with_fuel(crate::wire::be, 5);
    reveal_with_fuel(crate::wire::le, 5);
    assert(crate::wire::be(0x7400_0004, 4) =~= seq![0x74u8, 0u8, 0u8, 4u8]);
    assert(crate::wire::le(0x0F00_0000, 4) =~= seq![0u8, 0u8, 0u8, 15u8]);
    assert(b.subrange(4, 8) =~= seq![0x74u8, 0u8, 0u8, 4u8]);
    assert(b.subrange(9, 9 + n) =~= text);
    assert(b.skip(9 + n) =~= seq![0u8, 0u8, 0u8, 15u8]);
}

/// A change of database tells the name twice, as the new one and as the old
/// one, each behind its length.
pub proof fn law_database_change_reads_back(name: Seq<char>)
    ensures
        ({
            let n = crate::utf16::utf16le(name).len() as int;
            let b = crate::tds::token::envchange_database_bytes(name);
            &&& b.len() == 6 + 2 * n
            &&& b[0] == 0xE3
            &&& 3 + 2 * n < 0x1_0000 ==> low_first2(b[1], b[2]) == 3 + 2 * n
            &&& b[3] == 1
            &&& name.len() < 256 ==> b[4] == name.len() && b[5 + n] == name.len()
            &&& crate::utf16::text_of(crate::utf16::bytes_units(b.subrange(5, 5 + n))) == Some(name)
            &&& crate::utf16::text_of(crate::utf16::bytes_units(b.skip(6 + n))) == Some(name)
        }),
{
    let text = crate::utf16::utf16le(name);
    let n = text.len() as int;
    let b = crate::tds::token::envchange_database_bytes(name);
    crate::wire::lemma_le2((3 + 2 * n) as nat);
    crate::utf16::law_utf16_reads_back(name);
    assert(b.subrange(5, 5 + n) =~= text);
    assert(b.skip(6 + n) =~= text);
}

/// A change of packet size tells the new size and the old one, which is 4096,
/// in base ten.
pub proof fn law_packet_size_change_reads_back(size: nat)
    ensures
        ({
            let n = crate::utf16::utf16le(crate::text::decimal(size)).len() as int;
            let b = crate::tds::token::envchange_packet_size_bytes(size);
            &&& b[0] == 0xE3
            &&& b[3] == 4
            &&& b.len() >= 6 + n
            &&& b.len() - 3 < 0x1_0000 ==> low_first2(b[1], b[2]) == b.len() - 3
            &&& crate::utf16::text_of(crate::utf16::bytes_units(b.subrange(5, 5 + n))) == Some(
                crate::text::decimal(size),
            )
            &&& crate::utf16::text_of(crate::utf16::bytes_units(b.skip(6 + n))) == Some("4096"@)
        }),
{
    let text = crate::utf16::utf16le(crate::text::decimal(size));
    let past = crate::utf16::utf16le("4096"@);
    let n = text.len() as int;
    let b = crate::tds::token::envchange_packet_size_bytes(size);
    crate::wire::lemma_le2((3 + n + past.len()) as nat);
    crate::utf16::law_utf16_reads_back(crate::text::decimal(size));
    crate::utf16::law_utf16_reads_back("4096"@);
    assert(b.subrange(5, 5 + n) =~= text);
    assert(b.skip(6 + n) =~= past);
}

/// The description of a result counts its columns, and one more column is
/// described behind the others.
pub proof fn law_columns_come_in_turn(
    columns: Seq<crate::tds::token::WireColumn>,
    c: crate::tds::token::WireColumn,
)
    requires
        columns.len() + 1 < 0x1_0000,
    ensures
        ({
            let few = crate::tds::token::colmetadata_bytes(columns);
            let many = crate::tds::token::colmetadata_bytes(columns.push(c));
            &&& few.len() >= 3
            &&& few[0] == 0x81
            &&& low_first2(few[1], few[2]) == columns.len()
            &&& many.skip(3) == few.skip(3) + crate::tds::token::column_bytes(c)
            &&& columns.len() == 0 ==> few.len() == 3
        }),
{
    let few = crate::tds::token::colmetadata_bytes(columns);
    let many = crate::tds::token::colmetadata_bytes(columns.push(c));
    crate::wire::lemma_le2(columns.len());
    crate::wire::lemma_le2(columns.len() + 1);
    lemma_columns(columns, c, 0);
    assert(few.skip(3) =~= crate::tds::token::columns_bytes(columns, 0));
    assert(many.skip(3) =~= crate::tds::token::columns_bytes(columns.push(c), 0));
}

proof fn lemma_columns(
    columns: Seq<crate::tds::token::WireColumn>,
    c: crate::tds::token::WireColumn,
    i: int,
)
    requires
        0 <= i <= columns.len(),
    ensures
        crate::tds::token::columns_bytes(columns.push(c), i) == crate::tds::token::columns_bytes(
            columns,
            i,
        ) + crate::tds::token::column_bytes(c),
    decreases columns.len() - i,
{
    let more = columns.push(c);
    let last = crate::tds::token::column_bytes(c);
    if i < columns.len() {
        lemma_columns(columns, c, i + 1);
        assert(more[i] == columns[i]);
        assert(crate::tds::token::columns_bytes(more, i) =~= crate::tds::token::columns_bytes(
            columns,
            i,
        ) + last);
    } else {
        assert(more[i] == c);
        assert(crate::tds::token::columns_bytes(more, i + 1) =~= Seq::<u8>::empty());
        assert(crate::tds::token::columns_bytes(more, i) =~= last);
        assert(crate::tds::token::columns_bytes(columns, i) + last =~= last);
    }
}

/// A column is described by no user type, the flag for a column that can be
/// null, its type and its name behind its length: integers and floats of
/// eight bytes, and texts and bytes of up to 8000.
pub proof fn law_column_reads_back(c: crate::tds::token::WireColumn)
    ensures
        ({
            let b = crate::tds::token::column_bytes(c);
            let t = match c.tds_type {
                TdsType::BigInt => seq![0x26u8, 8u8],
                TdsType::Float8 => seq![0x6Du8, 8u8],
                TdsType::NVarChar => seq![0xE7u8, 64u8, 31u8, 9u8, 4u8, 0xD0u8, 0u8, 0x34u8],
                TdsType::VarBinary => seq![0xA5u8, 64u8, 31u8],
            };
            let at = 6 + t.len() as int;
            &&& b.len() == at + 1 + crate::utf16::utf16le(c.name).len()
            &&& b.take(6) == seq![0u8, 0u8, 0u8, 0u8, 8u8, 0u8]
            &&& b.subrange(6, at) == t
            &&& c.name.len() < 256 ==> b[at] == c.name.len()
            &&& crate::utf16::text_of(crate::utf16::bytes_units(b.skip(at + 1))) == Some(c.name)
        }),
{
    let b = crate::tds::token::column_bytes(c);
    let info = crate::tds::token::type_info(c.tds_type);
    let t = match c.tds_type {
        TdsType::BigInt => seq![0x26u8, 8u8],
        TdsType::Float8 => seq![0x6Du8, 8u8],
        TdsType::NVarChar => seq![0xE7u8, 64u8, 31u8, 9u8, 4u8, 0xD0u8, 0u8, 0x34u8],
        TdsType::VarBinary => seq![0xA5u8, 64u8, 31u8],
    };
    crate::wire::lemma_le2(8000);
    crate::wire::lemma_le2(8);
    reveal_with_fuel(crate::wire::le, 5);
    assert(crate::wire::le(0, 4) =~= seq![0u8, 0u8, 0u8, 0u8]);
    assert(info =~= t);
    let at = 6 + t.len() as int;
    crate::utf16::law_utf16_reads_back(c.name);
    assert(b.take(6) =~= seq![0u8, 0u8, 0u8, 0u8, 8u8, 0u8]);
    assert(b.subrange(6, at) =~= t);
    assert(b.skip(at + 1) =~= crate::utf16::utf16le(c.name));
}

} // verus!
