//! Rows and parameters on the wire, as `pgwire` encodes and decodes them.
use crate::backend::{Double, Value};
use crate::postgres::types::Type;
use pgwire::api::portal::Portal;
use pgwire::api::results::DataRowEncoder;
use std::sync::Arc;
use vstd::prelude::*;

verus! {

/// How a field is encoded.
#[derive(Clone, Copy, Debug, PartialEq, Eq, Structural)]
pub enum FieldFormat {
    Text,
    Binary,
}

pub open spec fn format_code(f: FieldFormat) -> i16 {
    match f {
        FieldFormat::Text => 0,
        FieldFormat::Binary => 1,
    }
}

/// The format with a code; any code but that of binary is text.
pub open spec fn format_with(code: i16) -> FieldFormat {
    if code == 1 {
        FieldFormat::Binary
    } else {
        FieldFormat::Text
    }
}

impl FieldFormat {
    /// The code of the format.
    pub fn value(&self) -> (r: i16)
        ensures
            r == format_code(*self),
    {
        match *self {
            FieldFormat::Text => 0,
            FieldFormat::Binary => 1,
        }
    }
}

/// The formats of several fields.
#[derive(Clone, Debug, PartialEq, Eq)]
pub enum Format {
    UnifiedText,
    UnifiedBinary,
    /// One code for each field.
    Individual(Vec<i16>),
}

/// The formats of the first `n` fields are given.
pub open spec fn covers(f: Format, n: nat) -> bool {
    f matches Format::Individual(codes) ==> n <= codes@.len()
}

/// The format of one field.
pub open spec fn format_at(f: Format, idx: int) -> FieldFormat {
    match f {
        Format::UnifiedText => FieldFormat::Text,
        Format::UnifiedBinary => FieldFormat::Binary,
        Format::Individual(codes) => format_with(codes@[idx]),
    }
}

impl Format {
    /// The format of one field.
    pub fn format_for(&self, idx: usize) -> (r: FieldFormat)
        requires
            covers(*self, (idx + 1) as nat),
        ensures
            r == format_at(*self, idx as int),
    {
        match self {
            Format::UnifiedText => FieldFormat::Text,
            Format::UnifiedBinary => FieldFormat::Binary,
            Format::Individual(codes) => if codes[idx] == 1 {
                FieldFormat::Binary
            } else {
                FieldFormat::Text
            },
        }
    }

    /// The formats of the first `n` fields are given.
    pub fn covers(&self, n: usize) -> (r: bool)
        ensures
            r == covers(*self, n as nat),
    {
        match self {
            Format::Individual(codes) => n <= codes.len(),
            _ => true,
        }
    }
}

/// A result column.
#[derive(Clone, Debug, PartialEq, Eq)]
pub struct FieldInfo {
    pub name: String,
    pub datatype: Type,
    pub format: FieldFormat,
}

/// A row as it is sent: for each field its length and its bytes.
#[derive(Clone, Debug, PartialEq, Eq)]
pub struct DataRow {
    pub data: Vec<u8>,
    pub field_count: i16,
}

/// The row encoder of `pgwire`.
#[verifier::external_type_specification]
#[verifier::external_body]
pub struct ExDataRowEncoder(DataRowEncoder);

/// The bytes that an encoder has encoded.
pub uninterp spec fn row_bytes(e: DataRowEncoder) -> Seq<u8>;

/// The columns that an encoder was made for: type id and format code.
pub uninterp spec fn row_columns(e: DataRowEncoder) -> Seq<(u32, i16)>;

/// The number of fields that an encoder has encoded.
pub uninterp spec fn row_count(e: DataRowEncoder) -> nat;

/// The type ids that result columns have.
pub open spec fn is_result_oid(oid: u32) -> bool {
    oid == 16 || oid == 17 || oid == 20 || oid == 25 || oid == 701
}

/// The column that an encoder encodes next is one of a result, and `payload`
/// bytes can be encoded for it.
pub open spec fn has_room(e: DataRowEncoder, payload: nat) -> bool {
    &&& row_count(e) < row_columns(e).len()
    &&& is_result_oid(next_column(e).0)
    &&& row_bytes(e).len() + 4 + payload <= isize::MAX
}

pub open spec fn next_column(e: DataRowEncoder) -> (u32, i16) {
    row_columns(e)[row_count(e) as int]
}

pub open spec fn next_format(e: DataRowEncoder) -> FieldFormat {
    format_with(next_column(e).1)
}

/// `after` is `before` with one field more.
pub open spec fn encoded(before: DataRowEncoder, after: DataRowEncoder, cell: Seq<u8>) -> bool {
    &&& row_columns(after) == row_columns(before)
    &&& row_count(after) == row_count(before) + 1
    &&& row_bytes(after) == row_bytes(before) + cell
}

/// A field that is not NULL: its length in four bytes, then its bytes.
pub open spec fn cell(payload: Seq<u8>) -> Seq<u8> {
    crate::wire::be(payload.len() % 0x1_0000_0000, 4) + payload
}

/// A field that is NULL.
pub open spec fn null_cell() -> Seq<u8> {
    seq![255u8, 255u8, 255u8, 255u8]
}

pub open spec fn bool_payload(b: bool, f: FieldFormat) -> Seq<u8> {
    match f {
        FieldFormat::Text => if b {
            seq![116u8]
        } else {
            seq![102u8]
        },
        FieldFormat::Binary => if b {
            seq![1u8]
        } else {
            seq![0u8]
        },
    }
}

pub open spec fn integer_payload(i: int, f: FieldFormat) -> Seq<u8> {
    match f {
        FieldFormat::Text => crate::text::utf8(crate::text::signed_decimal(i)),
        FieldFormat::Binary => crate::wire::be_signed(i, 8),
    }
}

pub open spec fn blob_payload(b: Seq<u8>, f: FieldFormat) -> Seq<u8> {
    match f {
        FieldFormat::Text => crate::text::utf8("\\x"@ + crate::text::hex_text(b)),
        FieldFormat::Binary => b,
    }
}

/// `DataRowEncoder::new` makes an encoder for rows of the given columns. The
/// columns' names play no part in a row.
#[verifier::external_body]
pub(crate) fn new_encoder(columns: &[(u32, i16)]) -> (r: DataRowEncoder)
    requires
        forall|i: int|
            0 <= i < columns@.len() ==> is_result_oid((#[trigger] columns@[i]).0) && 0
                <= columns@[i].1 <= 1,
    ensures
        row_columns(r) == columns@,
        row_count(r) == 0,
        row_bytes(r) == Seq::<u8>::empty(),
{
    let fields = columns.iter().map(|c|
        pgwire::api::results::FieldInfo::new(
            String::new(),
            None,
            None,
            pgwire::api::Type::from_oid(c.0).unwrap(),
            pgwire::api::results::FieldFormat::from(c.1),
        ));
    DataRowEncoder::new(Arc::new(fields.collect()))
}

/// `DataRowEncoder::encode_field` on `None`: the field is NULL, in either
/// format. It does not fail.
#[verifier::external_body]
pub(crate) fn encode_null(e: &mut DataRowEncoder)
    requires
        has_room(*old(e), 0),
    ensures
        encoded(*old(e), *final(e), null_cell()),
{
    let _ = e.encode_field(&None::<i8>);
}

/// `DataRowEncoder::encode_field` on a `bool`: one byte, or `t` and `f` as
/// text. It does not fail.
#[verifier::external_body]
pub(crate) fn encode_bool(e: &mut DataRowEncoder, b: bool)
    requires
        has_room(*old(e), 1),
    ensures
        encoded(*old(e), *final(e), cell(bool_payload(b, next_format(*old(e))))),
{
    let _ = e.encode_field(&b);
}

/// `DataRowEncoder::encode_field` on an `i64`: eight bytes, or the decimal
/// number as text, whatever the type of the column. It does not fail.
#[verifier::external_body]
pub(crate) fn encode_integer(e: &mut DataRowEncoder, i: i64)
    requires
        has_room(*old(e), integer_payload(i as int, next_format(*old(e))).len()),
    ensures
        encoded(*old(e), *final(e), cell(integer_payload(i as int, next_format(*old(e))))),
{
    let _ = e.encode_field(&i);
}

/// `DataRowEncoder::encode_field` on a `&str`: its UTF-8 bytes, in either
/// format and whatever the type of the column, so long as it is none of the
/// array and tree types that results never have. It does not fail.
#[verifier::external_body]
pub(crate) fn encode_text(e: &mut DataRowEncoder, s: &str)
    requires
        has_room(*old(e), crate::text::utf8(s@).len()),
    ensures
        encoded(*old(e), *final(e), cell(crate::text::utf8(s@))),
{
    let _ = e.encode_field(&s);
}

/// `DataRowEncoder::encode_field` on a `&[u8]`: the bytes themselves, or
/// `\x` and their hexadecimal digits as text, whatever the type of the
/// column. It does not fail.
#[verifier::external_body]
pub(crate) fn encode_blob(e: &mut DataRowEncoder, b: &[u8])
    requires
        has_room(*old(e), blob_payload(b@, next_format(*old(e))).len()),
    ensures
        encoded(*old(e), *final(e), cell(blob_payload(b@, next_format(*old(e))))),
{
    let _ = e.encode_field(&b);
}

/// `DataRowEncoder::finish` gives the encoded bytes and the number of fields,
/// cut to sixteen bits. It does not fail.
#[verifier::external_body]
pub(crate) fn finish_row(e: DataRowEncoder) -> (r: (Vec<u8>, i16))
    ensures
        r.0@ == row_bytes(e),
        r.1 == row_count(e) as i16,
{
    let row = e.finish().unwrap();
    (row.data.to_vec(), row.field_count)
}

/// `Portal::parameter` on a BOOL parameter: one byte, false only for zero. It
/// fails on any other length.
#[verifier::external_body]
pub(crate) fn bool_parameter(bytes: &[u8]) -> (r: Option<bool>)
    ensures
        r == if bytes@.len() == 1 {
            Some(bytes@[0] != 0)
        } else {
            None
        },
{
    let mut portal = Portal::<String>::default();
    portal.parameters = vec![Some(bytes::Bytes::copy_from_slice(bytes))];
    portal.parameter::<bool>(0, &pgwire::api::Type::BOOL).ok().flatten()
}

/// `r` is the number of two's complement that `bytes` write, where they are
/// `width` bytes.
pub open spec fn reads_integer(r: Option<int>, bytes: Seq<u8>, width: nat) -> bool {
    r == if bytes.len() == width {
        Some(crate::wire::be_signed_value(bytes))
    } else {
        None
    }
}

/// `Portal::parameter` on an INT2 parameter: two bytes, the more significant
/// first. It fails on any other length.
#[verifier::external_body]
pub(crate) fn int2_parameter(bytes: &[u8]) -> (r: Option<i16>)
    ensures
        reads_integer(
            match r {
                Some(v) => Some(v as int),
                None => None,
            },
            bytes@,
            2,
        ),
{
    let mut portal = Portal::<String>::default();
    portal.parameters = vec![Some(bytes::Bytes::copy_from_slice(bytes))];
    portal.parameter::<i16>(0, &pgwire::api::Type::INT2).ok().flatten()
}

/// `Portal::parameter` on an INT4 parameter: four bytes, the most significant
/// first. It fails on any other length.
#[verifier::external_body]
pub(crate) fn int4_parameter(bytes: &[u8]) -> (r: Option<i32>)
    ensures
        reads_integer(
            match r {
                Some(v) => Some(v as int),
                None => None,
            },
            bytes@,
            4,
        ),
{
    let mut portal = Portal::<String>::default();
    portal.parameters = vec![Some(bytes::Bytes::copy_from_slice(bytes))];
    portal.parameter::<i32>(0, &pgwire::api::Type::INT4).ok().flatten()
}

/// `Portal::parameter` on an INT8 parameter: eight bytes, the most
/// significant first. It fails on any other length.
#[verifier::external_body]
pub(crate) fn int8_parameter(bytes: &[u8]) -> (r: Option<i64>)
    ensures
        reads_integer(
            match r {
                Some(v) => Some(v as int),
                None => None,
            },
            bytes@,
            8,
        ),
{
    let mut portal = Portal::<String>::default();
    portal.parameters = vec![Some(bytes::Bytes::copy_from_slice(bytes))];
    portal.parameter::<i64>(0, &pgwire::api::Type::INT8).ok().flatten()
}

/// `Portal::parameter` on a BYTEA parameter: the bytes themselves. It does
/// not fail.
#[verifier::external_body]
pub(crate) fn bytea_parameter(bytes: &[u8]) -> (r: Option<Vec<u8>>)
    ensures
        r is Some,
        r.unwrap()@ == bytes@,
{
    let mut portal = Portal::<String>::default();
    portal.parameters = vec![Some(bytes::Bytes::copy_from_slice(bytes))];
    portal.parameter::<Vec<u8>>(0, &pgwire::api::Type::BYTEA).ok().flatten()
}

/// `Portal::parameter` on a TEXT parameter: the text of bytes that are UTF-8.
/// It fails on any others.
#[verifier::external_body]
pub(crate) fn text_parameter(bytes: &[u8]) -> (r: Option<String>)
    ensures
        match r {
            Some(s) => vstd::utf8::valid_utf8(bytes@) && crate::text::utf8(s@) == bytes@,
            None => !vstd::utf8::valid_utf8(bytes@),
        },
{
    let mut portal = Portal::<String>::default();
    portal.parameters = vec![Some(bytes::Bytes::copy_from_slice(bytes))];
    portal.parameter::<String>(0, &pgwire::api::Type::TEXT).ok().flatten()
}

/// How a value is sent in a column of a type.
pub open spec fn value_cell(v: crate::backend::Datum, t: Type, f: FieldFormat) -> Seq<u8> {
    match v {
        crate::backend::Datum::Null => null_cell(),
        crate::backend::Datum::Integer(i) => if t == Type::BOOL {
            cell(bool_payload(i != 0, f))
        } else {
            cell(integer_payload(i as int, f))
        },
        crate::backend::Datum::Float(d) => cell(
            match f {
                FieldFormat::Text => crate::text::utf8(d.text),
                FieldFormat::Binary => crate::wire::be(d.bits as nat, 8),
            },
        ),
        crate::backend::Datum::Text(s) => cell(crate::text::utf8(s)),
        crate::backend::Datum::Blob(b) => cell(blob_payload(b, f)),
    }
}

/// The integer with the same sixty-four bits.
fn same_bits(bits: u64) -> (r: i64)
    ensures
        crate::wire::be_signed(r as int, 8) == crate::wire::be(bits as nat, 8),
{
    let r: i64 = if bits < 0x8000_0000_0000_0000 {
        bits as i64
    } else {
        (bits - 0x8000_0000_0000_0000) as i64 + i64::MIN
    };
    proof {
        lemma_same_bytes(r as int, bits as nat);
    }
    r
}

/// Numbers that are equal modulo two to the sixty-fourth have the same eight
/// bytes.
proof fn lemma_same_bytes(i: int, n: nat)
    requires
        i == n || i == n - 0x1_0000_0000_0000_0000,
    ensures
        crate::wire::be_signed(i, 8) == crate::wire::be(n, 8),
{
    assert(vstd::arithmetic::power::pow(256, 8) == 0x1_0000_0000_0000_0000) by {
        reveal_with_fuel(vstd::arithmetic::power::pow, 9);
    }
    crate::wire::lemma_signed_bytes(i, n, 8, if i == n {
        0
    } else {
        1
    });
}

/// Encodes one value as the next field. An integer in a column of type BOOL
/// is sent as a truth value.
pub fn encode_value(encoder: &mut DataRowEncoder, val: &Value, field: &FieldInfo)
    requires
        row_count(*old(encoder)) < row_columns(*old(encoder)).len(),
        next_column(*old(encoder)) == (
            crate::postgres::types::type_oid(field.datatype),
            format_code(field.format),
        ),
        crate::postgres::types::is_result_type(field.datatype),
        row_bytes(*old(encoder)).len() + value_cell(val@, field.datatype, field.format).len()
            <= isize::MAX,
    ensures
        encoded(
            *old(encoder),
            *final(encoder),
            value_cell(val@, field.datatype, field.format),
        ),
{
    proof {
        lemma_cell_len();
    }
    match val {
        Value::Null => encode_null(encoder),
        Value::Integer(i) => if field.datatype == Type::BOOL {
            encode_bool(encoder, *i != 0)
        } else {
            encode_integer(encoder, *i)
        },
        Value::Float(d) => match field.format {
            FieldFormat::Text => encode_text(encoder, d.text.as_str()),
            FieldFormat::Binary => encode_integer(encoder, same_bits(d.bits)),
        },
        Value::Text(s) => encode_text(encoder, s.as_str()),
        Value::Blob(b) => encode_blob(encoder, b.as_slice()),
    }
}

proof fn lemma_cell_len()
    ensures
        forall|payload: Seq<u8>| #[trigger] cell(payload).len() == 4 + payload.len(),
        null_cell().len() == 4,
{
    assert forall|payload: Seq<u8>| #[trigger] cell(payload).len() == 4 + payload.len() by {
        crate::wire::lemma_be_len(payload.len() % 0x1_0000_0000, 4);
    }
}

/// The types and formats of columns.
pub open spec fn shape(fields: Seq<FieldInfo>) -> Seq<(Type, FieldFormat)> {
    Seq::new(fields.len(), |i: int| (fields[i].datatype, fields[i].format))
}

/// The bytes of a row's fields, in turn, for columns of these types and
/// formats.
pub open spec fn row_data(row: Seq<Value>, shape: Seq<(Type, FieldFormat)>) -> Seq<u8>
    decreases row.len(),
{
    if row.len() == 0 {
        Seq::empty()
    } else {
        let (t, f) = shape[row.len() - 1];
        row_data(row.drop_last(), shape) + value_cell(row.last()@, t, f)
    }
}

proof fn lemma_row_data_grows(row: Seq<Value>, shape: Seq<(Type, FieldFormat)>, n: int)
    requires
        0 <= n <= row.len(),
    ensures
        row_data(row.take(n), shape).len() <= row_data(row, shape).len(),
    decreases row.len() - n,
{
    if n == row.len() {
        assert(row.take(n) == row);
    } else {
        lemma_row_data_grows(row, shape, n + 1);
        assert(row.take(n + 1).drop_last() == row.take(n));
    }
}

/// The schema is one of a result.
pub open spec fn is_result_schema(schema: Seq<FieldInfo>) -> bool {
    forall|i: int|
        0 <= i < schema.len() ==> crate::postgres::types::is_result_type(
            (#[trigger] schema[i]).datatype,
        )
}

/// Encodes one row.
pub fn encode_row(row: &[Value], schema: &[FieldInfo]) -> (r: DataRow)
    requires
        row@.len() <= schema@.len(),
        is_result_schema(schema@),
        row_data(row@, shape(schema@)).len() <= isize::MAX,
    ensures
        r.data@ == row_data(row@, shape(schema@)),
        r.field_count == row@.len() as i16,
{
    let mut columns: Vec<(u32, i16)> = Vec::new();
    for i in 0..schema.len()
        invariant
            columns@.len() == i,
            is_result_schema(schema@),
            forall|j: int|
                0 <= j < i ==> #[trigger] columns@[j] == (
                    crate::postgres::types::type_oid(schema@[j].datatype),
                    format_code(schema@[j].format),
                ),
            forall|j: int| 0 <= j < i ==> is_result_oid((#[trigger] columns@[j]).0),
    {
        columns.push((schema[i].datatype.oid(), schema[i].format.value()));
    }
    let mut encoder = new_encoder(columns.as_slice());
    for i in 0..row.len()
        invariant
            row@.len() <= schema@.len(),
            columns@.len() == schema@.len(),
            is_result_schema(schema@),
            row_data(row@, shape(schema@)).len() <= isize::MAX,
            forall|j: int|
                0 <= j < schema@.len() ==> #[trigger] columns@[j] == (
                    crate::postgres::types::type_oid(schema@[j].datatype),
                    format_code(schema@[j].format),
                ),
            row_columns(encoder) == columns@,
            row_count(encoder) == i,
            row_bytes(encoder) == row_data(row@.take(i as int), shape(schema@)),
    {
        proof {
            lemma_row_data_grows(row@, shape(schema@), i + 1);
            assert(row@.take(i + 1).drop_last() == row@.take(i as int));
            assert(row@.take(i + 1).last() == row@[i as int]);
        }
        encode_value(&mut encoder, &row[i], &schema[i]);
    }
    assert(row@.take(row@.len() as int) == row@);
    let (data, field_count) = finish_row(encoder);
    DataRow { data, field_count }
}

/// What a client has bound to a prepared statement.
#[derive(Clone, Debug)]
pub struct BoundParameters {
    /// The types that the statement declares, which need not be all.
    pub types: Vec<Type>,
    /// The formats that the client announced.
    pub format: Format,
    /// The parameters' bytes; `None` is NULL.
    pub parameters: Vec<Option<Vec<u8>>>,
}

/// The type of a parameter. One that is not declared is text.
pub open spec fn parameter_type(types: Seq<Type>, idx: int) -> Type {
    if idx < types.len() {
        types[idx]
    } else {
        Type::TEXT
    }
}

/// `v` is the integer that `width` bytes write, or NULL where there are not
/// so many bytes.
pub open spec fn is_integer_of(v: crate::backend::Datum, bytes: Seq<u8>, width: nat) -> bool {
    if bytes.len() == width {
        v matches crate::backend::Datum::Integer(i) && i as int == crate::wire::be_signed_value(
            bytes,
        )
    } else {
        v == crate::backend::Datum::Null
    }
}

/// `v` is the value of a parameter's bytes. Bytes that do not write a value
/// of the type are NULL. `float` is the number that they write as one of the
/// floating-point types.
pub open spec fn is_parameter(
    v: crate::backend::Datum,
    t: Type,
    bytes: Option<Seq<u8>>,
    float: Option<crate::backend::DoubleView>,
) -> bool {
    match bytes {
        None => v == crate::backend::Datum::Null,
        Some(b) => match t {
            Type::BOOL => v == if b.len() == 1 {
                crate::backend::Datum::Integer(
                    if b[0] != 0 {
                        1
                    } else {
                        0
                    },
                )
            } else {
                crate::backend::Datum::Null
            },
            Type::INT2 => is_integer_of(v, b, 2),
            Type::INT4 => is_integer_of(v, b, 4),
            Type::INT8 => is_integer_of(v, b, 8),
            Type::FLOAT4 | Type::FLOAT8 => v == match float {
                Some(d) => crate::backend::Datum::Float(d),
                None => crate::backend::Datum::Null,
            },
            Type::BYTEA => v == crate::backend::Datum::Blob(b),
            _ => if vstd::utf8::valid_utf8(b) {
                v matches crate::backend::Datum::Text(s) && crate::text::utf8(s) == b
            } else {
                v == crate::backend::Datum::Null
            },
        },
    }
}

pub open spec fn bytes_view(b: Option<Vec<u8>>) -> Option<Seq<u8>> {
    match b {
        Some(v) => Some(v@),
        None => None,
    }
}

pub open spec fn double_view(d: Option<Double>) -> Option<crate::backend::DoubleView> {
    match d {
        Some(v) => Some(v@),
        None => None,
    }
}

/// The value of one parameter.
pub fn parameter_value(t: Type, bytes: &Option<Vec<u8>>, float: &Option<Double>) -> (r: Value)
    ensures
        is_parameter(r@, t, bytes_view(*bytes), double_view(*float)),
{
    let bytes: &[u8] = match bytes {
        Some(b) => b.as_slice(),
        None => {
            return Value::Null;
        },
    };
    match t {
        Type::BOOL => match bool_parameter(bytes) {
            Some(v) => Value::Integer(
                if v {
                    1
                } else {
                    0
                },
            ),
            None => Value::Null,
        },
        Type::INT2 => match int2_parameter(bytes) {
            Some(v) => Value::Integer(v as i64),
            None => Value::Null,
        },
        Type::INT4 => match int4_parameter(bytes) {
            Some(v) => Value::Integer(v as i64),
            None => Value::Null,
        },
        Type::INT8 => match int8_parameter(bytes) {
            Some(v) => Value::Integer(v),
            None => Value::Null,
        },
        Type::FLOAT4 | Type::FLOAT8 => match float {
            Some(d) => Value::Float(d.clone()),
            None => Value::Null,
        },
        Type::BYTEA => match bytea_parameter(bytes) {
            Some(v) => Value::Blob(v),
            None => Value::Null,
        },
        _ => match text_parameter(bytes) {
            Some(v) => Value::Text(v),
            None => Value::Null,
        },
    }
}

/// The values of bound parameters, in the binary format whatever format is
/// announced. `floats` holds for each parameter the number that its bytes
/// write as a floating-point type.
pub fn extract_params(portal: &BoundParameters, floats: &[Option<Double>]) -> (r: Vec<Value>)
    requires
        covers(portal.format, portal.parameters@.len()),
        floats@.len() == portal.parameters@.len(),
    ensures
        r@.len() == portal.parameters@.len(),
        forall|i: int|
            0 <= i < r@.len() ==> is_parameter(
                (#[trigger] r@[i])@,
                parameter_type(portal.types@, i),
                bytes_view(portal.parameters@[i]),
                double_view(floats@[i]),
            ),
{
    let mut values: Vec<Value> = Vec::new();
    for i in 0..portal.parameters.len()
        invariant
            values@.len() == i,
            floats@.len() == portal.parameters@.len(),
            forall|j: int|
                0 <= j < i ==> is_parameter(
                    (#[trigger] values@[j])@,
                    parameter_type(portal.types@, j),
                    bytes_view(portal.parameters@[j]),
                    double_view(floats@[j]),
                ),
    {
        let t = if i < portal.types.len() {
            portal.types[i]
        } else {
            Type::TEXT
        };
        values.push(parameter_value(t, &portal.parameters[i], &floats[i]));
    }
    values
}

/// An integer that is sent in the binary format reads back as a parameter.
pub proof fn law_integer_reads_back(i: i64, v: crate::backend::Datum, t: Type)
    requires
        t != Type::BOOL,
        is_parameter(
            v,
            Type::INT8,
            Some(value_cell(crate::backend::Datum::Integer(i), t, FieldFormat::Binary).skip(4)),
            None,
        ),
    ensures
        v == crate::backend::Datum::Integer(i),
{
    let payload = integer_payload(i as int, FieldFormat::Binary);
    crate::wire::lemma_be_len(payload.len() % 0x1_0000_0000, 4);
    assert(cell(payload).skip(4) == payload);
    crate::wire::lemma_be_signed_len(i as int, 8);
    crate::wire::lemma_i64_fits(i);
    crate::wire::law_be_signed_reads_back(i as int, 8);
}

/// Bytes that are sent in the binary format read back as a parameter.
pub proof fn law_blob_reads_back(b: Seq<u8>, v: crate::backend::Datum, t: Type)
    requires
        is_parameter(
            v,
            Type::BYTEA,
            Some(value_cell(crate::backend::Datum::Blob(b), t, FieldFormat::Binary).skip(4)),
            None,
        ),
    ensures
        v == crate::backend::Datum::Blob(b),
{
    crate::wire::lemma_be_len(b.len() % 0x1_0000_0000, 4);
    assert(cell(b).skip(4) == b);
}

/// A text that is sent reads back as a parameter, in either format.
pub proof fn law_text_reads_back(s: Seq<char>, v: crate::backend::Datum, t: Type, f: FieldFormat)
    requires
        is_parameter(
            v,
            Type::TEXT,
            Some(value_cell(crate::backend::Datum::Text(s), t, f).skip(4)),
            None,
        ),
    ensures
        v == crate::backend::Datum::Text(s),
{
    let b = crate::text::utf8(s);
    crate::wire::lemma_be_len(b.len() % 0x1_0000_0000, 4);
    assert(cell(b).skip(4) == b);
    vstd::utf8::encode_utf8_valid_utf8(s);
    match v {
        crate::backend::Datum::Text(x) => {
            vstd::utf8::encode_utf8_decode_utf8(x);
            vstd::utf8::encode_utf8_decode_utf8(s);
        },
        _ => {},
    }
}

} // verus!
