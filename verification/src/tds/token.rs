//! TDS response tokens.
//!
//! A response is a stream of tokens: one byte of type, then what the type
//! says. Every writer here appends one token to a buffer.
use crate::backend::{Column, Value};
use crate::buffer::{put_i64_le, put_slice, put_u16_le, put_u32, put_u32_le, put_u64_le, put_u8};
use crate::text::{chars_of, contains, decimal_text, parse_i64, signed_decimal_text, upper_chars};
use crate::utf16::encode_utf16le;
use bytes::BytesMut;
use vstd::prelude::*;

verus! {

pub const TOKEN_ENVCHANGE: u8 = 0xE3;

pub const TOKEN_INFO: u8 = 0xAB;

pub const TOKEN_LOGINACK: u8 = 0xAD;

pub const TOKEN_COLMETADATA: u8 = 0x81;

pub const TOKEN_ROW: u8 = 0xD1;

pub const TOKEN_DONE: u8 = 0xFD;

pub const TOKEN_ERROR: u8 = 0xAA;

/// A final result.
pub const DONE_FINAL: u16 = 0x0000;

/// More results follow.
pub const DONE_MORE: u16 = 0x0001;

/// The row count is valid.
pub const DONE_COUNT: u16 = 0x0010;

/// Unicode text of variable length.
pub const TYPE_NVARCHAR: u8 = 0xE7;

/// An integer of variable length.
pub const TYPE_INTN: u8 = 0x26;

/// A float of variable length.
pub const TYPE_FLTN: u8 = 0x6D;

/// Binary data of variable length.
pub const TYPE_BIGVARBINARY: u8 = 0xA5;

/// The type of a column on the wire.
#[derive(Clone, Copy, Debug, PartialEq, Eq, Structural)]
pub enum TdsType {
    /// An integer of eight bytes.
    BigInt,
    /// A float of eight bytes.
    Float8,
    /// Unicode text of up to 4000 characters.
    NVarChar,
    /// Binary data of up to 8000 bytes.
    VarBinary,
}

/// A column on the wire.
#[derive(Debug)]
pub struct TdsColumn {
    pub name: String,
    pub tds_type: TdsType,
}

/// What a [`TdsColumn`] holds.
#[verifier::ext_equal]
pub struct WireColumn {
    pub name: Seq<char>,
    pub tds_type: TdsType,
}

impl View for TdsColumn {
    type V = WireColumn;

    open spec fn view(&self) -> WireColumn {
        WireColumn { name: self.name@, tds_type: self.tds_type }
    }
}

/// The views of the columns.
pub open spec fn column_views(columns: Seq<TdsColumn>) -> Seq<WireColumn> {
    Seq::new(columns.len(), |i: int| columns[i]@)
}

/// The wire type of a declared type.
pub open spec fn declared_type(decltype: Option<Seq<char>>) -> TdsType {
    match decltype {
        None => TdsType::NVarChar,
        Some(dt) => {
            let u = crate::text::upper(dt);
            if crate::text::occurs(u, "INT"@) || crate::text::occurs(u, "BOOL"@)
                || crate::text::occurs(u, "BIT"@) {
                TdsType::BigInt
            } else if crate::text::occurs(u, "REAL"@) || crate::text::occurs(u, "FLOAT"@)
                || crate::text::occurs(u, "DOUBLE"@) {
                TdsType::Float8
            } else if crate::text::occurs(u, "BLOB"@) || crate::text::occurs(u, "BINARY"@) {
                TdsType::VarBinary
            } else {
                TdsType::NVarChar
            }
        },
    }
}

/// The wire type of a value.
pub open spec fn datum_type(v: crate::backend::Datum) -> TdsType {
    match v {
        crate::backend::Datum::Null => TdsType::NVarChar,
        crate::backend::Datum::Text(_) => TdsType::NVarChar,
        crate::backend::Datum::Integer(_) => TdsType::BigInt,
        crate::backend::Datum::Float(_) => TdsType::Float8,
        crate::backend::Datum::Blob(_) => TdsType::VarBinary,
    }
}

pub open spec fn decltype_view(decltype: Option<&str>) -> Option<Seq<char>> {
    match decltype {
        Some(d) => Some(d@),
        None => None,
    }
}

/// The wire type of a SQLite declared type.
pub fn sqlite_to_tds_type(decltype: Option<&str>) -> (r: TdsType)
    ensures
        r == declared_type(decltype_view(decltype)),
{
    let dt = match decltype {
        Some(d) => d,
        None => {
            return TdsType::NVarChar;
        },
    };
    let chars = chars_of(dt);
    let up = upper_chars(chars.as_slice());
    let u = up.as_slice();
    if contains(u, "INT") || contains(u, "BOOL") || contains(u, "BIT") {
        return TdsType::BigInt;
    }
    if contains(u, "REAL") || contains(u, "FLOAT") || contains(u, "DOUBLE") {
        return TdsType::Float8;
    }
    if contains(u, "BLOB") || contains(u, "BINARY") {
        return TdsType::VarBinary;
    }
    TdsType::NVarChar
}

/// The wire type of a value.
pub fn value_to_tds_type(val: &Value) -> (r: TdsType)
    ensures
        r == datum_type(val@),
{
    match val {
        Value::Null => TdsType::NVarChar,
        Value::Text(_) => TdsType::NVarChar,
        Value::Integer(_) => TdsType::BigInt,
        Value::Float(_) => TdsType::Float8,
        Value::Blob(_) => TdsType::VarBinary,
    }
}

/// The wire type of a column: by its declared type where it has one, else by
/// the value in the first row.
pub open spec fn column_type(col: crate::backend::ColumnView, first: Option<crate::backend::Datum>) -> TdsType {
    if col.decltype is Some {
        declared_type(col.decltype)
    } else {
        match first {
            Some(v) => datum_type(v),
            None => TdsType::NVarChar,
        }
    }
}

/// The cell of the first row in a column, if there is one.
pub open spec fn first_cell(first_row: Option<&[Value]>, i: int) -> Option<crate::backend::Datum> {
    match first_row {
        Some(row) => if i < row@.len() {
            Some(row@[i]@)
        } else {
            None
        },
        None => None,
    }
}

/// The wire columns of a result.
pub open spec fn wire_columns(columns: Seq<Column>, first_row: Option<&[Value]>) -> Seq<WireColumn> {
    Seq::new(
        columns.len(),
        |i: int|
            WireColumn {
                name: columns[i].name@,
                tds_type: column_type(columns[i]@, first_cell(first_row, i)),
            },
    )
}

/// The wire columns of a result.
pub fn build_columns(columns: &[Column], first_row: Option<&[Value]>) -> (r: Vec<TdsColumn>)
    ensures
        column_views(r@) == wire_columns(columns@, first_row),
{
    let mut r: Vec<TdsColumn> = Vec::new();
    let mut i: usize = 0;
    while i < columns.len()
        invariant
            i <= columns@.len(),
            r@.len() == i,
            forall|j: int|
                0 <= j < i ==> (#[trigger] r@[j])@ == wire_columns(columns@, first_row)[j],
        decreases columns.len() - i,
    {
        let col: &Column = &columns[i];
        let tds_type = match &col.decltype {
            Some(d) => sqlite_to_tds_type(Some(d.as_str())),
            None => match first_row {
                Some(row) => if i < row.len() {
                    value_to_tds_type(&row[i])
                } else {
                    TdsType::NVarChar
                },
                None => TdsType::NVarChar,
            },
        };
        r.push(TdsColumn { name: col.name.clone(), tds_type });
        i += 1;
    }
    assert(column_views(r@) =~= wire_columns(columns@, first_row));
    r
}

/// A text's length in characters, as one byte holds it.
pub open spec fn short_len(s: Seq<char>) -> u8 {
    (s.len() % 256) as u8
}

fn char_count(s: &str) -> (r: usize)
    ensures
        r == s@.len(),
{
    let chars = chars_of(s);
    chars.len()
}

/// The low sixteen bits.
fn low16(n: usize) -> (r: u16)
    ensures
        crate::wire::le(r as nat, 2) == crate::wire::le(n as nat, 2),
{
    proof {
        crate::wire::lemma_le2_low(n as nat);
    }
    (n % 65536) as u16
}

pub open spec fn loginack_bytes(server_name: Seq<char>) -> Seq<u8> {
    let name = crate::utf16::utf16le(server_name);
    seq![TOKEN_LOGINACK] + crate::wire::le(10 + name.len(), 2) + seq![1u8] + crate::wire::be(
        0x7400_0004,
        4,
    ) + seq![short_len(server_name)] + name + crate::wire::le(0x0F00_0000, 4)
}

/// Appends a LOGINACK token: interface, TDS version, server name and server
/// version.
pub fn write_loginack(buf: &mut BytesMut, server_name: &str)
    requires
        crate::buffer::fits(*old(buf), loginack_bytes(server_name@).len()),
    ensures
        crate::buffer::held(*final(buf)) == crate::buffer::held(*old(buf)) + loginack_bytes(
            server_name@,
        ),
{
    let ghost h = crate::buffer::held(*buf);
    let name = encode_utf16le(server_name);
    let count: usize = char_count(server_name);
    proof {
        lemma_lens();
    }
    let body_len: u16 = low16(10 + name.len());
    put_u8(buf, TOKEN_LOGINACK);
    put_u16_le(buf, body_len);
    put_u8(buf, 1);
    put_u32(buf, 0x7400_0004);
    put_u8(buf, (count % 256) as u8);
    put_slice(buf, name.as_slice());
    put_u32_le(buf, 0x0F00_0000);
    proof {
        crate::wire::lemma_append7(
            h,
            seq![TOKEN_LOGINACK],
            crate::wire::le(10 + name@.len(), 2),
            seq![1u8],
            crate::wire::be(0x7400_0004, 4),
            seq![short_len(server_name@)],
            name@,
            crate::wire::le(0x0F00_0000, 4),
        );
    }
}

/// The widths of the fixed fields.
pub proof fn lemma_lens()
    ensures
        forall|n: nat| (#[trigger] crate::wire::le(n, 2)).len() == 2,
        forall|n: nat| (#[trigger] crate::wire::le(n, 4)).len() == 4,
        forall|n: nat| (#[trigger] crate::wire::le(n, 8)).len() == 8,
        forall|n: nat| (#[trigger] crate::wire::be(n, 2)).len() == 2,
        forall|n: nat| (#[trigger] crate::wire::be(n, 4)).len() == 4,
        forall|i: int| (#[trigger] crate::wire::le_signed(i, 8)).len() == 8,
{
    assert forall|n: nat| (#[trigger] crate::wire::le(n, 2)).len() == 2 by {
        crate::wire::lemma_le_len(n, 2);
    }
    assert forall|n: nat| (#[trigger] crate::wire::le(n, 4)).len() == 4 by {
        crate::wire::lemma_le_len(n, 4);
    }
    assert forall|n: nat| (#[trigger] crate::wire::le(n, 8)).len() == 8 by {
        crate::wire::lemma_le_len(n, 8);
    }
    assert forall|n: nat| (#[trigger] crate::wire::be(n, 2)).len() == 2 by {
        crate::wire::lemma_be_len(n, 2);
    }
    assert forall|n: nat| (#[trigger] crate::wire::be(n, 4)).len() == 4 by {
        crate::wire::lemma_be_len(n, 4);
    }
    assert forall|i: int| (#[trigger] crate::wire::le_signed(i, 8)).len() == 8 by {
        crate::wire::lemma_le_signed_len(i, 8);
    }
}

pub open spec fn envchange_database_bytes(db_name: Seq<char>) -> Seq<u8> {
    let name = crate::utf16::utf16le(db_name);
    seq![TOKEN_ENVCHANGE] + crate::wire::le(3 + 2 * name.len(), 2) + seq![1u8] + seq![
        short_len(db_name),
    ] + name + seq![short_len(db_name)] + name
}

/// Appends an ENVCHANGE token for a change of database.
pub fn write_envchange_database(buf: &mut BytesMut, db_name: &str)
    requires
        crate::buffer::fits(*old(buf), envchange_database_bytes(db_name@).len()),
    ensures
        crate::buffer::held(*final(buf)) == crate::buffer::held(*old(buf))
            + envchange_database_bytes(db_name@),
{
    let ghost h = crate::buffer::held(*buf);
    let name = encode_utf16le(db_name);
    let char_len: u8 = (char_count(db_name) % 256) as u8;
    proof {
        lemma_lens();
    }
    let body_len: u16 = low16(3 + 2 * name.len());
    put_u8(buf, TOKEN_ENVCHANGE);
    put_u16_le(buf, body_len);
    put_u8(buf, 1);
    put_u8(buf, char_len);
    put_slice(buf, name.as_slice());
    put_u8(buf, char_len);
    put_slice(buf, name.as_slice());
    proof {
        crate::wire::lemma_append7(
            h,
            seq![TOKEN_ENVCHANGE],
            crate::wire::le(3 + 2 * name@.len(), 2),
            seq![1u8],
            seq![char_len],
            name@,
            seq![char_len],
            name@,
        );
    }
}

pub open spec fn envchange_packet_size_bytes(size: nat) -> Seq<u8> {
    let text = crate::text::decimal(size);
    let new = crate::utf16::utf16le(text);
    let old = crate::utf16::utf16le("4096"@);
    seq![TOKEN_ENVCHANGE] + crate::wire::le(3 + new.len() + old.len(), 2) + seq![4u8] + seq![
        short_len(text),
    ] + new + seq![short_len("4096"@)] + old
}

/// Appends an ENVCHANGE token for a change of packet size.
pub fn write_envchange_packet_size(buf: &mut BytesMut, size: u32)
    requires
        crate::buffer::fits(*old(buf), envchange_packet_size_bytes(size as nat).len()),
    ensures
        crate::buffer::held(*final(buf)) == crate::buffer::held(*old(buf))
            + envchange_packet_size_bytes(size as nat),
{
    let ghost h = crate::buffer::held(*buf);
    let text = decimal_text(size as u64);
    let new = encode_utf16le(text.as_str());
    let old_size = encode_utf16le("4096");
    proof {
        lemma_lens();
    }
    let body_len: u16 = low16(3 + new.len() + old_size.len());
    put_u8(buf, TOKEN_ENVCHANGE);
    put_u16_le(buf, body_len);
    put_u8(buf, 4);
    put_u8(buf, (char_count(text.as_str()) % 256) as u8);
    put_slice(buf, new.as_slice());
    put_u8(buf, (char_count("4096") % 256) as u8);
    put_slice(buf, old_size.as_slice());
    proof {
        crate::wire::lemma_append7(
            h,
            seq![TOKEN_ENVCHANGE],
            crate::wire::le(3 + new@.len() + old_size@.len(), 2),
            seq![4u8],
            seq![short_len(text@)],
            new@,
            seq![short_len("4096"@)],
            old_size@,
        );
    }
}

/// The front of an INFO or ERROR token: type, length, number, state, class.
pub open spec fn message_head_bytes(token: u8, body_len: nat, number: nat, state: u8) -> Seq<u8> {
    seq![token] + crate::wire::le(body_len, 2) + crate::wire::le(number, 4) + seq![state] + seq![
        if token == TOKEN_ERROR {
            14u8
        } else {
            0u8
        },
    ]
}

pub open spec fn message_bytes(
    token: u8,
    number: nat,
    state: u8,
    message: Seq<char>,
    server_name: Seq<char>,
    proc_name: Seq<char>,
    line: nat,
) -> Seq<u8> {
    let msg = crate::utf16::utf16le(message);
    let srv = crate::utf16::utf16le(server_name);
    let prc = crate::utf16::utf16le(proc_name);
    message_head_bytes(token, 14 + msg.len() + srv.len() + prc.len(), number, state)
        + message_text_bytes(message, server_name, proc_name) + crate::wire::le(line, 4)
}

/// The texts of an INFO or ERROR token, each with its length in characters
/// in front.
pub open spec fn message_text_bytes(
    message: Seq<char>,
    server_name: Seq<char>,
    proc_name: Seq<char>,
) -> Seq<u8> {
    crate::wire::le(message.len(), 2) + crate::utf16::utf16le(message) + seq![
        short_len(server_name),
    ] + crate::utf16::utf16le(server_name) + seq![short_len(proc_name)] + crate::utf16::utf16le(
        proc_name,
    )
}

pub open spec fn info_bytes(number: nat, message: Seq<char>) -> Seq<u8> {
    message_bytes(TOKEN_INFO, number, 1, message, ""@, ""@, 0)
}

pub open spec fn error_bytes(number: nat, message: Seq<char>) -> Seq<u8> {
    message_bytes(TOKEN_ERROR, number, 14, message, ""@, ""@, 0)
}

/// Appends an INFO token.
pub fn write_info(buf: &mut BytesMut, number: u32, message: &str)
    requires
        crate::buffer::fits(*old(buf), info_bytes(number as nat, message@).len()),
    ensures
        crate::buffer::held(*final(buf)) == crate::buffer::held(*old(buf)) + info_bytes(
            number as nat,
            message@,
        ),
{
    write_info_or_error(buf, TOKEN_INFO, number, 1, message, "", "", 0);
}

/// Appends an ERROR token.
pub fn write_error(buf: &mut BytesMut, number: u32, message: &str)
    requires
        crate::buffer::fits(*old(buf), error_bytes(number as nat, message@).len()),
    ensures
        crate::buffer::held(*final(buf)) == crate::buffer::held(*old(buf)) + error_bytes(
            number as nat,
            message@,
        ),
{
    write_info_or_error(buf, TOKEN_ERROR, number, 14, message, "", "", 0);
}

/// Appends an INFO or ERROR token.
pub fn write_info_or_error(
    buf: &mut BytesMut,
    token: u8,
    number: u32,
    state: u8,
    message: &str,
    server_name: &str,
    proc_name: &str,
    line: u32,
)
    requires
        crate::buffer::fits(
            *old(buf),
            message_bytes(
                token,
                number as nat,
                state,
                message@,
                server_name@,
                proc_name@,
                line as nat,
            ).len(),
        ),
    ensures
        crate::buffer::held(*final(buf)) == crate::buffer::held(*old(buf)) + message_bytes(
            token,
            number as nat,
            state,
            message@,
            server_name@,
            proc_name@,
            line as nat,
        ),
{
    let ghost h = crate::buffer::held(*buf);
    let msg = encode_utf16le(message);
    let srv = encode_utf16le(server_name);
    let prc = encode_utf16le(proc_name);
    proof {
        lemma_lens();
    }
    write_message_head(buf, token, 14 + msg.len() + srv.len() + prc.len(), number, state);
    write_message_texts(buf, message, server_name, proc_name);
    put_u32_le(buf, line);
    proof {
        crate::wire::lemma_append3(
            h,
            message_head_bytes(token, 14 + msg@.len() + srv@.len() + prc@.len(), number as nat, state),
            message_text_bytes(message@, server_name@, proc_name@),
            crate::wire::le(line as nat, 4),
        );
    }
}

fn write_message_head(buf: &mut BytesMut, token: u8, body_len: usize, number: u32, state: u8)
    requires
        crate::buffer::fits(
            *old(buf),
            message_head_bytes(token, body_len as nat, number as nat, state).len(),
        ),
    ensures
        crate::buffer::held(*final(buf)) == crate::buffer::held(*old(buf)) + message_head_bytes(
            token,
            body_len as nat,
            number as nat,
            state,
        ),
{
    let ghost h = crate::buffer::held(*buf);
    proof {
        lemma_lens();
    }
    put_u8(buf, token);
    put_u16_le(buf, low16(body_len));
    put_u32_le(buf, number);
    put_u8(buf, state);
    let class: u8 = if token == TOKEN_ERROR {
        14
    } else {
        0
    };
    put_u8(buf, class);
    proof {
        crate::wire::lemma_append5(
            h,
            seq![token],
            crate::wire::le(body_len as nat, 2),
            crate::wire::le(number as nat, 4),
            seq![state],
            seq![class],
        );
    }
}

fn write_message_texts(buf: &mut BytesMut, message: &str, server_name: &str, proc_name: &str)
    requires
        crate::buffer::fits(
            *old(buf),
            message_text_bytes(message@, server_name@, proc_name@).len(),
        ),
    ensures
        crate::buffer::held(*final(buf)) == crate::buffer::held(*old(buf)) + message_text_bytes(
            message@,
            server_name@,
            proc_name@,
        ),
{
    let ghost h = crate::buffer::held(*buf);
    let msg = encode_utf16le(message);
    let srv = encode_utf16le(server_name);
    let prc = encode_utf16le(proc_name);
    proof {
        lemma_lens();
    }
    put_u16_le(buf, low16(char_count(message)));
    put_slice(buf, msg.as_slice());
    put_u8(buf, (char_count(server_name) % 256) as u8);
    put_slice(buf, srv.as_slice());
    put_u8(buf, (char_count(proc_name) % 256) as u8);
    put_slice(buf, prc.as_slice());
    proof {
        crate::wire::lemma_append6(
            h,
            crate::wire::le(message@.len(), 2),
            msg@,
            seq![short_len(server_name@)],
            srv@,
            seq![short_len(proc_name@)],
            prc@,
        );
    }
}

/// The default collation, SQL_Latin1_General_CP1_CI_AS.
pub open spec fn collation() -> Seq<u8> {
    seq![0x09u8, 0x04u8, 0xD0u8, 0x00u8, 0x34u8]
}

/// The type information of a column.
pub open spec fn type_info(t: TdsType) -> Seq<u8> {
    match t {
        TdsType::BigInt => seq![TYPE_INTN] + seq![8u8],
        TdsType::Float8 => seq![TYPE_FLTN] + seq![8u8],
        TdsType::NVarChar => seq![TYPE_NVARCHAR] + crate::wire::le(8000, 2) + collation(),
        TdsType::VarBinary => seq![TYPE_BIGVARBINARY] + crate::wire::le(8000, 2),
    }
}

/// One column's metadata: user type, flags, type, name.
pub open spec fn column_bytes(c: WireColumn) -> Seq<u8> {
    crate::wire::le(0, 4) + crate::wire::le(8, 2) + type_info(c.tds_type) + seq![
        short_len(c.name),
    ] + crate::utf16::utf16le(c.name)
}

/// The metadata of the columns from `i` on.
pub open spec fn columns_bytes(columns: Seq<WireColumn>, i: int) -> Seq<u8>
    decreases columns.len() - i,
{
    if i >= columns.len() {
        Seq::empty()
    } else {
        column_bytes(columns[i]) + columns_bytes(columns, i + 1)
    }
}

pub open spec fn colmetadata_bytes(columns: Seq<WireColumn>) -> Seq<u8> {
    seq![TOKEN_COLMETADATA] + crate::wire::le(columns.len(), 2) + columns_bytes(columns, 0)
}

fn write_type_info(buf: &mut BytesMut, t: TdsType)
    requires
        crate::buffer::fits(*old(buf), type_info(t).len()),
    ensures
        crate::buffer::held(*final(buf)) == crate::buffer::held(*old(buf)) + type_info(t),
{
    let ghost h = crate::buffer::held(*buf);
    proof {
        lemma_lens();
    }
    match t {
        TdsType::BigInt => {
            put_u8(buf, TYPE_INTN);
            put_u8(buf, 8);
            proof {
                crate::wire::lemma_append2(h, seq![TYPE_INTN], seq![8u8]);
            }
        },
        TdsType::Float8 => {
            put_u8(buf, TYPE_FLTN);
            put_u8(buf, 8);
            proof {
                crate::wire::lemma_append2(h, seq![TYPE_FLTN], seq![8u8]);
            }
        },
        TdsType::NVarChar => {
            let default_collation: [u8; 5] = [0x09, 0x04, 0xD0, 0x00, 0x34];
            assert(default_collation@ =~= collation());
            put_u8(buf, TYPE_NVARCHAR);
            put_u16_le(buf, 8000);
            put_slice(buf, default_collation.as_slice());
            proof {
                crate::wire::lemma_append3(
                    h,
                    seq![TYPE_NVARCHAR],
                    crate::wire::le(8000, 2),
                    collation(),
                );
            }
        },
        TdsType::VarBinary => {
            put_u8(buf, TYPE_BIGVARBINARY);
            put_u16_le(buf, 8000);
            proof {
                crate::wire::lemma_append2(h, seq![TYPE_BIGVARBINARY], crate::wire::le(8000, 2));
            }
        },
    }
}

fn write_column(buf: &mut BytesMut, col: &TdsColumn)
    requires
        crate::buffer::fits(*old(buf), column_bytes(col@).len()),
    ensures
        crate::buffer::held(*final(buf)) == crate::buffer::held(*old(buf)) + column_bytes(col@),
{
    let ghost h = crate::buffer::held(*buf);
    proof {
        lemma_lens();
    }
    let name = encode_utf16le(col.name.as_str());
    put_u32_le(buf, 0);
    put_u16_le(buf, 0x08);
    write_type_info(buf, col.tds_type);
    put_u8(buf, (char_count(col.name.as_str()) % 256) as u8);
    put_slice(buf, name.as_slice());
    proof {
        crate::wire::lemma_append5(
            h,
            crate::wire::le(0, 4),
            crate::wire::le(8, 2),
            type_info(col.tds_type),
            seq![short_len(col.name@)],
            name@,
        );
    }
}

/// Appends a COLMETADATA token.
pub fn write_colmetadata(buf: &mut BytesMut, columns: &[TdsColumn])
    requires
        crate::buffer::fits(*old(buf), colmetadata_bytes(column_views(columns@)).len()),
    ensures
        crate::buffer::held(*final(buf)) == crate::buffer::held(*old(buf)) + colmetadata_bytes(
            column_views(columns@),
        ),
{
    let ghost h = crate::buffer::held(*buf);
    proof {
        lemma_lens();
    }
    let ghost whole = h + colmetadata_bytes(column_views(columns@));
    put_u8(buf, TOKEN_COLMETADATA);
    put_u16_le(buf, low16(columns.len()));
    proof {
        crate::wire::lemma_append3(
            h,
            seq![TOKEN_COLMETADATA],
            crate::wire::le(columns@.len(), 2),
            columns_bytes(column_views(columns@), 0),
        );
    }
    let mut i: usize = 0;
    while i < columns.len()
        invariant
            i <= columns@.len(),
            whole.len() <= isize::MAX,
            whole == crate::buffer::held(*buf) + columns_bytes(column_views(columns@), i as int),
        decreases columns.len() - i,
    {
        let ghost here = crate::buffer::held(*buf);
        write_column(buf, &columns[i]);
        i += 1;
        proof {
            crate::wire::lemma_append2(
                here,
                column_bytes(columns@[i - 1]@),
                columns_bytes(column_views(columns@), i as int),
            );
        }
    }
    assert(crate::buffer::held(*buf) + Seq::<u8>::empty() == crate::buffer::held(*buf));
}

/// A text with its length in bytes in front.
pub open spec fn nvarchar_bytes(s: Seq<char>) -> Seq<u8> {
    crate::wire::le(crate::utf16::utf16le(s).len(), 2) + crate::utf16::utf16le(s)
}

/// A value in a column of type `t`. `as_double` is the value as a double, in
/// IEEE 754 representation, where it has one: an integer or a text in a
/// float column is written as that, or as null.
pub open spec fn value_bytes(
    v: crate::backend::Datum,
    t: TdsType,
    as_double: Option<u64>,
) -> Seq<u8> {
    match v {
        crate::backend::Datum::Null => match t {
            TdsType::BigInt => seq![0u8],
            TdsType::Float8 => seq![0u8],
            TdsType::NVarChar => crate::wire::le(0xFFFF, 2),
            TdsType::VarBinary => crate::wire::le(0xFFFF, 2),
        },
        crate::backend::Datum::Integer(i) => match t {
            TdsType::BigInt => bigint_bytes(i),
            TdsType::Float8 => float_bytes(as_double),
            _ => nvarchar_bytes(crate::text::signed_decimal(i as int)),
        },
        crate::backend::Datum::Float(d) => match t {
            TdsType::BigInt => bigint_bytes(d.whole),
            TdsType::Float8 => float_bytes(Some(d.bits)),
            _ => nvarchar_bytes(d.text),
        },
        crate::backend::Datum::Text(s) => match t {
            TdsType::BigInt => match crate::text::i64_value(s) {
                Some(i) => bigint_bytes(i),
                None => seq![0u8],
            },
            TdsType::Float8 => float_bytes(as_double),
            _ => nvarchar_bytes(s),
        },
        crate::backend::Datum::Blob(b) => match t {
            TdsType::VarBinary => varbinary_bytes(b),
            _ => nvarchar_bytes(crate::text::hex_text(b)),
        },
    }
}

/// Binary data with its length in front.
pub open spec fn varbinary_bytes(b: Seq<u8>) -> Seq<u8> {
    crate::wire::le(b.len(), 2) + b
}

pub open spec fn bigint_bytes(i: i64) -> Seq<u8> {
    seq![8u8] + crate::wire::le_signed(i as int, 8)
}

pub open spec fn float_bytes(bits: Option<u64>) -> Seq<u8> {
    match bits {
        Some(bits) => seq![8u8] + crate::wire::le(bits as nat, 8),
        None => seq![0u8],
    }
}

/// Appends a text with its length in bytes in front.
pub fn write_nvarchar(buf: &mut BytesMut, s: &str)
    requires
        crate::buffer::fits(*old(buf), nvarchar_bytes(s@).len()),
    ensures
        crate::buffer::held(*final(buf)) == crate::buffer::held(*old(buf)) + nvarchar_bytes(s@),
{
    let ghost h = crate::buffer::held(*buf);
    proof {
        lemma_lens();
    }
    let utf16 = encode_utf16le(s);
    put_u16_le(buf, low16(utf16.len()));
    put_slice(buf, utf16.as_slice());
    proof {
        crate::wire::lemma_append2(h, crate::wire::le(utf16@.len(), 2), utf16@);
    }
}

/// Bytes in hexadecimal.
pub fn hex_encode(data: &[u8]) -> (r: String)
    ensures
        r@ == crate::text::hex_text(data@),
{
    let mut r: String = String::new();
    let mut i: usize = 0;
    while i < data.len()
        invariant
            i <= data@.len(),
            r@ == crate::text::hex_text(data@.take(i as int)),
        decreases data.len() - i,
    {
        r.push(crate::text::hex_char(data[i] / 16));
        r.push(crate::text::hex_char(data[i] % 16));
        i += 1;
        assert(r@ =~= crate::text::hex_text(data@.take(i as int)));
    }
    assert(data@.take(i as int) == data@);
    r
}

fn write_bigint(buf: &mut BytesMut, i: i64)
    requires
        crate::buffer::fits(*old(buf), bigint_bytes(i).len()),
    ensures
        crate::buffer::held(*final(buf)) == crate::buffer::held(*old(buf)) + bigint_bytes(i),
{
    let ghost h = crate::buffer::held(*buf);
    proof {
        lemma_lens();
    }
    put_u8(buf, 8);
    put_i64_le(buf, i);
    proof {
        crate::wire::lemma_append2(h, seq![8u8], crate::wire::le_signed(i as int, 8));
    }
}

fn write_float(buf: &mut BytesMut, bits: Option<u64>)
    requires
        crate::buffer::fits(*old(buf), float_bytes(bits).len()),
    ensures
        crate::buffer::held(*final(buf)) == crate::buffer::held(*old(buf)) + float_bytes(bits),
{
    let ghost h = crate::buffer::held(*buf);
    proof {
        lemma_lens();
    }
    match bits {
        Some(bits) => {
            put_u8(buf, 8);
            put_u64_le(buf, bits);
            proof {
                crate::wire::lemma_append2(h, seq![8u8], crate::wire::le(bits as nat, 8));
            }
        },
        None => {
            put_u8(buf, 0);
        },
    }
}

fn write_varbinary(buf: &mut BytesMut, b: &[u8])
    requires
        crate::buffer::fits(*old(buf), varbinary_bytes(b@).len()),
    ensures
        crate::buffer::held(*final(buf)) == crate::buffer::held(*old(buf)) + varbinary_bytes(b@),
{
    let ghost h = crate::buffer::held(*buf);
    proof {
        lemma_lens();
    }
    put_u16_le(buf, low16(b.len()));
    put_slice(buf, b);
    proof {
        crate::wire::lemma_append2(h, crate::wire::le(b@.len(), 2), b@);
    }
}

/// Appends one value.
pub fn write_value(buf: &mut BytesMut, val: &Value, tds_type: TdsType, as_double: Option<u64>)
    requires
        crate::buffer::fits(*old(buf), value_bytes(val@, tds_type, as_double).len()),
    ensures
        crate::buffer::held(*final(buf)) == crate::buffer::held(*old(buf)) + value_bytes(
            val@,
            tds_type,
            as_double,
        ),
{
    proof {
        crate::wire::lemma_le_len(0xFFFF, 2);
    }
    match val {
        Value::Null => match tds_type {
            TdsType::BigInt => put_u8(buf, 0),
            TdsType::Float8 => put_u8(buf, 0),
            TdsType::NVarChar => put_u16_le(buf, 0xFFFF),
            TdsType::VarBinary => put_u16_le(buf, 0xFFFF),
        },
        Value::Integer(i) => match tds_type {
            TdsType::BigInt => write_bigint(buf, *i),
            TdsType::Float8 => write_float(buf, as_double),
            _ => {
                let s = signed_decimal_text(*i);
                write_nvarchar(buf, s.as_str());
            },
        },
        Value::Float(d) => match tds_type {
            TdsType::Float8 => write_float(buf, Some(d.bits)),
            TdsType::BigInt => write_bigint(buf, d.whole),
            _ => write_nvarchar(buf, d.text.as_str()),
        },
        Value::Text(s) => match tds_type {
            TdsType::BigInt => match parse_i64(s.as_str()) {
                Some(i) => write_bigint(buf, i),
                None => put_u8(buf, 0),
            },
            TdsType::Float8 => write_float(buf, as_double),
            _ => write_nvarchar(buf, s.as_str()),
        },
        Value::Blob(b) => match tds_type {
            TdsType::VarBinary => write_varbinary(buf, b.as_slice()),
            _ => {
                let hex = hex_encode(b.as_slice());
                write_nvarchar(buf, hex.as_str());
            },
        },
    }
}

/// The type of the column at `i`; a cell beyond the columns is text.
pub open spec fn type_at(columns: Seq<WireColumn>, i: int) -> TdsType {
    if i < columns.len() {
        columns[i].tds_type
    } else {
        TdsType::NVarChar
    }
}

/// The double of the cell at `i`, if it is known.
pub open spec fn double_at(as_doubles: Seq<Option<u64>>, i: int) -> Option<u64> {
    if i < as_doubles.len() {
        as_doubles[i]
    } else {
        None
    }
}

/// The cells from `i` on.
pub open spec fn cells_bytes(
    columns: Seq<WireColumn>,
    row: Seq<Value>,
    as_doubles: Seq<Option<u64>>,
    i: int,
) -> Seq<u8>
    decreases row.len() - i,
{
    if i >= row.len() {
        Seq::empty()
    } else {
        value_bytes(row[i]@, type_at(columns, i), double_at(as_doubles, i)) + cells_bytes(
            columns,
            row,
            as_doubles,
            i + 1,
        )
    }
}

pub open spec fn row_bytes(
    columns: Seq<WireColumn>,
    row: Seq<Value>,
    as_doubles: Seq<Option<u64>>,
) -> Seq<u8> {
    seq![TOKEN_ROW] + cells_bytes(columns, row, as_doubles, 0)
}

/// Appends a ROW token. `as_doubles` holds the cells as doubles; see
/// [`value_bytes`].
pub fn write_row(
    buf: &mut BytesMut,
    columns: &[TdsColumn],
    row: &[Value],
    as_doubles: &[Option<u64>],
)
    requires
        crate::buffer::fits(*old(buf), row_bytes(column_views(columns@), row@, as_doubles@).len()),
    ensures
        crate::buffer::held(*final(buf)) == crate::buffer::held(*old(buf)) + row_bytes(
            column_views(columns@),
            row@,
            as_doubles@,
        ),
{
    let ghost h = crate::buffer::held(*buf);
    let ghost whole = h + row_bytes(column_views(columns@), row@, as_doubles@);
    put_u8(buf, TOKEN_ROW);
    proof {
        crate::wire::lemma_append2(
            h,
            seq![TOKEN_ROW],
            cells_bytes(column_views(columns@), row@, as_doubles@, 0),
        );
    }
    let mut i: usize = 0;
    while i < row.len()
        invariant
            i <= row@.len(),
            whole.len() <= isize::MAX,
            whole == crate::buffer::held(*buf) + cells_bytes(
                column_views(columns@),
                row@,
                as_doubles@,
                i as int,
            ),
        decreases row.len() - i,
    {
        let tds_type = if i < columns.len() {
            columns[i].tds_type
        } else {
            TdsType::NVarChar
        };
        let as_double: Option<u64> = if i < as_doubles.len() {
            as_doubles[i]
        } else {
            None
        };
        let ghost here = crate::buffer::held(*buf);
        write_value(buf, &row[i], tds_type, as_double);
        i += 1;
        proof {
            crate::wire::lemma_append2(
                here,
                value_bytes(row@[i - 1]@, tds_type, as_double),
                cells_bytes(column_views(columns@), row@, as_doubles@, i as int),
            );
        }
    }
    assert(crate::buffer::held(*buf) + Seq::<u8>::empty() == crate::buffer::held(*buf));
}

pub open spec fn begin_tran_bytes(tran_id: nat) -> Seq<u8> {
    seq![TOKEN_ENVCHANGE] + crate::wire::le(11, 2) + seq![8u8] + seq![8u8] + crate::wire::le(
        tran_id,
        8,
    ) + seq![0u8]
}

pub open spec fn end_tran_bytes(kind: u8, old_tran_id: nat) -> Seq<u8> {
    seq![TOKEN_ENVCHANGE] + crate::wire::le(11, 2) + seq![kind] + seq![0u8] + seq![8u8]
        + crate::wire::le(old_tran_id, 8)
}

/// Appends an ENVCHANGE token for the begin of a transaction.
pub fn write_envchange_begin_tran(buf: &mut BytesMut, tran_id: u64)
    requires
        crate::buffer::fits(*old(buf), 14),
    ensures
        crate::buffer::held(*final(buf)) == crate::buffer::held(*old(buf)) + begin_tran_bytes(
            tran_id as nat,
        ),
{
    let ghost h = crate::buffer::held(*buf);
    proof {
        lemma_lens();
    }
    put_u8(buf, TOKEN_ENVCHANGE);
    put_u16_le(buf, 11);
    put_u8(buf, 8);
    put_u8(buf, 8);
    put_u64_le(buf, tran_id);
    put_u8(buf, 0);
    proof {
        crate::wire::lemma_append6(
            h,
            seq![TOKEN_ENVCHANGE],
            crate::wire::le(11, 2),
            seq![8u8],
            seq![8u8],
            crate::wire::le(tran_id as nat, 8),
            seq![0u8],
        );
    }
}

fn write_envchange_end_tran(buf: &mut BytesMut, kind: u8, old_tran_id: u64)
    requires
        crate::buffer::fits(*old(buf), 14),
    ensures
        crate::buffer::held(*final(buf)) == crate::buffer::held(*old(buf)) + end_tran_bytes(
            kind,
            old_tran_id as nat,
        ),
{
    let ghost h = crate::buffer::held(*buf);
    proof {
        lemma_lens();
    }
    put_u8(buf, TOKEN_ENVCHANGE);
    put_u16_le(buf, 11);
    put_u8(buf, kind);
    put_u8(buf, 0);
    put_u8(buf, 8);
    put_u64_le(buf, old_tran_id);
    proof {
        crate::wire::lemma_append6(
            h,
            seq![TOKEN_ENVCHANGE],
            crate::wire::le(11, 2),
            seq![kind],
            seq![0u8],
            seq![8u8],
            crate::wire::le(old_tran_id as nat, 8),
        );
    }
}

/// Appends an ENVCHANGE token for a commit.
pub fn write_envchange_commit_tran(buf: &mut BytesMut, old_tran_id: u64)
    requires
        crate::buffer::fits(*old(buf), 14),
    ensures
        crate::buffer::held(*final(buf)) == crate::buffer::held(*old(buf)) + end_tran_bytes(
            9,
            old_tran_id as nat,
        ),
{
    write_envchange_end_tran(buf, 9, old_tran_id);
}

/// Appends an ENVCHANGE token for a rollback.
pub fn write_envchange_rollback_tran(buf: &mut BytesMut, old_tran_id: u64)
    requires
        crate::buffer::fits(*old(buf), 14),
    ensures
        crate::buffer::held(*final(buf)) == crate::buffer::held(*old(buf)) + end_tran_bytes(
            10,
            old_tran_id as nat,
        ),
{
    write_envchange_end_tran(buf, 10, old_tran_id);
}

pub open spec fn done_bytes(status: u16, row_count: nat) -> Seq<u8> {
    seq![TOKEN_DONE] + crate::wire::le(status as nat, 2) + crate::wire::le(0, 2)
        + crate::wire::le(row_count, 8)
}

/// Appends a DONE token.
pub fn write_done(buf: &mut BytesMut, status: u16, row_count: u64)
    requires
        crate::buffer::fits(*old(buf), 13),
    ensures
        crate::buffer::held(*final(buf)) == crate::buffer::held(*old(buf)) + done_bytes(
            status,
            row_count as nat,
        ),
{
    let ghost h = crate::buffer::held(*buf);
    proof {
        lemma_lens();
    }
    put_u8(buf, TOKEN_DONE);
    put_u16_le(buf, status);
    put_u16_le(buf, 0);
    put_u64_le(buf, row_count);
    proof {
        crate::wire::lemma_append4(
            h,
            seq![TOKEN_DONE],
            crate::wire::le(status as nat, 2),
            crate::wire::le(0, 2),
            crate::wire::le(row_count as nat, 8),
        );
    }
}

} // verus!
