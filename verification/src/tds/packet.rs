//! TDS packet framing.
//!
//! A TDS message travels as one or more packets with a header of eight
//! bytes each. A [`MessageReader`] puts a message together from its packets;
//! [`write_message`] cuts one into packets.
use crate::buffer::{buffer_is_empty, new_buffer, put_slice, put_u16, put_u8};
use bytes::BytesMut;
use vstd::prelude::*;
use vstd::slice::slice_subrange;

verus! {

/// The size of a packet header.
pub const HEADER_SIZE: usize = 8;

/// The largest packet, unless another size is negotiated.
pub const DEFAULT_PACKET_SIZE: usize = 4096;

/// The status bit of a message's last packet.
pub const STATUS_EOM: u8 = 0x01;

/// TDS packet types.
#[derive(Debug, Clone, Copy, PartialEq, Eq, Structural)]
pub enum PacketType {
    SqlBatch,
    RpcRequest,
    Response,
    Login7,
    PreLogin,
}

/// The number of a packet type.
pub open spec fn type_code(t: PacketType) -> u8 {
    match t {
        PacketType::SqlBatch => 0x01,
        PacketType::RpcRequest => 0x03,
        PacketType::Response => 0x04,
        PacketType::Login7 => 0x10,
        PacketType::PreLogin => 0x12,
    }
}

/// The packet type of a number.
pub open spec fn code_type(b: u8) -> Option<PacketType> {
    if b == 0x01 {
        Some(PacketType::SqlBatch)
    } else if b == 0x03 {
        Some(PacketType::RpcRequest)
    } else if b == 0x04 {
        Some(PacketType::Response)
    } else if b == 0x10 {
        Some(PacketType::Login7)
    } else if b == 0x12 {
        Some(PacketType::PreLogin)
    } else {
        None
    }
}

impl PacketType {
    pub fn from_u8(b: u8) -> (r: Option<PacketType>)
        ensures
            r == code_type(b),
    {
        if b == 0x01 {
            Some(PacketType::SqlBatch)
        } else if b == 0x03 {
            Some(PacketType::RpcRequest)
        } else if b == 0x04 {
            Some(PacketType::Response)
        } else if b == 0x10 {
            Some(PacketType::Login7)
        } else if b == 0x12 {
            Some(PacketType::PreLogin)
        } else {
            None
        }
    }

    /// The number of the packet type.
    pub fn code(self) -> (r: u8)
        ensures
            r == type_code(self),
    {
        match self {
            PacketType::SqlBatch => 0x01,
            PacketType::RpcRequest => 0x03,
            PacketType::Response => 0x04,
            PacketType::Login7 => 0x10,
            PacketType::PreLogin => 0x12,
        }
    }

    /// The name of the packet type.
    pub fn name(self) -> (r: &'static str)
        ensures
            r@ == packet_name(self),
    {
        match self {
            PacketType::SqlBatch => "SqlBatch",
            PacketType::RpcRequest => "RpcRequest",
            PacketType::Response => "Response",
            PacketType::Login7 => "Login7",
            PacketType::PreLogin => "PreLogin",
        }
    }
}

pub open spec fn packet_name(t: PacketType) -> Seq<char> {
    match t {
        PacketType::SqlBatch => "SqlBatch"@,
        PacketType::RpcRequest => "RpcRequest"@,
        PacketType::Response => "Response"@,
        PacketType::Login7 => "Login7"@,
        PacketType::PreLogin => "PreLogin"@,
    }
}

/// A type's number is its own.
pub proof fn law_type_code_reads_back(t: PacketType)
    ensures
        code_type(type_code(t)) == Some(t),
{
}

/// A complete message.
#[derive(Debug)]
pub struct TdsMessage {
    pub packet_type: PacketType,
    pub payload: BytesMut,
}

/// The payload length that a header announces; a length below that of the
/// header itself announces none.
pub open spec fn payload_len(header: Seq<u8>) -> nat {
    let total = 256 * (header[2] as nat) + header[3] as nat;
    if total < 8 {
        0
    } else {
        (total - 8) as nat
    }
}

/// The header belongs to the last packet of a message.
pub open spec fn is_last(header: Seq<u8>) -> bool {
    header[1] % 2 == 1
}

/// Puts a message together from its packets.
#[derive(Debug)]
pub struct MessageReader {
    /// The type of the first packet that has a known one.
    pub packet_type: Option<PacketType>,
    pub payload: BytesMut,
    /// The packet at hand is the message's last.
    pub last: bool,
}

/// Why a message cannot be read.
#[derive(Debug, Clone, Copy, PartialEq, Eq, Structural)]
pub enum ReadError {
    /// The input ended inside a message.
    UnexpectedEof,
    /// No packet of the message had a known type.
    UnknownType,
}

impl ReadError {
    pub fn message(self) -> (r: &'static str)
        ensures
            r@ == match self {
                ReadError::UnexpectedEof => "early eof"@,
                ReadError::UnknownType => "unknown TDS packet type"@,
            },
    {
        match self {
            ReadError::UnexpectedEof => "early eof",
            ReadError::UnknownType => "unknown TDS packet type",
        }
    }
}

impl MessageReader {
    pub fn new() -> (r: MessageReader)
        ensures
            r.packet_type is None,
            crate::buffer::held(r.payload) == Seq::<u8>::empty(),
            !r.last,
    {
        MessageReader { packet_type: None, payload: new_buffer(), last: false }
    }

    /// Takes the header of the next packet and tells how many bytes of
    /// payload follow it.
    pub fn begin_packet(&mut self, header: [u8; 8]) -> (r: usize)
        ensures
            r == payload_len(header@),
            final(self).last == is_last(header@),
            final(self).payload == old(self).payload,
            final(self).packet_type == if old(self).packet_type is Some {
                old(self).packet_type
            } else {
                code_type(header[0])
            },
    {
        if self.packet_type.is_none() {
            self.packet_type = PacketType::from_u8(header[0]);
        }
        self.last = header[1] % 2 == 1;
        let length: usize = 256 * (header[2] as usize) + header[3] as usize;
        length.saturating_sub(HEADER_SIZE)
    }

    /// Takes the payload of the packet at hand.
    pub fn add_payload(&mut self, bytes: &[u8])
        requires
            crate::buffer::fits(old(self).payload, bytes@.len()),
        ensures
            final(self).last == old(self).last,
            final(self).packet_type == old(self).packet_type,
            crate::buffer::held(final(self).payload) == crate::buffer::held(old(self).payload)
                + bytes@,
    {
        put_slice(&mut self.payload, bytes);
    }

    /// The input ended where a header should begin. That is the end of the
    /// connection where nothing of a message came yet.
    pub fn end_of_input(&self) -> (r: Result<(), ReadError>)
        ensures
            r == if crate::buffer::held(self.payload).len() == 0 {
                Ok::<(), ReadError>(())
            } else {
                Err(ReadError::UnexpectedEof)
            },
    {
        if buffer_is_empty(&self.payload) {
            Ok(())
        } else {
            Err(ReadError::UnexpectedEof)
        }
    }

    /// The message, once its last packet is in.
    pub fn finish(self) -> (r: Result<TdsMessage, ReadError>)
        ensures
            match self.packet_type {
                Some(t) => r == Ok::<TdsMessage, ReadError>(
                    (TdsMessage { packet_type: t, payload: self.payload }),
                ),
                None => r == Err::<TdsMessage, ReadError>(ReadError::UnknownType),
            },
    {
        match self.packet_type {
            Some(t) => Ok(TdsMessage { packet_type: t, payload: self.payload }),
            None => Err(ReadError::UnknownType),
        }
    }
}

/// A packet header: type, status, length, process id, packet id, window.
/// `index` counts the packets of the message from 0.
pub open spec fn header_bytes(t: PacketType, last: bool, len: nat, index: nat) -> Seq<u8> {
    seq![type_code(t), if last { STATUS_EOM } else { 0u8 }] + crate::wire::be(8 + len, 2)
        + crate::wire::be(0, 2) + seq![((index + 1) % 256) as u8, 0u8]
}

/// `data` in packets of at most `room` bytes of payload, from packet number
/// `index` on. Empty data is one empty packet.
pub open spec fn framed(t: PacketType, data: Seq<u8>, room: nat, index: nat) -> Seq<u8>
    decreases data.len(),
{
    if room == 0 || data.len() <= room {
        header_bytes(t, true, data.len(), index) + data
    } else {
        header_bytes(t, false, room, index) + data.take(room as int) + framed(
            t,
            data.skip(room as int),
            room,
            index + 1,
        )
    }
}

pub proof fn lemma_header_len(t: PacketType, last: bool, len: nat, index: nat)
    ensures
        header_bytes(t, last, len, index).len() == 8,
{
    crate::wire::lemma_be_len(8 + len, 2);
    crate::wire::lemma_be_len(0, 2);
}

/// Appends one packet.
fn put_packet(out: &mut BytesMut, t: PacketType, last: bool, chunk: &[u8], index: usize)
    requires
        crate::buffer::fits(*old(out), 8 + chunk@.len()),
        chunk@.len() <= usize::MAX - 8,
        index < usize::MAX,
    ensures
        crate::buffer::held(*final(out)) == crate::buffer::held(*old(out)) + (header_bytes(
            t,
            last,
            chunk@.len(),
            index as nat,
        ) + chunk@),
{
    let ghost h0 = crate::buffer::held(*out);
    let status: u8 = if last {
        STATUS_EOM
    } else {
        0x00
    };
    let total_len: u16 = ((HEADER_SIZE + chunk.len()) % 65536) as u16;
    proof {
        crate::wire::lemma_be_len(8 + chunk@.len(), 2);
        crate::wire::lemma_be_len(0, 2);
        crate::wire::lemma_be_len(total_len as nat, 2);
        crate::wire::lemma_be2_low(8 + chunk@.len());
    }
    put_u8(out, t.code());
    put_u8(out, status);
    put_u16(out, total_len);
    put_u16(out, 0);
    put_u8(out, ((index + 1) % 256) as u8);
    put_u8(out, 0);
    put_slice(out, chunk);
    assert(crate::buffer::held(*out) =~= h0 + (header_bytes(t, last, chunk@.len(), index as nat)
        + chunk@));
}

/// A message in packets of at most `max_packet_size` bytes. A packet that
/// holds a header and no more will do for a message without data.
pub fn write_message(packet_type: PacketType, data: &[u8], max_packet_size: usize) -> (r: BytesMut)
    requires
        max_packet_size > HEADER_SIZE || (max_packet_size == HEADER_SIZE && data@.len() == 0),
        framed(packet_type, data@, (max_packet_size - 8) as nat, 0).len() <= isize::MAX,
    ensures
        crate::buffer::held(r) == framed(packet_type, data@, (max_packet_size - 8) as nat, 0),
{
    let room: usize = max_packet_size - HEADER_SIZE;
    let ghost whole = framed(packet_type, data@, room as nat, 0);
    let mut out: BytesMut = new_buffer();
    let mut from: usize = 0;
    let mut index: usize = 0;
    assert(data@.skip(0) == data@);
    assert(crate::buffer::held(out) + whole == whole);
    while data.len() - from > room
        invariant
            room > 0 || data@.len() == 0,
            from <= data@.len(),
            index <= crate::buffer::held(out).len(),
            whole.len() <= isize::MAX,
            whole == crate::buffer::held(out) + framed(
                packet_type,
                data@.skip(from as int),
                room as nat,
                index as nat,
            ),
        decreases data.len() - from,
    {
        let ghost rest = data@.skip(from as int);
        let chunk = slice_subrange(data, from, from + room);
        assert(chunk@ == rest.take(room as int));
        assert(data@.skip(from + room) == rest.skip(room as int));
        proof {
            lemma_header_len(packet_type, false, room as nat, index as nat);
        }
        let ghost h0 = crate::buffer::held(out);
        put_packet(&mut out, packet_type, false, chunk, index);
        from += room;
        index += 1;
        assert(whole =~= crate::buffer::held(out) + framed(
            packet_type,
            data@.skip(from as int),
            room as nat,
            index as nat,
        ));
    }
    let chunk = slice_subrange(data, from, data.len());
    assert(chunk@ == data@.skip(from as int));
    proof {
        lemma_header_len(packet_type, true, chunk@.len(), index as nat);
    }
    put_packet(&mut out, packet_type, true, chunk, index);
    out
}

/// What reading a message from a stream comes to.
pub enum ReadOutcome {
    /// A message, and the bytes after it.
    Message { packet_type: PacketType, payload: Seq<u8>, rest: Seq<u8> },
    /// The connection ended between messages.
    Closed,
    /// The connection ended inside a message.
    Cut,
    /// A whole message of no known type.
    Unknown,
}

/// Reads one message from `input`, of which `payload` and the packet type
/// `t` are known already.
pub open spec fn read_from(t: Option<PacketType>, payload: Seq<u8>, input: Seq<u8>) -> ReadOutcome
    decreases input.len(),
{
    if input.len() < 8 {
        if payload.len() == 0 {
            ReadOutcome::Closed
        } else {
            ReadOutcome::Cut
        }
    } else {
        let n = payload_len(input);
        let now = if t is Some {
            t
        } else {
            code_type(input[0])
        };
        if input.len() < 8 + n {
            ReadOutcome::Cut
        } else {
            let all = payload + input.subrange(8, 8 + n as int);
            let rest = input.skip(8 + n as int);
            if is_last(input) {
                match now {
                    Some(t) => ReadOutcome::Message { packet_type: t, payload: all, rest },
                    None => ReadOutcome::Unknown,
                }
            } else {
                read_from(now, all, rest)
            }
        }
    }
}

/// One packet through a [`MessageReader`], header and payload, is one step of
/// [`read_from`].
pub proof fn law_reader_step(
    t: Option<PacketType>,
    payload: Seq<u8>,
    header: Seq<u8>,
    bytes: Seq<u8>,
    rest: Seq<u8>,
)
    requires
        header.len() == 8,
        bytes.len() == payload_len(header),
    ensures
        ({
            let now = if t is Some {
                t
            } else {
                code_type(header[0])
            };
            read_from(t, payload, header + bytes + rest) == if !is_last(header) {
                read_from(now, payload + bytes, rest)
            } else {
                match now {
                    Some(t) => (ReadOutcome::Message { packet_type: t, payload: payload + bytes, rest }),
                    None => ReadOutcome::Unknown,
                }
            }
        }),
{
    let input = header + bytes + rest;
    assert(payload_len(input) == payload_len(header));
    assert(input.subrange(8, 8 + bytes.len() as int) == bytes);
    assert(input.skip(8 + bytes.len() as int) == rest);
}

/// A message that was cut into packets is read back whole, whatever the size
/// of the packets.
pub proof fn law_message_reads_back(
    t: PacketType,
    known: Option<PacketType>,
    payload: Seq<u8>,
    data: Seq<u8>,
    room: nat,
    index: nat,
    rest: Seq<u8>,
)
    requires
        0 < room,
        room + 8 <= 65535,
        known is None || known == Some(t),
    ensures
        read_from(known, payload, framed(t, data, room, index) + rest) == (ReadOutcome::Message {
            packet_type: t,
            payload: payload + data,
            rest,
        }),
    decreases data.len(),
{
    let last = data.len() <= room;
    let chunk = if last {
        data
    } else {
        data.take(room as int)
    };
    let header = header_bytes(t, last, chunk.len(), index);
    let total = 8 + chunk.len();
    crate::wire::lemma_be2(total);
    crate::wire::lemma_be2(0);
    assert(total < 65536);
    assert(total / 256 < 256);
    assert(256 * (total / 256) + total % 256 == total);
    assert(header[0] == type_code(t));
    assert(header[2] as nat == total / 256);
    assert(header[3] as nat == total % 256);
    assert(payload_len(header) == chunk.len());
    law_type_code_reads_back(t);
    if last {
        law_reader_step(known, payload, header, chunk, rest);
        assert(framed(t, data, room, index) + rest == header + chunk + rest);
    } else {
        let more = framed(t, data.skip(room as int), room, index + 1);
        law_reader_step(known, payload, header, chunk, more + rest);
        assert(framed(t, data, room, index) + rest == header + chunk + (more + rest));
        law_message_reads_back(
            t,
            Some(t),
            payload + chunk,
            data.skip(room as int),
            room,
            index + 1,
            rest,
        );
        assert(payload + chunk + data.skip(room as int) == payload + data);
    }
}

} // verus!
