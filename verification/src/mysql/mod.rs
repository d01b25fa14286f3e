//! The MySQL frontend.
pub mod command_filter;
pub mod error_map;
pub mod filter_runs;
pub mod handler;
pub mod handler_laws;
pub mod native_password;
pub mod types;
pub mod wire_laws;

use crate::backend::conn_limit::{ConnectionLimiter, ConnectionSlot};
use vstd::prelude::*;

verus! {

/// "Too many connections".
pub const ER_CON_COUNT_ERROR: u16 = 1040;

pub open spec fn too_many_text(limit: nat) -> Seq<char> {
    "Too many connections (litewire max_connections="@ + crate::text::decimal(limit) + ")"@
}

/// The packet that refuses a connection in place of the handshake: length,
/// sequence id 0, marker, code and message. It has no SQLSTATE, which exists
/// only once the client has told its capabilities.
pub open spec fn too_many_bytes(limit: nat) -> Seq<u8> {
    let message = crate::text::utf8(too_many_text(limit));
    crate::wire::le(3 + message.len(), 3) + seq![0u8, 0xffu8] + crate::wire::le(
        ER_CON_COUNT_ERROR as nat,
        2,
    ) + message
}

/// The packet that refuses a connection over the limit.
pub fn too_many_packet(limit: usize) -> (r: Vec<u8>)
    ensures
        r@ == too_many_bytes(limit as nat),
{
    let mut message: String = "Too many connections (litewire max_connections=".to_owned();
    crate::text::push_decimal(&mut message, limit as u64);
    message.append(")");
    let text: &[u8] = message.as_str().as_bytes();
    let n: u128 = 3 + text.len() as u128;
    let mut packet: Vec<u8> = Vec::new();
    packet.push((n % 256) as u8);
    packet.push((n / 256 % 256) as u8);
    packet.push((n / 65536 % 256) as u8);
    packet.push(0);
    packet.push(0xff);
    packet.push((ER_CON_COUNT_ERROR % 256) as u8);
    packet.push((ER_CON_COUNT_ERROR / 256) as u8);
    packet.extend_from_slice(text);
    proof {
        crate::wire::lemma_le3(n as nat);
        crate::wire::lemma_le2(ER_CON_COUNT_ERROR as nat);
        assert(packet@ =~= too_many_bytes(limit as nat));
    }
    packet
}

/// What becomes of an accepted connection.
#[derive(Debug)]
pub enum Seating {
    /// It is served, and holds this slot until it ends.
    Serve(ConnectionSlot),
    /// It is sent this packet and closed.
    Refuse(Vec<u8>),
}

/// Decides over an accepted connection, given the slot that the limiter gave
/// for it.
pub fn seat(limiter: &ConnectionLimiter, slot: Option<ConnectionSlot>) -> (r: Seating)
    ensures
        match slot {
            Some(slot) => r == Seating::Serve(slot),
            None => r matches Seating::Refuse(packet) && packet@ == too_many_bytes(
                match limiter.limit {
                    Some(limit) => limit as nat,
                    None => 0,
                },
            ),
        },
{
    match slot {
        Some(slot) => Seating::Serve(slot),
        None => {
            let limit: usize = match limiter.limit() {
                Some(limit) => limit,
                None => 0,
            };
            Seating::Refuse(too_many_packet(limit))
        },
    }
}

/// How a connection gets its backend.
#[derive(Clone, Copy, Debug, PartialEq, Eq, Structural)]
pub enum BackendSource {
    /// One backend for every connection.
    Fixed,
    /// The handshake decides. There is no backend to fall back to.
    PerConnection,
}

/// Tells whether `COM_CHANGE_USER` may be answered as a no-op: only where
/// every user reaches the same backend.
pub fn allow_change_user(source: BackendSource) -> (r: bool)
    ensures
        r == (source == BackendSource::Fixed),
{
    match source {
        BackendSource::Fixed => true,
        BackendSource::PerConnection => false,
    }
}

} // verus!
