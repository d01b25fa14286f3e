//! A filter for the command packets that a MySQL client sends.
//!
//! The protocol engine behind the filter parses nine commands and answers
//! every other command byte with a default `OK` packet. `OK` is the wrong
//! shape of reply for most of those commands, and a client that gets one
//! reads the wrong number of packets from then on. So the filter looks at the
//! first payload byte of every command packet:
//!
//! * commands that the engine handles are forwarded byte for byte;
//! * `COM_STMT_RESET`, `COM_RESET_CONNECTION` and `COM_CHANGE_USER`, all
//!   answered by a plain `OK`, become a `COM_PING`;
//! * any other command is answered here with `ER_UNKNOWN_COM_ERROR`.
//!
//! A command packet carries sequence id 0. Packets with another sequence id
//! belong to an exchange already under way (the handshake, or the rest of a
//! payload of more than 16 MiB) and are forwarded untouched.
//!
//! The filter does no I/O. [`CommandFilter::next`] says what to do, and the
//! caller reports what came of it.
use vstd::prelude::*;

verus! {

/// `COM_QUIT`: the client is closing the connection.
pub const COM_QUIT: u8 = 0x01;

/// `COM_INIT_DB`: `USE <db>`.
pub const COM_INIT_DB: u8 = 0x02;

/// `COM_QUERY`: a text-protocol statement.
pub const COM_QUERY: u8 = 0x03;

/// `COM_FIELD_LIST`: the deprecated column listing.
pub const COM_FIELD_LIST: u8 = 0x04;

/// `COM_PING`: a liveness check, answered with `OK`.
pub const COM_PING: u8 = 0x0e;

/// `COM_CHANGE_USER`: re-authenticate and reset the session.
pub const COM_CHANGE_USER: u8 = 0x11;

/// `COM_STMT_PREPARE`: prepare a statement.
pub const COM_STMT_PREPARE: u8 = 0x16;

/// `COM_STMT_EXECUTE`: execute a prepared statement.
pub const COM_STMT_EXECUTE: u8 = 0x17;

/// `COM_STMT_SEND_LONG_DATA`: stream one parameter; no reply.
pub const COM_STMT_SEND_LONG_DATA: u8 = 0x18;

/// `COM_STMT_CLOSE`: deallocate a prepared statement; no reply.
pub const COM_STMT_CLOSE: u8 = 0x19;

/// `COM_STMT_RESET`: drop a statement's accumulated parameter data.
pub const COM_STMT_RESET: u8 = 0x1a;

/// `COM_RESET_CONNECTION`: reset session state without re-authenticating.
pub const COM_RESET_CONNECTION: u8 = 0x1f;

/// "Unknown command", SQLSTATE `08S01`.
pub const ER_UNKNOWN_COM_ERROR: u16 = 1047;

/// A packet header: three bytes of payload length, one of sequence id.
pub const HEADER_LEN: usize = 4;

/// The header and the payload byte that names the command.
pub const HEADER_AND_COMMAND: usize = 5;

/// How much of a discarded payload is read at a time.
pub const DISCARD_CHUNK: usize = 256;

/// The largest payload that one packet can carry, and one more.
pub const PAYLOAD_LIMIT: usize = 0x00ff_ffff;

pub open spec fn handled(command: u8) -> bool {
    ||| command == COM_QUIT
    ||| command == COM_INIT_DB
    ||| command == COM_QUERY
    ||| command == COM_FIELD_LIST
    ||| command == COM_PING
    ||| command == COM_STMT_PREPARE
    ||| command == COM_STMT_EXECUTE
    ||| command == COM_STMT_SEND_LONG_DATA
    ||| command == COM_STMT_CLOSE
}

/// The command asks for the session to be reset, and may.
pub open spec fn resets_session(command: u8, allow_change_user: bool) -> bool {
    ||| command == COM_RESET_CONNECTION
    ||| command == COM_CHANGE_USER && allow_change_user
}

/// The command is answered like a ping.
pub open spec fn answered_like_ping(command: u8, allow_change_user: bool) -> bool {
    command == COM_STMT_RESET || resets_session(command, allow_change_user)
}

pub open spec fn ping_bytes(seq: u8) -> Seq<u8> {
    seq![1u8, 0u8, 0u8, seq, COM_PING]
}

/// An ERR packet: length, sequence id, marker, code, `#`, SQLSTATE, message.
pub open spec fn err_bytes(seq: u8, code: u16, sqlstate: Seq<u8>, message: Seq<u8>) -> Seq<u8> {
    crate::wire::le(9 + message.len(), 3) + seq![seq, 0xffu8] + crate::wire::le(code as nat, 2)
        + seq![35u8] + sqlstate + message
}

/// `Unknown command 0x..`, with the command byte in two hexadecimal digits.
pub open spec fn unknown_command_text(command: u8) -> Seq<char> {
    "Unknown command 0x"@ + seq![
        crate::text::hex_digit((command / 16) as nat),
        crate::text::hex_digit((command % 16) as nat),
    ]
}

pub open spec fn unknown_sqlstate() -> Seq<u8> {
    seq![48u8, 56u8, 83u8, 48u8, 49u8]
}

/// The reply to a command that nobody implements.
pub open spec fn unknown_reply(seq: u8, command: u8) -> Seq<u8> {
    err_bytes(
        seq,
        ER_UNKNOWN_COM_ERROR,
        unknown_sqlstate(),
        crate::text::utf8(unknown_command_text(command)),
    )
}

/// Tells whether the protocol engine parses the command itself.
pub fn is_handled_upstream(command: u8) -> (r: bool)
    ensures
        r == handled(command),
{
    command == COM_QUIT || command == COM_INIT_DB || command == COM_QUERY || command
        == COM_FIELD_LIST || command == COM_PING || command == COM_STMT_PREPARE || command
        == COM_STMT_EXECUTE || command == COM_STMT_SEND_LONG_DATA || command == COM_STMT_CLOSE
}

/// A `COM_PING` packet with the given sequence id.
pub fn ping_packet(seq: u8) -> (r: [u8; 5])
    ensures
        r@ == ping_bytes(seq),
{
    let r: [u8; 5] = [0x01, 0x00, 0x00, seq, COM_PING];
    assert(r@ == ping_bytes(seq));
    r
}

/// An ERR packet with a SQLSTATE.
pub fn err_packet(seq: u8, code: u16, sqlstate: &[u8; 5], message: &str) -> (r: Vec<u8>)
    requires
        crate::text::utf8(message@).len() + 9 < PAYLOAD_LIMIT,
    ensures
        r@ == err_bytes(seq, code, sqlstate@, crate::text::utf8(message@)),
{
    let text: &[u8] = message.as_bytes();
    let payload_len: usize = 9 + text.len();
    let mut packet: Vec<u8> = Vec::new();
    packet.push((payload_len % 256) as u8);
    packet.push((payload_len / 256 % 256) as u8);
    packet.push((payload_len / 65536 % 256) as u8);
    packet.push(seq);
    packet.push(0xff);
    packet.push((code % 256) as u8);
    packet.push((code / 256) as u8);
    packet.push(35);
    packet.extend_from_slice(sqlstate.as_slice());
    packet.extend_from_slice(text);
    proof {
        crate::wire::lemma_le3(payload_len as nat);
        crate::wire::lemma_le2(code as nat);
        assert(packet@ =~= err_bytes(seq, code, sqlstate@, crate::text::utf8(message@)));
    }
    packet
}

/// What to do once an intercepted packet has been read to its end.
#[derive(Debug)]
pub enum Action {
    /// Hand the protocol engine this command packet in its place.
    Substitute([u8; 5]),
    /// Answer the client with this packet.
    Reply(Vec<u8>),
}

/// Where the filter is in the packet that it is working on.
#[derive(Debug)]
pub enum State {
    /// Collecting the next packet's header, then its command byte.
    Head {
        /// The bytes collected so far.
        buf: Vec<u8>,
    },
    /// Handing over `buf` from `pos` on, then `body` more bytes verbatim.
    Emit { buf: Vec<u8>, pos: usize, body: usize },
    /// Forwarding `remaining` payload bytes verbatim.
    Pass { remaining: usize },
    /// Reading and discarding `remaining` bytes of an intercepted packet.
    Drain { remaining: usize, then: Action },
    /// Writing a reply to the client, `packet` from `pos` on.
    Write { packet: Vec<u8>, pos: usize },
    /// The client closed the connection.
    Eof,
}

/// A [`State`] without its buffers' bookkeeping.
pub enum Phase {
    Head { got: Seq<u8> },
    Emit { rest: Seq<u8>, body: nat },
    Pass { remaining: nat },
    Drain { remaining: nat, then: Seq<u8>, to_client: bool },
    Write { rest: Seq<u8> },
    Eof,
}

impl View for State {
    type V = Phase;

    open spec fn view(&self) -> Phase {
        match *self {
            State::Head { buf } => Phase::Head { got: buf@ },
            State::Emit { buf, pos, body } => Phase::Emit {
                rest: buf@.skip(pos as int),
                body: body as nat,
            },
            State::Pass { remaining } => Phase::Pass { remaining: remaining as nat },
            State::Drain { remaining, then } => Phase::Drain {
                remaining: remaining as nat,
                then: match then {
                    Action::Substitute(packet) => packet@,
                    Action::Reply(packet) => packet@,
                },
                to_client: then is Reply,
            },
            State::Write { packet, pos } => Phase::Write { rest: packet@.skip(pos as int) },
            State::Eof => Phase::Eof,
        }
    }
}

/// The payload length that a header announces.
pub open spec fn announced(header: Seq<u8>) -> nat {
    header[0] as nat + 256 * (header[1] as nat) + 65536 * (header[2] as nat)
}

pub open spec fn fresh() -> Phase {
    Phase::Head { got: Seq::empty() }
}

/// How a packet with a whole header and command byte is treated when it
/// starts a command.
pub open spec fn command_phase(allow_change_user: bool, header: Seq<u8>, body: nat) -> Phase {
    let seq = header[3];
    let command = header[4];
    if handled(command) {
        Phase::Emit { rest: header, body }
    } else if answered_like_ping(command, allow_change_user) {
        Phase::Drain { remaining: body, then: ping_bytes(seq), to_client: false }
    } else {
        Phase::Drain {
            remaining: body,
            then: unknown_reply(seq.wrapping_add(1), command),
            to_client: true,
        }
    }
}

/// The phase once `got` has been collected.
pub open spec fn head_phase(allow_change_user: bool, got: Seq<u8>) -> Phase {
    if got.len() < 4 {
        Phase::Head { got }
    } else if announced(got) == 0 {
        Phase::Emit { rest: got, body: 0 }
    } else if got.len() < 5 {
        Phase::Head { got }
    } else if got[3] == 0 {
        command_phase(allow_change_user, got, (announced(got) - 1) as nat)
    } else {
        Phase::Emit { rest: got, body: (announced(got) - 1) as nat }
    }
}

/// Collecting `got` makes a session reset due.
pub open spec fn head_resets(allow_change_user: bool, got: Seq<u8>) -> bool {
    &&& got.len() >= 5
    &&& announced(got) != 0
    &&& got[3] == 0
    &&& resets_session(got[4], allow_change_user)
}

/// The phase after the first `n` bytes of `rest` were handed over.
pub open spec fn emit_phase(rest: Seq<u8>, n: int, body: nat) -> Phase {
    if n < rest.len() {
        Phase::Emit { rest: rest.skip(n), body }
    } else if body == 0 {
        fresh()
    } else {
        Phase::Pass { remaining: body }
    }
}

pub open spec fn pass_phase(remaining: nat) -> Phase {
    if remaining == 0 {
        fresh()
    } else {
        Phase::Pass { remaining }
    }
}

/// A packet that was read to its end is replaced or answered.
pub open spec fn settled(p: Phase) -> Phase {
    match p {
        Phase::Drain { remaining, then, to_client } => if remaining > 0 {
            p
        } else if to_client {
            Phase::Write { rest: then }
        } else {
            Phase::Emit { rest: then, body: 0 }
        },
        _ => p,
    }
}

pub open spec fn head_wants(got: Seq<u8>) -> int {
    if got.len() < 4 {
        4 - got.len()
    } else {
        5 - got.len()
    }
}

pub open spec fn phase_ok(p: Phase) -> bool {
    match p {
        Phase::Head { got } => got.len() < 5 && (got.len() == 4 ==> announced(got) != 0),
        Phase::Emit { rest, body } => 0 < rest.len(),
        Phase::Pass { remaining } => 0 < remaining,
        Phase::Drain { remaining, then, to_client } => !to_client ==> 0 < then.len(),
        Phase::Write { rest } => true,
        Phase::Eof => true,
    }
}

pub open spec fn state_ok(s: State) -> bool {
    &&& phase_ok(s@)
    &&& match s {
        State::Emit { buf, pos, body } => pos <= buf.len(),
        State::Write { packet, pos } => pos <= packet.len(),
        _ => true,
    }
}

impl State {
    /// The state at the start of a packet.
    pub fn head() -> (r: State)
        ensures
            r@ == fresh(),
            state_ok(r),
    {
        State::Head { buf: Vec::new() }
    }
}

/// What the caller of the filter does next.
#[derive(Debug)]
pub enum Step {
    /// The client is gone: report the end of the input.
    Closed,
    /// The buffer has no room: return.
    Full,
    /// Read at most this many bytes and report them to [`CommandFilter::received`].
    Read(usize),
    /// Read at most this many bytes into the buffer and report how many to
    /// [`CommandFilter::forwarded`].
    Forward(usize),
    /// Read at most this many bytes, drop them and report how many to
    /// [`CommandFilter::discarded`].
    Discard(usize),
    /// Put these bytes into the buffer and return.
    Hand(Vec<u8>),
    /// Write of these bytes what the client takes and report how many to
    /// [`CommandFilter::sent`].
    Send(Vec<u8>),
    /// Flush the client's side, then call [`CommandFilter::flushed`].
    Flush,
}

/// Why the filter gives a connection up.
#[derive(Debug, Clone, Copy, PartialEq, Eq)]
pub enum FilterError {
    /// The client stopped accepting bytes mid-reply.
    WriteZero,
}

impl FilterError {
    pub fn message(&self) -> (r: &'static str)
        ensures
            r@ == "MySQL client stopped accepting bytes mid-reply"@,
    {
        "MySQL client stopped accepting bytes mid-reply"
    }
}

/// The filter of one connection.
#[derive(Debug)]
pub struct CommandFilter {
    /// `COM_CHANGE_USER` may be accepted as a no-op. True where every user
    /// reaches the same database; false where the connection has been
    /// authenticated for one backend.
    pub allow_change_user: bool,
    /// The client asked for a session reset.
    pub reset_pending: bool,
    /// Progress through the current packet.
    pub state: State,
}

/// The message that answers an unknown command.
pub fn unknown_command_message(command: u8) -> (r: String)
    ensures
        r@ == unknown_command_text(command),
{
    let mut r: String = "Unknown command 0x".to_owned();
    r.push(crate::text::hex_char(command / 16));
    r.push(crate::text::hex_char(command % 16));
    assert(r@ == unknown_command_text(command));
    r
}

proof fn lemma_unknown_command_is_short(command: u8)
    ensures
        crate::text::utf8(unknown_command_text(command)).len() == 20,
{
    let t = unknown_command_text(command);
    reveal_strlit("Unknown command 0x");
    assert(t.len() == 20);
    assert(vstd::utf8::is_ascii_chars(t)) by {
        assert forall|i: int| 0 <= i < t.len() implies 0 <= (#[trigger] t[i]) as nat <= 127 by {
            if i < 18 {
                assert(t[i] == "Unknown command 0x"@[i]);
            }
        }
    }
    vstd::utf8::is_ascii_chars_encode_utf8(t);
}

impl CommandFilter {
    pub open spec fn ok(self) -> bool {
        state_ok(self.state)
    }

    pub fn new(allow_change_user: bool) -> (r: CommandFilter)
        ensures
            r.ok(),
            r.allow_change_user == allow_change_user,
            !r.reset_pending,
            r.state@ == fresh(),
    {
        CommandFilter { allow_change_user, reset_pending: false, state: State::head() }
    }

    /// Decides what to do with a command packet, of which `body` bytes follow
    /// the command byte.
    pub fn classify(&mut self, header: [u8; 5], body: usize) -> (r: State)
        requires
            old(self).ok(),
        ensures
            r@ == command_phase(old(self).allow_change_user, header@, body as nat),
            state_ok(r),
            final(self).state == old(self).state,
            final(self).allow_change_user == old(self).allow_change_user,
            final(self).reset_pending == (old(self).reset_pending || resets_session(
                header[4],
                old(self).allow_change_user,
            )),
    {
        let command: u8 = header[4];
        let seq: u8 = header[3];
        if is_handled_upstream(command) {
            let mut buf: Vec<u8> = Vec::new();
            buf.extend_from_slice(header.as_slice());
            assert(buf@.skip(0) == header@);
            return State::Emit { buf, pos: 0, body };
        }
        let resets = command == COM_RESET_CONNECTION || (command == COM_CHANGE_USER
            && self.allow_change_user);
        if resets {
            self.reset_pending = true;
        }
        if resets || command == COM_STMT_RESET {
            return State::Drain { remaining: body, then: Action::Substitute(ping_packet(seq)) };
        }
        let message: String = unknown_command_message(command);
        proof {
            lemma_unknown_command_is_short(command);
        }
        let sqlstate: [u8; 5] = [48, 56, 83, 48, 49];
        assert(sqlstate@ =~= unknown_sqlstate());
        let packet = err_packet(
            seq.wrapping_add(1),
            ER_UNKNOWN_COM_ERROR,
            &sqlstate,
            message.as_str(),
        );
        State::Drain { remaining: body, then: Action::Reply(packet) }
    }

    /// What to do next, with room for `room` more bytes in the buffer.
    pub fn next(&mut self, room: usize) -> (r: Step)
        requires
            old(self).ok(),
        ensures
            final(self).ok(),
            final(self).allow_change_user == old(self).allow_change_user,
            final(self).reset_pending == old(self).reset_pending,
            match settled(old(self).state@) {
                Phase::Eof => r is Closed && final(self).state@ == Phase::Eof,
                Phase::Write { rest } => {
                    &&& final(self).state@ == (Phase::Write { rest })
                    &&& if rest.len() > 0 {
                        r matches Step::Send(bytes) && bytes@ == rest
                    } else {
                        r is Flush
                    }
                },
                Phase::Head { got } => {
                    &&& final(self).state@ == (Phase::Head { got })
                    &&& r matches Step::Read(n) && n == head_wants(got)
                },
                Phase::Emit { rest, body } => if room == 0 {
                    r is Full && final(self).state@ == (Phase::Emit { rest, body })
                } else {
                    let n = if rest.len() < room {
                        rest.len() as int
                    } else {
                        room as int
                    };
                    &&& r matches Step::Hand(bytes) && bytes@ == rest.take(n)
                    &&& final(self).state@ == emit_phase(rest, n, body)
                },
                Phase::Pass { remaining } => {
                    &&& final(self).state@ == (Phase::Pass { remaining })
                    &&& if room == 0 {
                        r is Full
                    } else {
                        r matches Step::Forward(n) && n == (if remaining < room {
                            remaining as int
                        } else {
                            room as int
                        })
                    }
                },
                Phase::Drain { remaining, then, to_client } => {
                    &&& final(self).state@ == (Phase::Drain { remaining, then, to_client })
                    &&& r matches Step::Discard(n) && n == (if remaining < DISCARD_CHUNK {
                        remaining as int
                    } else {
                        DISCARD_CHUNK as int
                    })
                },
            },
    {
        let mut state = State::Eof;
        core::mem::swap(&mut state, &mut self.state);
        let state = match state {
            State::Drain { remaining, then } => if remaining > 0 {
                State::Drain { remaining, then }
            } else {
                match then {
                    Action::Substitute(packet) => {
                        let mut buf: Vec<u8> = Vec::new();
                        buf.extend_from_slice(packet.as_slice());
                        assert(buf@.skip(0) == packet@);
                        State::Emit { buf, pos: 0, body: 0 }
                    },
                    Action::Reply(packet) => {
                        assert(packet@.skip(0) == packet@);
                        State::Write { packet, pos: 0 }
                    },
                }
            },
            other => other,
        };
        let (step, state) = match state {
            State::Eof => (Step::Closed, State::Eof),
            State::Write { packet, pos } => {
                if pos < packet.len() {
                    let mut rest: Vec<u8> = Vec::new();
                    rest.extend_from_slice(
                        vstd::slice::slice_subrange(packet.as_slice(), pos, packet.len()),
                    );
                    assert(rest@ == packet@.skip(pos as int));
                    (Step::Send(rest), State::Write { packet, pos })
                } else {
                    (Step::Flush, State::Write { packet, pos })
                }
            },
            State::Head { buf } => {
                let have: usize = buf.len();
                let need: usize = if have < HEADER_LEN {
                    HEADER_LEN - have
                } else {
                    HEADER_AND_COMMAND - have
                };
                (Step::Read(need), State::Head { buf })
            },
            State::Emit { buf, pos, body } => {
                if room == 0 {
                    (Step::Full, State::Emit { buf, pos, body })
                } else {
                    let left: usize = buf.len() - pos;
                    let n: usize = if left < room {
                        left
                    } else {
                        room
                    };
                    let ghost rest = buf@.skip(pos as int);
                    let mut bytes: Vec<u8> = Vec::new();
                    bytes.extend_from_slice(
                        vstd::slice::slice_subrange(buf.as_slice(), pos, pos + n),
                    );
                    assert(bytes@ == rest.take(n as int));
                    assert(buf@.skip(pos + n) == rest.skip(n as int));
                    let state = if n < left {
                        State::Emit { buf, pos: pos + n, body }
                    } else if body == 0 {
                        State::head()
                    } else {
                        State::Pass { remaining: body }
                    };
                    (Step::Hand(bytes), state)
                }
            },
            State::Pass { remaining } => {
                if room == 0 {
                    (Step::Full, State::Pass { remaining })
                } else {
                    let cap: usize = if remaining < room {
                        remaining
                    } else {
                        room
                    };
                    (Step::Forward(cap), State::Pass { remaining })
                }
            },
            State::Drain { remaining, then } => {
                let cap: usize = if remaining < DISCARD_CHUNK {
                    remaining
                } else {
                    DISCARD_CHUNK
                };
                (Step::Discard(cap), State::Drain { remaining, then })
            },
        };
        self.state = state;
        step
    }

    /// Reports what a [`Step::Read`] brought. Nothing at all is the end of
    /// the input.
    pub fn received(&mut self, bytes: &[u8])
        requires
            old(self).ok(),
            old(self).state@ matches Phase::Head { got } && bytes@.len() <= head_wants(got),
        ensures
            final(self).ok(),
            final(self).allow_change_user == old(self).allow_change_user,
            if bytes@.len() == 0 {
                &&& final(self).state@ == Phase::Eof
                &&& final(self).reset_pending == old(self).reset_pending
            } else {
                let got = old(self).state@->Head_got + bytes@;
                &&& final(self).state@ == head_phase(old(self).allow_change_user, got)
                &&& final(self).reset_pending == (old(self).reset_pending || head_resets(
                    old(self).allow_change_user,
                    got,
                ))
            },
    {
        if bytes.len() == 0 {
            self.state = State::Eof;
            return;
        }
        let mut state = State::Eof;
        core::mem::swap(&mut state, &mut self.state);
        match state {
            State::Head { mut buf } => {
                buf.extend_from_slice(bytes);
                assert(buf@ == old(self).state@->Head_got + bytes@);
                let have: usize = buf.len();
                if have < HEADER_LEN {
                    self.state = State::Head { buf };
                    return;
                }
                let payload_len: usize = buf[0] as usize + 256 * (buf[1] as usize) + 65536 * (
                buf[2] as usize);
                if payload_len == 0 {
                    assert(buf@.skip(0) == buf@);
                    self.state = State::Emit { buf, pos: 0, body: 0 };
                    return;
                }
                if have < HEADER_AND_COMMAND {
                    self.state = State::Head { buf };
                    return;
                }
                let body: usize = payload_len - 1;
                if buf[3] == 0 {
                    let header: [u8; 5] = [buf[0], buf[1], buf[2], buf[3], buf[4]];
                    assert(header@ =~= buf@);
                    let state = self.classify(header, body);
                    self.state = state;
                } else {
                    assert(buf@.skip(0) == buf@);
                    self.state = State::Emit { buf, pos: 0, body };
                }
            },
            other => {
                self.state = other;
            },
        }
    }

    /// Reports how many bytes a [`Step::Forward`] brought.
    pub fn forwarded(&mut self, n: usize)
        requires
            old(self).ok(),
            old(self).state@ matches Phase::Pass { remaining } && n <= remaining,
        ensures
            final(self).ok(),
            final(self).allow_change_user == old(self).allow_change_user,
            final(self).reset_pending == old(self).reset_pending,
            final(self).state@ == if n == 0 {
                Phase::Eof
            } else {
                pass_phase((old(self).state@->Pass_remaining - n) as nat)
            },
    {
        if n == 0 {
            self.state = State::Eof;
            return;
        }
        match &self.state {
            State::Pass { remaining } => {
                let left: usize = *remaining - n;
                self.state = if left == 0 {
                    State::head()
                } else {
                    State::Pass { remaining: left }
                };
            },
            _ => {},
        }
    }

    /// Reports how many bytes a [`Step::Discard`] brought.
    pub fn discarded(&mut self, n: usize)
        requires
            old(self).ok(),
            old(self).state@ matches Phase::Drain { remaining, then, to_client } && n <= remaining,
        ensures
            final(self).ok(),
            final(self).allow_change_user == old(self).allow_change_user,
            final(self).reset_pending == old(self).reset_pending,
            final(self).state@ == if n == 0 {
                Phase::Eof
            } else {
                (Phase::Drain {
                    remaining: (old(self).state@->Drain_remaining - n) as nat,
                    then: old(self).state@->then,
                    to_client: old(self).state@->to_client,
                })
            },
    {
        let mut state = State::Eof;
        core::mem::swap(&mut state, &mut self.state);
        match state {
            State::Drain { remaining, then } => {
                if n > 0 {
                    self.state = State::Drain { remaining: remaining - n, then };
                }
            },
            other => {
                self.state = other;
            },
        }
    }

    /// Reports how many bytes of a [`Step::Send`] the client took.
    pub fn sent(&mut self, n: usize) -> (r: Result<(), FilterError>)
        requires
            old(self).ok(),
            old(self).state@ matches Phase::Write { rest } && n <= rest.len(),
        ensures
            final(self).ok(),
            final(self).allow_change_user == old(self).allow_change_user,
            final(self).reset_pending == old(self).reset_pending,
            final(self).state@ == (Phase::Write { rest: old(self).state@->Write_rest.skip(n as int) }),
            r == if n == 0 {
                Err(FilterError::WriteZero)
            } else {
                Ok(())
            },
    {
        let mut state = State::Eof;
        core::mem::swap(&mut state, &mut self.state);
        match state {
            State::Write { packet, pos } => {
                assert(packet@.skip(pos + n) == packet@.skip(pos as int).skip(n as int));
                self.state = State::Write { packet, pos: pos + n };
            },
            other => {
                self.state = other;
            },
        }
        if n == 0 {
            Err(FilterError::WriteZero)
        } else {
            Ok(())
        }
    }

    /// Reports that the reply reached the client: the next packet begins.
    pub fn flushed(&mut self)
        requires
            old(self).ok(),
            old(self).state@ matches Phase::Write { rest } && rest.len() == 0,
        ensures
            final(self).ok(),
            final(self).allow_change_user == old(self).allow_change_user,
            final(self).reset_pending == old(self).reset_pending,
            final(self).state@ == fresh(),
    {
        self.state = State::head();
    }

    /// Takes the pending reset, if any.
    pub fn take_reset(&mut self) -> (r: bool)
        ensures
            r == old(self).reset_pending,
            !final(self).reset_pending,
            final(self).state == old(self).state,
            final(self).allow_change_user == old(self).allow_change_user,
    {
        let r = self.reset_pending;
        self.reset_pending = false;
        r
    }
}

/// What a stream of client bytes comes to: the bytes for the protocol engine,
/// the bytes for the client, and whether a session reset is due.
#[verifier::ext_equal]
pub struct Outcome {
    pub forwarded: Seq<u8>,
    pub replied: Seq<u8>,
    pub reset: bool,
}

pub open spec fn nothing() -> Outcome {
    Outcome { forwarded: Seq::empty(), replied: Seq::empty(), reset: false }
}

/// `bytes` are forwarded ahead of `o`.
pub open spec fn forward(bytes: Seq<u8>, o: Outcome) -> Outcome {
    Outcome { forwarded: bytes + o.forwarded, ..o }
}

/// `bytes` are replied ahead of `o`.
pub open spec fn reply(bytes: Seq<u8>, o: Outcome) -> Outcome {
    Outcome { replied: bytes + o.replied, ..o }
}

pub open spec fn reset_if(due: bool, o: Outcome) -> Outcome {
    Outcome { reset: due || o.reset, ..o }
}

/// What the whole stream `input` comes to, packet by packet. A packet that
/// is to be forwarded is forwarded as far as it came; one that is
/// intercepted counts only when it came whole, except that the reset that it
/// asks for is due as soon as its command byte came.
pub open spec fn filtered(allow_change_user: bool, input: Seq<u8>) -> Outcome
    decreases input.len(),
{
    if input.len() < 4 {
        nothing()
    } else if announced(input) == 0 {
        forward(input.take(4), filtered(allow_change_user, input.skip(4)))
    } else if input.len() < 5 {
        nothing()
    } else {
        let end = 4 + announced(input);
        let command = input[4];
        if input[3] != 0 || handled(command) {
            if input.len() < end {
                forward(input, nothing())
            } else {
                forward(
                    input.take(end as int),
                    filtered(allow_change_user, input.skip(end as int)),
                )
            }
        } else {
            reset_if(
                resets_session(command, allow_change_user),
                if input.len() < end {
                    nothing()
                } else {
                    let rest = filtered(allow_change_user, input.skip(end as int));
                    if answered_like_ping(command, allow_change_user) {
                        forward(ping_bytes(0), rest)
                    } else {
                        reply(unknown_reply(1, command), rest)
                    }
                },
            )
        }
    }
}

/// What the input still to come, `input`, comes to from phase `p` on.
pub open spec fn ahead(allow_change_user: bool, p: Phase, input: Seq<u8>) -> Outcome {
    match p {
        Phase::Head { got } => filtered(allow_change_user, got + input),
        Phase::Emit { rest, body } => forward(rest, passed(allow_change_user, body, input)),
        Phase::Pass { remaining } => passed(allow_change_user, remaining, input),
        Phase::Drain { remaining, then, to_client } => if input.len() < remaining {
            nothing()
        } else {
            let after = filtered(allow_change_user, input.skip(remaining as int));
            if to_client {
                reply(then, after)
            } else {
                forward(then, after)
            }
        },
        Phase::Write { rest } => reply(rest, filtered(allow_change_user, input)),
        Phase::Eof => nothing(),
    }
}

/// `n` bytes are forwarded verbatim, then packets begin.
pub open spec fn passed(allow_change_user: bool, n: nat, input: Seq<u8>) -> Outcome {
    if input.len() < n {
        forward(input, nothing())
    } else {
        forward(input.take(n as int), filtered(allow_change_user, input.skip(n as int)))
    }
}

/// A new filter brings the client's bytes to what [`filtered`] says.
pub proof fn law_new_filter(allow_change_user: bool, input: Seq<u8>)
    ensures
        ahead(allow_change_user, fresh(), input) == filtered(allow_change_user, input),
{
    assert(Seq::<u8>::empty() + input == input);
}

/// However the header of a packet is cut into reads, what comes of the
/// stream is the same.
pub proof fn law_received(allow_change_user: bool, got: Seq<u8>, bytes: Seq<u8>, rest: Seq<u8>)
    requires
        phase_ok(Phase::Head { got }),
        bytes.len() <= head_wants(got),
    ensures
        ahead(allow_change_user, Phase::Head { got }, bytes + rest) == reset_if(
            head_resets(allow_change_user, got + bytes),
            ahead(allow_change_user, head_phase(allow_change_user, got + bytes), rest),
        ),
{
    let now = got + bytes;
    let all = got + (bytes + rest);
    assert(all == now + rest);
    let a = allow_change_user;
    let p = head_phase(a, now);
    if now.len() >= 4 {
        assert(announced(all) == announced(now));
        if announced(now) == 0 {
            assert(now.len() == 4);
            assert(all.take(4) == now);
            assert(all.skip(4) == rest);
            assert(rest.take(0) == Seq::<u8>::empty());
            assert(rest.skip(0) == rest);
            assert(ahead(a, p, rest) =~= reset_if(head_resets(a, now), filtered(a, all)));
        } else if now.len() >= 5 {
            assert(now.len() == 5);
            let body = (announced(now) - 1) as nat;
            let end = 4 + announced(all);
            assert(all[3] == now[3] && all[4] == now[4]);
            if rest.len() >= body {
                assert(all.take(end as int) == now + rest.take(body as int));
                assert(all.skip(end as int) == rest.skip(body as int));
                assert((now + rest.take(body as int)) + filtered(
                    a,
                    rest.skip(body as int),
                ).forwarded == now + (rest.take(body as int) + filtered(
                    a,
                    rest.skip(body as int),
                ).forwarded));
            } else {
                assert((now + rest) + Seq::<u8>::empty() == now + (rest + Seq::<u8>::empty()));
            }
            assert(0u8.wrapping_add(1) == 1);
            assert(filtered(a, all) =~= reset_if(head_resets(a, now), ahead(a, p, rest)));
        }
    }
}

/// What is handed over of a packet comes ahead of what is still to come.
pub proof fn law_handed(allow_change_user: bool, rest: Seq<u8>, n: int, body: nat, input: Seq<u8>)
    requires
        0 < n <= rest.len(),
    ensures
        ahead(allow_change_user, Phase::Emit { rest, body }, input) == forward(
            rest.take(n),
            ahead(allow_change_user, emit_phase(rest, n, body), input),
        ),
{
    let a = allow_change_user;
    law_new_filter(a, input);
    assert(rest.take(n) + rest.skip(n) == rest);
    let after = passed(a, body, input);
    assert(rest.take(n) + (rest.skip(n) + after.forwarded) == rest + after.forwarded);
    if n == rest.len() {
        assert(rest.take(n) == rest);
        assert(input.take(0) + filtered(a, input).forwarded == filtered(a, input).forwarded);
        assert(input.skip(0) == input);
    }
    assert(ahead(a, Phase::Emit { rest, body }, input) =~= forward(
        rest.take(n),
        ahead(a, emit_phase(rest, n, body), input),
    ));
}

/// However a payload is cut into reads, it is forwarded as it came.
pub proof fn law_forwarded(allow_change_user: bool, remaining: nat, bytes: Seq<u8>, rest: Seq<u8>)
    requires
        bytes.len() <= remaining,
    ensures
        ahead(allow_change_user, Phase::Pass { remaining }, bytes + rest) == forward(
            bytes,
            ahead(allow_change_user, pass_phase((remaining - bytes.len()) as nat), rest),
        ),
{
    let a = allow_change_user;
    let all = bytes + rest;
    let left = (remaining - bytes.len()) as nat;
    law_new_filter(a, rest);
    if all.len() < remaining {
        assert(bytes + (rest + Seq::<u8>::empty()) == all + Seq::<u8>::empty());
    } else {
        assert(all.take(remaining as int) == bytes + rest.take(left as int));
        assert(all.skip(remaining as int) == rest.skip(left as int));
        let after = filtered(a, rest.skip(left as int));
        assert((bytes + rest.take(left as int)) + after.forwarded == bytes + (rest.take(left as int)
            + after.forwarded));
        if left == 0 {
            assert(rest.take(0) + after.forwarded == after.forwarded);
            assert(rest.skip(0) == rest);
        }
    }
    assert(ahead(a, Phase::Pass { remaining }, all) =~= forward(
        bytes,
        ahead(a, pass_phase(left), rest),
    ));
}

/// However an intercepted payload is cut into reads, none of it is
/// forwarded.
pub proof fn law_discarded(
    allow_change_user: bool,
    remaining: nat,
    then: Seq<u8>,
    to_client: bool,
    bytes: Seq<u8>,
    rest: Seq<u8>,
)
    requires
        bytes.len() <= remaining,
    ensures
        ahead(allow_change_user, Phase::Drain { remaining, then, to_client }, bytes + rest)
            == ahead(
            allow_change_user,
            Phase::Drain { remaining: (remaining - bytes.len()) as nat, then, to_client },
            rest,
        ),
{
    let all = bytes + rest;
    if all.len() >= remaining {
        assert(all.skip(remaining as int) == rest.skip(remaining - bytes.len()));
    }
}

/// Reading a packet to its end and settling it changes nothing of what is
/// still to come.
pub proof fn law_settled(allow_change_user: bool, p: Phase, input: Seq<u8>)
    ensures
        ahead(allow_change_user, settled(p), input) == ahead(allow_change_user, p, input),
{
    if let Phase::Drain { remaining, then, to_client } = p {
        if remaining == 0 {
            assert(input.skip(0) == input);
            let after = filtered(allow_change_user, input);
            assert(input.take(0) + after.forwarded == after.forwarded);
            assert(ahead(allow_change_user, settled(p), input) =~= ahead(
                allow_change_user,
                p,
                input,
            ));
        }
    }
}

/// However the client takes a reply, it gets all of it, once.
pub proof fn law_sent(allow_change_user: bool, rest: Seq<u8>, n: int, input: Seq<u8>)
    requires
        0 <= n <= rest.len(),
    ensures
        ahead(allow_change_user, Phase::Write { rest }, input) == reply(
            rest.take(n),
            ahead(allow_change_user, Phase::Write { rest: rest.skip(n) }, input),
        ),
        n == rest.len() ==> ahead(allow_change_user, Phase::Write { rest: rest.skip(n) }, input)
            == ahead(allow_change_user, fresh(), input),
{
    let after = filtered(allow_change_user, input);
    law_new_filter(allow_change_user, input);
    assert(rest.take(n) + (rest.skip(n) + after.replied) == rest + after.replied);
    if n == rest.len() {
        assert(rest.skip(n) + after.replied == after.replied);
    }
}

/// At the end of the input nothing is owed, except what is already in hand.
pub proof fn law_end_of_input(allow_change_user: bool, p: Phase)
    requires
        phase_ok(p),
        p is Head || p is Pass || (p is Drain && p->Drain_remaining > 0),
    ensures
        ahead(allow_change_user, p, Seq::empty()) == nothing(),
{
    if let Phase::Head { got } = p {
        assert(got + Seq::<u8>::empty() == got);
    }
    assert(ahead(allow_change_user, p, Seq::empty()) =~= nothing());
}

/// A packet of the client's: payload length, sequence id, command, payload.
pub open spec fn packet_bytes(seq: u8, command: u8, payload: Seq<u8>) -> Seq<u8> {
    crate::wire::le(1 + payload.len(), 3) + seq![seq, command] + payload
}

proof fn lemma_packet_shape(seq: u8, command: u8, payload: Seq<u8>, rest: Seq<u8>)
    requires
        1 + payload.len() <= PAYLOAD_LIMIT,
    ensures
        ({
            let p = packet_bytes(seq, command, payload);
            let all = p + rest;
            &&& p.len() == 4 + announced(all)
            &&& announced(all) == 1 + payload.len()
            &&& all[3] == seq
            &&& all[4] == command
            &&& all.take(p.len() as int) == p
            &&& all.skip(p.len() as int) == rest
        }),
{
    let n: nat = 1 + payload.len();
    crate::wire::lemma_le3(n);
    let p = packet_bytes(seq, command, payload);
    let all = p + rest;
    assert(all.take(p.len() as int) == p);
    assert(all.skip(p.len() as int) == rest);
    assert(n == n % 256 + 256 * (n / 256 % 256) + 65536 * (n / 65536 % 256)) by {
        assert(n / 65536 < 256);
        assert(n / 256 / 256 == n / 65536);
    }
}

/// A command that the engine handles, and any packet that starts no command,
/// is forwarded byte for byte.
pub proof fn law_forwarded_verbatim(
    allow_change_user: bool,
    seq: u8,
    command: u8,
    payload: Seq<u8>,
    rest: Seq<u8>,
)
    requires
        1 + payload.len() <= PAYLOAD_LIMIT,
        seq != 0 || handled(command),
    ensures
        filtered(allow_change_user, packet_bytes(seq, command, payload) + rest) == forward(
            packet_bytes(seq, command, payload),
            filtered(allow_change_user, rest),
        ),
{
    lemma_packet_shape(seq, command, payload, rest);
}

/// A housekeeping command reaches the engine as a ping, and nothing of it
/// reaches the client.
pub proof fn law_housekeeping_is_a_ping(
    allow_change_user: bool,
    command: u8,
    payload: Seq<u8>,
    rest: Seq<u8>,
)
    requires
        1 + payload.len() <= PAYLOAD_LIMIT,
        answered_like_ping(command, allow_change_user),
    ensures
        filtered(allow_change_user, packet_bytes(0, command, payload) + rest) == reset_if(
            resets_session(command, allow_change_user),
            forward(ping_bytes(0), filtered(allow_change_user, rest)),
        ),
{
    lemma_packet_shape(0, command, payload, rest);
}

/// Any other command is answered with `ER_UNKNOWN_COM_ERROR` and never
/// reaches the engine.
pub proof fn law_unknown_is_refused(
    allow_change_user: bool,
    command: u8,
    payload: Seq<u8>,
    rest: Seq<u8>,
)
    requires
        1 + payload.len() <= PAYLOAD_LIMIT,
        !handled(command),
        !answered_like_ping(command, allow_change_user),
    ensures
        filtered(allow_change_user, packet_bytes(0, command, payload) + rest) == reply(
            unknown_reply(1, command),
            filtered(allow_change_user, rest),
        ),
{
    lemma_packet_shape(0, command, payload, rest);
}

} // verus!
