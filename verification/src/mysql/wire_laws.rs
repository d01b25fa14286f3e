//! The MySQL protocol by its numbers: commands, replies and passwords.
use crate::mysql::command_filter;
use crate::mysql::command_filter::{
    err_packet, is_handled_upstream, ping_packet, unknown_command_message,
};
use crate::mysql::native_password::{password_hash, verify};
use crate::mysql::too_many_packet;
use vstd::prelude::*;

verus! {

/// The commands that the engine parses, by number: quit, init-db, query,
/// field-list, ping, and prepare, execute, send-long-data and close of
/// prepared statements.
pub proof fn law_commands_of_the_engine(command: u8, r: bool)
    requires
        call_ensures(is_handled_upstream, (command,), r),
    ensures
        r <==> command == 1 || command == 2 || command == 3 || command == 4 || command == 14
            || command == 22 || command == 23 || command == 24 || command == 25,
{
}

/// A ping of one byte, with the sequence id that is asked for.
pub proof fn law_ping(seq: u8, r: [u8; 5])
    requires
        call_ensures(ping_packet, (seq,), r),
    ensures
        r@ == seq![1u8, 0u8, 0u8, seq, 14u8],
{
}

/// An error packet tells its length, its sequence id, the code, the SQLSTATE
/// and the message, in this order.
pub proof fn law_error_packet_reads_back(
    seq: u8,
    code: u16,
    sqlstate: [u8; 5],
    message: &str,
    r: Vec<u8>,
)
    requires
        call_ensures(err_packet, (seq, code, &sqlstate, message), r),
    ensures
        ({
            let b = r@;
            let text = vstd::utf8::encode_utf8(message@);
            &&& b.len() == 13 + text.len()
            &&& b.len() < 0x100_0000 ==> b[0] + 0x100 * b[1] + 0x1_0000 * b[2] == b.len() - 4
            &&& b[3] == seq
            &&& b[4] == 255
            &&& b[5] + 256 * b[6] == code
            &&& b[7] == '#' as u8
            &&& b.subrange(8, 13) == sqlstate@
            &&& b.skip(13) == text
        }),
{
    let text = crate::text::utf8(message@);
    let b = r@;
    let n = 9 + text.len();
    crate::wire::lemma_le3(n);
    crate::wire::lemma_le2(code as nat);
    assert(b.len() == 13 + text.len());
    if b.len() < 0x100_0000 {
        assert(n / 65536 < 256);
        assert(n / 256 / 256 == n / 65536);
    }
    assert(b.subrange(8, 13) =~= sqlstate@);
    assert(b.skip(13) =~= text);
}

/// The message for a command that nobody implements ends in its number, in
/// two hexadecimal digits.
pub proof fn law_unknown_command_is_named(command: u8, r: String, high: int, low: int)
    requires
        call_ensures(unknown_command_message, (command,), r),
        0 <= high < 16,
        0 <= low < 16,
        command == 16 * high + low,
    ensures
        r@ == "Unknown command 0x"@ + seq!["0123456789abcdef"@[high], "0123456789abcdef"@[low]],
{
    reveal_strlit("0123456789abcdef");
    assert(command / 16 == high && command % 16 == low);
}

/// Of a packet that begins a command, by the command's number: what the
/// engine parses reaches it byte for byte; 26 and 31, and 17 where it may,
/// reach it as a ping, and 31 and 17 reset the session; anything else is
/// answered with error 1047 and does not reach it.
pub proof fn law_commands_by_number(
    allow_change_user: bool,
    command: u8,
    payload: Seq<u8>,
    rest: Seq<u8>,
)
    requires
        payload.len() < 0xff_ffff,
    ensures
        ({
            let n = payload.len() + 1;
            let packet = seq![
                (n % 256) as u8,
                (n / 256 % 256) as u8,
                (n / 65536 % 256) as u8,
                0u8,
                command,
            ] + payload;
            let all = command_filter::filtered(allow_change_user, packet + rest);
            let after = command_filter::filtered(allow_change_user, rest);
            let parsed = command == 1 || command == 2 || command == 3 || command == 4 || command
                == 14 || command == 22 || command == 23 || command == 24 || command == 25;
            let resets = command == 31 || command == 17 && allow_change_user;
            if parsed {
                &&& all.forwarded == packet + after.forwarded
                &&& all.replied == after.replied
                &&& all.reset == after.reset
            } else if command == 26 || resets {
                &&& all.forwarded == seq![1u8, 0u8, 0u8, 0u8, 14u8] + after.forwarded
                &&& all.replied == after.replied
                &&& all.reset == (resets || after.reset)
            } else {
                &&& all.forwarded == after.forwarded
                &&& all.replied.len() == after.replied.len() + 33
                &&& all.replied.skip(33) == after.replied
                &&& all.replied.take(13) == seq![
                    29u8,
                    0u8,
                    0u8,
                    1u8,
                    255u8,
                    23u8,
                    4u8,
                    35u8,
                    48u8,
                    56u8,
                    83u8,
                    48u8,
                    49u8,
                ]
                &&& all.reset == after.reset
            }
        }),
{
    let n = payload.len() + 1;
    let packet = seq![
        (n % 256) as u8,
        (n / 256 % 256) as u8,
        (n / 65536 % 256) as u8,
        0u8,
        command,
    ] + payload;
    crate::wire::lemma_le3(n);
    assert(packet =~= command_filter::packet_bytes(0, command, payload));
    if command_filter::handled(command) {
        command_filter::law_forwarded_verbatim(allow_change_user, 0, command, payload, rest);
    } else if command_filter::answered_like_ping(command, allow_change_user) {
        command_filter::law_housekeeping_is_a_ping(allow_change_user, command, payload, rest);
    } else {
        command_filter::law_unknown_is_refused(allow_change_user, command, payload, rest);
        let text = command_filter::unknown_command_text(command);
        let reply = command_filter::unknown_reply(1, command);
        let after = command_filter::filtered(allow_change_user, rest);
        reveal_strlit("Unknown command 0x");
        assert(text.len() == 20);
        assert(vstd::utf8::is_ascii_chars(text)) by {
            assert forall|i: int| 0 <= i < text.len() implies (#[trigger] text[i] as u32) < 128 by {}
        }
        vstd::utf8::is_ascii_chars_encode_utf8(text);
        crate::wire::lemma_le3(29);
        crate::wire::lemma_le2(1047);
        assert(reply.len() == 33);
        assert((reply + after.replied).skip(33) =~= after.replied);
        assert((reply + after.replied).take(13) =~= seq![
            29u8,
            0u8,
            0u8,
            1u8,
            255u8,
            23u8,
            4u8,
            35u8,
            48u8,
            56u8,
            83u8,
            48u8,
            49u8,
        ]);
    }
}

/// A connection over the limit is sent one packet: its length, sequence id 0,
/// the code 1040, and a message that names the limit.
pub proof fn law_too_many_connections(limit: usize, r: Vec<u8>)
    requires
        call_ensures(too_many_packet, (limit,), r),
    ensures
        ({
            let b = r@;
            let text = vstd::utf8::encode_utf8(
                "Too many connections (litewire max_connections="@ + crate::text::decimal(
                    limit as nat,
                ) + ")"@,
            );
            &&& b.len() == 7 + text.len()
            &&& b.len() < 0x100_0000 ==> b[0] + 0x100 * b[1] + 0x1_0000 * b[2] == b.len() - 4
            &&& b[3] == 0
            &&& b[4] == 255
            &&& b[5] + 256 * b[6] == 1040
            &&& b.skip(7) == text
        }),
{
    let text = crate::text::utf8(crate::mysql::too_many_text(limit as nat));
    let b = r@;
    let n = 3 + text.len();
    crate::wire::lemma_le3(n);
    crate::wire::lemma_le2(1040);
    assert(b.len() == 7 + text.len());
    if b.len() < 0x100_0000 {
        assert(n / 65536 < 256);
        assert(n / 256 / 256 == n / 65536);
    }
    assert(b.skip(7) =~= text);
}

/// A client that answers with the digest of its password, masked byte by byte
/// with the digest of the challenge and the stored value, is accepted; an
/// answer that is not twenty bytes long is refused, and so is one that does
/// not unmask to a preimage of what is stored.
pub proof fn law_passwords_are_checked(
    password: &[u8],
    stored: [u8; 20],
    salt: &[u8],
    response: &[u8],
    r: bool,
)
    requires
        call_ensures(password_hash, (password,), stored),
        call_ensures(verify, (&stored, salt, response), r),
    ensures
        stored == crate::mysql::native_password::sha1_of(
            crate::mysql::native_password::sha1_of(password@)@,
        ),
        response@.len() != 20 ==> !r,
        response@.len() == 20 && (forall|i: int|
            0 <= i < 20 ==> #[trigger] response@[i] == (
            crate::mysql::native_password::sha1_of(password@)@[i]
                ^ crate::mysql::native_password::sha1_of(salt@ + stored@)@[i])) ==> r,
        r ==> exists|key: Seq<u8>|
            {
                &&& key.len() == 20
                &&& #[trigger] crate::mysql::native_password::sha1_of(key) == stored
                &&& forall|i: int|
                    0 <= i < 20 ==> #[trigger] response@[i] == (key[i]
                        ^ crate::mysql::native_password::sha1_of(salt@ + stored@)@[i])
            },
{
    let own = crate::mysql::native_password::sha1_of(password@)@;
    let mask = crate::mysql::native_password::sha1_of(salt@ + stored@)@;
    if response@.len() == 20 && (forall|i: int|
        0 <= i < 20 ==> #[trigger] response@[i] == (own[i] ^ mask[i])) {
        assert(response@ =~= crate::mysql::native_password::answer(password@, salt@));
        crate::mysql::native_password::law_correct_password_verifies(password@, salt@);
    }
    if r {
        let key = crate::mysql::native_password::masked(response@, mask);
        assert(crate::mysql::native_password::sha1_of(key)@ == stored@);
        assert(crate::mysql::native_password::sha1_of(key) =~= stored);
        assert forall|i: int| 0 <= i < 20 implies #[trigger] response@[i] == (key[i] ^ mask[i]) by {
            let x = response@[i];
            let m = mask[i];
            assert((x ^ m) ^ m == x) by (bit_vector);
        }
    }
}

/// A packet that begins no command, since its sequence id is not zero or it
/// has no payload, reaches the engine byte for byte, whatever it holds.
pub proof fn law_other_packets_pass(
    allow_change_user: bool,
    seq: u8,
    payload: Seq<u8>,
    rest: Seq<u8>,
)
    requires
        payload.len() <= 0xff_ffff,
        seq != 0 || payload.len() == 0,
    ensures
        ({
            let n = payload.len();
            let packet = seq![
                (n % 256) as u8,
                (n / 256 % 256) as u8,
                (n / 65536 % 256) as u8,
                seq,
            ] + payload;
            let all = command_filter::filtered(allow_change_user, packet + rest);
            let after = command_filter::filtered(allow_change_user, rest);
            &&& all.forwarded == packet + after.forwarded
            &&& all.replied == after.replied
            &&& all.reset == after.reset
        }),
{
    let n = payload.len();
    let packet = seq![
        (n % 256) as u8,
        (n / 256 % 256) as u8,
        (n / 65536 % 256) as u8,
        seq,
    ] + payload;
    let input = packet + rest;
    assert(n / 65536 < 256);
    assert(n / 256 / 256 == n / 65536);
    assert(command_filter::announced(input) == n);
    assert(input.take(packet.len() as int) =~= packet);
    assert(input.skip(packet.len() as int) =~= rest);
    if n > 0 {
        assert(input[3] == seq);
    }
}

/// A command that the stream cuts off reaches the engine as far as it came,
/// where the engine parses it; nothing is made of any other, but that the
/// reset that it asks for is due.
pub proof fn law_cut_commands(allow_change_user: bool, input: Seq<u8>)
    requires
        input.len() >= 5,
        input[3] == 0,
        input.len() < 4 + input[0] + 256 * input[1] + 65536 * input[2],
    ensures
        ({
            let all = command_filter::filtered(allow_change_user, input);
            let command = input[4];
            let parsed = command == 1 || command == 2 || command == 3 || command == 4 || command
                == 14 || command == 22 || command == 23 || command == 24 || command == 25;
            &&& all.replied.len() == 0
            &&& parsed ==> all.forwarded == input && !all.reset
            &&& !parsed ==> all.forwarded.len() == 0
            &&& !parsed ==> (all.reset <==> command == 31 || command == 17 && allow_change_user)
        }),
{
    let all = command_filter::filtered(allow_change_user, input);
    if command_filter::handled(input[4]) {
        assert(all.forwarded =~= input);
    }
}

/// Nothing is made of a header that the stream cuts off.
pub proof fn law_cut_headers(allow_change_user: bool, input: Seq<u8>)
    requires
        input.len() < 4,
    ensures
        ({
            let all = command_filter::filtered(allow_change_user, input);
            all.forwarded.len() == 0 && all.replied.len() == 0 && !all.reset
        }),
{
}

} // verus!
