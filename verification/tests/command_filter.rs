use litewire::mysql::command_filter::{
    err_packet, is_handled_upstream, ping_packet, CommandFilter, FilterError, Step,
    COM_CHANGE_USER, COM_QUERY, COM_RESET_CONNECTION, COM_STMT_CLOSE, COM_STMT_PREPARE,
    COM_STMT_RESET,
};

fn packet(seq: u8, command: u8, payload: &[u8]) -> Vec<u8> {
    let len = 1 + payload.len();
    let mut p = vec![
        (len & 0xff) as u8,
        ((len >> 8) & 0xff) as u8,
        ((len >> 16) & 0xff) as u8,
        seq,
        command,
    ];
    p.extend_from_slice(payload);
    p
}

/// Feeds `input` through a filter, at most `chunk` bytes at a time, and
/// collects what the protocol engine would see and what the client would be
/// sent.
fn run_chunked(input: &[u8], allow_change_user: bool, chunk: usize) -> (Vec<u8>, Vec<u8>, bool) {
    let mut filter = CommandFilter::new(allow_change_user);
    let mut forwarded = Vec::new();
    let mut replied = Vec::new();
    let mut at = 0;
    loop {
        match filter.next(64) {
            Step::Closed => break,
            Step::Full => panic!("there was room"),
            Step::Read(n) => {
                let n = n.min(chunk).min(input.len() - at);
                filter.received(&input[at..at + n]);
                at += n;
            }
            Step::Forward(n) => {
                let n = n.min(chunk).min(input.len() - at);
                forwarded.extend_from_slice(&input[at..at + n]);
                filter.forwarded(n);
                at += n;
            }
            Step::Discard(n) => {
                let n = n.min(chunk).min(input.len() - at);
                filter.discarded(n);
                at += n;
            }
            Step::Hand(bytes) => {
                assert!(bytes.len() <= 64);
                forwarded.extend_from_slice(&bytes);
            }
            Step::Send(bytes) => {
                let n = bytes.len().min(chunk);
                replied.extend_from_slice(&bytes[..n]);
                filter.sent(n).unwrap();
            }
            Step::Flush => filter.flushed(),
        }
    }
    let reset = filter.take_reset();
    (forwarded, replied, reset)
}

fn run(input: &[u8], allow_change_user: bool) -> (Vec<u8>, Vec<u8>, bool) {
    run_chunked(input, allow_change_user, 4096)
}

#[test]
fn query_is_forwarded_verbatim() {
    let input = packet(0, COM_QUERY, b"SELECT 1");
    let (forwarded, replied, reset) = run(&input, true);
    assert_eq!(forwarded, input);
    assert!(replied.is_empty(), "no reply should be synthesized");
    assert!(!reset);
}

#[test]
fn several_packets_are_forwarded_in_order() {
    let mut input = packet(0, COM_QUERY, b"SELECT 1");
    input.extend(packet(0, COM_STMT_PREPARE, b"SELECT ?"));
    input.extend(packet(0, COM_STMT_CLOSE, &[1, 0, 0, 0]));
    let (forwarded, replied, _) = run(&input, true);
    assert_eq!(forwarded, input);
    assert!(replied.is_empty());
}

#[test]
fn stmt_reset_becomes_a_ping() {
    let input = packet(0, COM_STMT_RESET, &[7, 0, 0, 0]);
    let (forwarded, replied, reset) = run(&input, true);
    assert_eq!(forwarded, ping_packet(0).to_vec());
    assert!(replied.is_empty());
    assert!(!reset, "COM_STMT_RESET resets one statement, not the session");
}

#[test]
fn reset_connection_becomes_a_ping_and_flags_a_session_reset() {
    let input = packet(0, COM_RESET_CONNECTION, &[]);
    let (forwarded, replied, reset) = run(&input, true);
    assert_eq!(forwarded, ping_packet(0).to_vec());
    assert!(replied.is_empty());
    assert!(reset);
}

#[test]
fn change_user_is_a_ping_on_the_single_backend_path() {
    let input = packet(0, COM_CHANGE_USER, b"root\0\0test\0");
    let (forwarded, replied, reset) = run(&input, true);
    assert_eq!(forwarded, ping_packet(0).to_vec());
    assert!(replied.is_empty());
    assert!(reset);
}

#[test]
fn change_user_is_refused_on_the_authenticating_path() {
    let input = packet(0, COM_CHANGE_USER, b"root\0\0test\0");
    let (forwarded, replied, reset) = run(&input, false);
    assert!(forwarded.is_empty(), "the command must not reach opensrv-mysql");
    assert_eq!(replied[4], 0xff, "an ERR packet");
    assert_eq!(u16::from_le_bytes([replied[5], replied[6]]), 1047);
    assert!(!reset, "a refused change-user must not reset the session");
}

#[test]
fn unknown_command_gets_an_err_not_an_ok() {
    let input = packet(0, 0x09, &[]);
    let (forwarded, replied, _) = run(&input, true);
    assert!(forwarded.is_empty(), "the command must not reach opensrv-mysql");
    let payload_len = u32::from_le_bytes([replied[0], replied[1], replied[2], 0]) as usize;
    assert_eq!(replied.len(), 4 + payload_len);
    assert_eq!(replied[3], 1, "reply carries the command's sequence + 1");
    assert_eq!(replied[4], 0xff, "an ERR packet");
    assert_eq!(u16::from_le_bytes([replied[5], replied[6]]), 1047);
    assert_eq!(&replied[7..13], b"#08S01");
    assert_eq!(&replied[13..], b"Unknown command 0x09");
}

#[test]
fn a_command_after_an_unknown_one_still_works() {
    let mut input = packet(0, 0x1b, &[1]);
    input.extend(packet(0, COM_QUERY, b"SELECT 1"));
    let (forwarded, replied, _) = run(&input, true);
    assert_eq!(forwarded, packet(0, COM_QUERY, b"SELECT 1"));
    assert_eq!(replied[4], 0xff);
}

#[test]
fn non_zero_sequence_is_never_treated_as_a_command() {
    let input = packet(1, COM_RESET_CONNECTION, b"rest of the handshake");
    let (forwarded, replied, reset) = run(&input, true);
    assert_eq!(forwarded, input);
    assert!(replied.is_empty());
    assert!(!reset);
}

#[test]
fn an_empty_packet_is_forwarded() {
    let input = vec![0, 0, 0, 3];
    let (forwarded, replied, _) = run(&input, true);
    assert_eq!(forwarded, input);
    assert!(replied.is_empty());
}

#[test]
fn a_large_payload_survives_being_split_across_reads() {
    let big = vec![b'x'; 200_000];
    let input = packet(0, COM_QUERY, &big);
    let (forwarded, replied, _) = run(&input, true);
    assert_eq!(forwarded, input);
    assert!(replied.is_empty());
}

#[test]
fn a_header_split_across_reads_is_reassembled() {
    let input = packet(0, COM_STMT_RESET, &[7, 0, 0, 0]);
    let (forwarded, _, _) = run_chunked(&input, true, 1);
    assert_eq!(forwarded, ping_packet(0).to_vec());
}

fn split_reads_do_not_change_what_comes_of_a_stream() {
    let mut input = packet(0, 0x1b, &[1, 2, 3]);
    input.extend(packet(0, COM_QUERY, b"SELECT 1"));
    input.extend(packet(0, COM_RESET_CONNECTION, &[]));
    input.extend(packet(1, 9, b"more"));
    let whole = run(&input, true);
    let mut forwarded = packet(0, COM_QUERY, b"SELECT 1");
    forwarded.extend(ping_packet(0));
    forwarded.extend(packet(1, 9, b"more"));
    let replied = err_packet(1, 1047, b"08S01", "Unknown command 0x1b");
    assert_eq!(whole, (forwarded, replied, true));
    for chunk in 1..8 {
        assert_eq!(run_chunked(&input, true, chunk), whole, "{chunk}");
    }
}

fn packet_cut_short_by_the_client_is_forwarded_as_far_as_it_came() {
    let mut input = packet(0, COM_QUERY, b"SELECT 1");
    input.truncate(8);
    assert_eq!(run(&input, true).0, input);
    let mut input = packet(0, 0x09, b"abc");
    input.truncate(6);
    let (forwarded, replied, _) = run(&input, true);
    assert!(forwarded.is_empty() && replied.is_empty());
}

fn client_that_takes_nothing_is_given_up() {
    let mut filter = CommandFilter::new(true);
    filter.next(64);
    filter.received(&[1, 0, 0, 0]);
    filter.next(64);
    filter.received(&[9]);
    assert!(matches!(filter.next(64), Step::Send(_)));
    let e = filter.sent(0).unwrap_err();
    assert_eq!(e, FilterError::WriteZero);
    assert_eq!(e.message(), "MySQL client stopped accepting bytes mid-reply");
}

fn full_buffer_waits() {
    let mut filter = CommandFilter::new(true);
    filter.next(64);
    filter.received(&[2, 0, 0, 0]);
    filter.next(64);
    filter.received(&[COM_QUERY]);
    assert!(matches!(filter.next(0), Step::Full));
    match filter.next(2) {
        Step::Hand(bytes) => assert_eq!(bytes, vec![2, 0]),
        other => panic!("expected bytes, got {other:?}"),
    }
}

fn commands_of_the_engine() {
    let known: Vec<u8> = (0..=255u8).filter(|&c| is_handled_upstream(c)).collect();
    assert_eq!(known, vec![0x01, 0x02, 0x03, 0x04, 0x0e, 0x16, 0x17, 0x18, 0x19]);
}

fn err_packet_layout() {
    assert_eq!(
        err_packet(1, 1047, b"08S01", "no"),
        vec![11, 0, 0, 1, 0xff, 0x17, 0x04, b'#', b'0', b'8', b'S', b'0', b'1', b'n', b'o']
    );
}

#[test]
fn streams_and_packets_at_the_edges() {
    split_reads_do_not_change_what_comes_of_a_stream();
    packet_cut_short_by_the_client_is_forwarded_as_far_as_it_came();
    client_that_takes_nothing_is_given_up();
    full_buffer_waits();
    commands_of_the_engine();
    err_packet_layout();
}
