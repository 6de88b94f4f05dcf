use rsp_codec::packet::frame;
use rsp_codec::{
    compute_checksum, expand_body, is_overlong_error_reply, packet_body, Error, ErrorKind,
    ExpandError, Needed, NomKind, Unparsed,
};

fn plain_error(input: &[u8], kind: ErrorKind) -> Unparsed {
    Unparsed::Error(Error { input: input.to_vec(), kind, context: None, causes: Vec::new() })
}

fn packet_of(body: &[u8]) -> Vec<u8> {
    let mut packet = vec![b'$'];
    packet.extend_from_slice(body);
    packet.push(b'#');
    packet.extend_from_slice(format!("{:02x}", compute_checksum(body)).as_bytes());
    packet
}

#[test]
fn checksum_is_the_sum_modulo_256() {
    assert_eq!(compute_checksum(b""), 0);
    assert_eq!(compute_checksum(b"foo"), 0x44);
    assert_eq!(compute_checksum(b"hello"), 0x14);
    assert_eq!(compute_checksum(&[0xff, 0xff, 0x03]), 0x01);
}

#[test]
fn expand_body_leaves_plain_bytes_alone() {
    assert_eq!(expand_body(b"").unwrap(), b"".to_vec());
    assert_eq!(expand_body(b"qSupported:xmlRegisters=i386").unwrap(), b"qSupported:xmlRegisters=i386".to_vec());
}

#[test]
fn expand_body_bare_escape_fails() {
    assert!(matches!(expand_body(&[0x7d]), Err(ExpandError::EscapedByte)));
    assert!(matches!(expand_body(b"abc}"), Err(ExpandError::EscapedByte)));
}

#[test]
fn expand_body_escape_takes_any_byte() {
    // The escaped byte may itself be an indicator.
    assert_eq!(expand_body(b"}}").unwrap(), vec![0x5d]);
    assert_eq!(expand_body(b"}*!").unwrap(), vec![0x0a, 0x21]);
    assert_eq!(expand_body(&[0x7d, 0x5d]).unwrap(), vec![0x7d]);
}

#[test]
fn expand_body_run_without_count_fails() {
    assert!(matches!(expand_body(b"a*"), Err(ExpandError::RunLengthCount)));
    assert!(matches!(expand_body(b"*"), Err(ExpandError::RunLengthCount)));
}

#[test]
fn expand_body_run_without_byte_fails() {
    assert!(matches!(expand_body(b"*!"), Err(ExpandError::RunLengthByte)));
    assert!(matches!(expand_body(b"*!abc"), Err(ExpandError::RunLengthByte)));
}

#[test]
fn expand_body_run_repeats_the_last_output_byte() {
    // 0x7d 0x03 gives 0x23, and the run repeats that byte, not 0x03.
    assert_eq!(expand_body(&[0x7d, 0x03, 0x2a, 0x1f]).unwrap(), vec![0x23, 0x23, 0x23]);
    // A run after a run goes on with the same byte.
    assert_eq!(expand_body(b"a*\x1e*\x1e").unwrap(), b"aaa".to_vec());
}

#[test]
fn expand_body_enforces_no_minimum_count() {
    // 29 stands for one occurrence, which is there already.
    assert_eq!(expand_body(&[b'a', b'*', 29]).unwrap(), b"a".to_vec());
    // Counts of zero or less add nothing either.
    assert_eq!(expand_body(&[b'a', b'*', 28, b'b']).unwrap(), b"ab".to_vec());
    assert_eq!(expand_body(&[b'a', b'*', 0]).unwrap(), b"a".to_vec());
    assert_eq!(expand_body(&[b'a', b'*', 30]).unwrap(), b"aa".to_vec());
}

#[test]
fn expand_body_longest_run() {
    let out = expand_body(&[b'z', b'*', 255]).unwrap();
    assert_eq!(out.len(), 227);
    assert!(out.iter().all(|b| *b == b'z'));
}

#[test]
fn frame_splits_a_packet() {
    assert_eq!(frame(b"$foo#44tail"), Ok((&b"tail"[..], (&b"foo"[..], 0x44))));
    assert_eq!(frame(b"$foo#00"), Ok((&b""[..], (&b"foo"[..], 0))));
}

#[test]
fn packet_body_round_trip() {
    for body in [&b""[..], b"OK", b"hello", b"m0,4", b"1234abcd"] {
        let packet = packet_of(body);
        assert_eq!(packet_body(&packet), Ok((&b""[..], body.to_vec())));
    }
}

#[test]
fn packet_body_leaves_what_follows_the_packet() {
    assert_eq!(packet_body(b"$OK#9a$next"), Ok((&b"$next"[..], b"OK".to_vec())));
    assert_eq!(packet_body(b"$OK#9A+"), Ok((&b"+"[..], b"OK".to_vec())));
}

#[test]
fn packet_body_expands_the_body() {
    assert_eq!(packet_body(b"$foo_X*!_bar#da"), Ok((&b""[..], b"foo_XXXXX_bar".to_vec())));
    assert_eq!(packet_body(b"$X*!#a3"), Ok((&b""[..], b"XXXXX".to_vec())));
}

#[test]
fn packet_body_checksum_tampering() {
    assert_eq!(
        packet_body(b"$foo#45"),
        Err(plain_error(b"foo", ErrorKind::FailedChecksum { expected: 0x45, actual: 0x44 }))
    );
    // The checksum is judged before the body is looked at.
    assert_eq!(
        packet_body(b"$E01#00"),
        Err(plain_error(b"E01", ErrorKind::FailedChecksum { expected: 0, actual: 0xa6 }))
    );
    assert_eq!(
        packet_body(b"$a}#00"),
        Err(plain_error(b"a}", ErrorKind::FailedChecksum { expected: 0, actual: 0xde }))
    );
}

#[test]
fn packet_body_without_start_marker() {
    assert_eq!(packet_body(b"+$OK#9a"), Err(plain_error(b"+$OK#9a", ErrorKind::Nom(NomKind::Tag))));
}

#[test]
fn packet_body_incomplete() {
    assert_eq!(packet_body(b""), Err(Unparsed::Incomplete(Needed::Size(1))));
    assert_eq!(packet_body(b"$"), Err(Unparsed::Incomplete(Needed::Unknown)));
    assert_eq!(packet_body(b"$foo"), Err(Unparsed::Incomplete(Needed::Unknown)));
    assert_eq!(packet_body(b"$foo#"), Err(Unparsed::Incomplete(Needed::Size(1))));
    assert_eq!(packet_body(b"$foo#4"), Err(Unparsed::Incomplete(Needed::Size(1))));
}

#[test]
fn packet_body_checksum_that_is_no_hex() {
    assert_eq!(
        packet_body(b"$foo#4x"),
        Err(plain_error(b"", ErrorKind::ExpectedHexDigit('x')))
    );
    assert_eq!(
        packet_body(b"$foo#x4"),
        Err(plain_error(b"4", ErrorKind::ExpectedHexDigit('x')))
    );
}

#[test]
fn packet_body_error_reply() {
    assert_eq!(packet_body(b"$E01#a6"), Err(plain_error(b"01", ErrorKind::App(1))));
    assert_eq!(packet_body(&packet_of(b"Eff")), Err(plain_error(b"ff", ErrorKind::App(255))));
}

#[test]
fn packet_body_error_reply_without_code() {
    assert_eq!(packet_body(b"$Ezz#39"), Err(plain_error(b"z", ErrorKind::ExpectedHexDigit('z'))));
    assert_eq!(packet_body(b"$E1#76"), Err(Unparsed::Incomplete(Needed::Size(1))));
    assert_eq!(packet_body(b"$E#45"), Err(Unparsed::Incomplete(Needed::Size(1))));
}

#[test]
fn packet_body_expansion_errors() {
    assert_eq!(
        packet_body(b"$a}#de"),
        Err(plain_error(b"a}", ErrorKind::ExpandBody(ExpandError::EscapedByte)))
    );
    assert_eq!(
        packet_body(b"$a*#8b"),
        Err(plain_error(b"a*", ErrorKind::ExpandBody(ExpandError::RunLengthCount)))
    );
    assert_eq!(
        packet_body(b"$*!#4b"),
        Err(plain_error(b"*!", ErrorKind::ExpandBody(ExpandError::RunLengthByte)))
    );
}

#[test]
fn overlong_error_reply_is_recognised() {
    assert!(is_overlong_error_reply(b"$E01x#1e"));
    assert!(is_overlong_error_reply(b"$E01x#1etail"));
    // Exactly two digits: an ordinary error reply.
    assert!(!is_overlong_error_reply(b"$E01#a6"));
    // A wrong checksum is reported as such.
    assert!(!is_overlong_error_reply(b"$E01x#00"));
    // Not two hex digits behind the E.
    assert!(!is_overlong_error_reply(b"$Ezzz#b3"));
    assert!(!is_overlong_error_reply(b"$OK#9a"));
    assert!(!is_overlong_error_reply(b"$E01x"));
    assert!(!is_overlong_error_reply(b""));
}
