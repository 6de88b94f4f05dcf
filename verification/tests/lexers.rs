use rsp_codec::hex::hex_value;
use rsp_codec::stream::{tag, take, take_until};
use rsp_codec::{
    hex_digit, hex_number, two_digit_hex, Error, ErrorKind, Needed, NomKind, Unparsed,
};

fn plain_error(input: &[u8], kind: ErrorKind) -> Unparsed {
    Unparsed::Error(Error { input: input.to_vec(), kind, context: None, causes: Vec::new() })
}

#[test]
fn needed_of_zero_is_unknown() {
    assert_eq!(Needed::new(0), Needed::Unknown);
    assert_eq!(Needed::new(3), Needed::Size(3));
    assert!(!Needed::Unknown.is_known());
    assert!(Needed::Size(1).is_known());
}

#[test]
fn tag_accepts_its_bytes_and_leaves_the_rest() {
    assert_eq!(tag(b"thread:", b"thread:1;"), Ok((&b"1;"[..], &b"thread:"[..])));
    assert_eq!(tag(b"$", b"$"), Ok((&b""[..], &b"$"[..])));
    assert_eq!(tag(b"", b"abc"), Ok((&b"abc"[..], &b""[..])));
}

#[test]
fn tag_rejects_a_mismatch_with_the_whole_input() {
    assert_eq!(tag(b"T", b"S05"), Err(plain_error(b"S05", ErrorKind::Nom(NomKind::Tag))));
    assert_eq!(
        tag(b"thread:", b"thraed:"),
        Err(plain_error(b"thraed:", ErrorKind::Nom(NomKind::Tag)))
    );
    // A mismatch is definite even where the buffer is shorter than the tag.
    assert_eq!(tag(b"thread:", b"tx"), Err(plain_error(b"tx", ErrorKind::Nom(NomKind::Tag))));
}

#[test]
fn tag_asks_for_the_bytes_that_are_missing() {
    assert_eq!(tag(b"thread:", b"thr"), Err(Unparsed::Incomplete(Needed::Size(4))));
    assert_eq!(tag(b"T", b""), Err(Unparsed::Incomplete(Needed::Size(1))));
}

#[test]
fn take_splits_or_asks_for_more() {
    assert_eq!(take(2, b"abc"), Ok((&b"c"[..], &b"ab"[..])));
    assert_eq!(take(3, b"abc"), Ok((&b""[..], &b"abc"[..])));
    assert_eq!(take(0, b""), Ok((&b""[..], &b""[..])));
    assert_eq!(take(5, b"abc"), Err(Unparsed::Incomplete(Needed::Size(2))));
}

#[test]
fn take_until_stops_before_the_first_stop_byte() {
    assert_eq!(take_until(b'#', b"foo#44#"), Ok((&b"#44#"[..], &b"foo"[..])));
    assert_eq!(take_until(b'#', b"#44"), Ok((&b"#44"[..], &b""[..])));
}

#[test]
fn take_until_without_stop_byte_is_incomplete() {
    assert_eq!(take_until(b'#', b"foo"), Err(Unparsed::Incomplete(Needed::Unknown)));
    assert_eq!(take_until(b'#', b""), Err(Unparsed::Incomplete(Needed::Unknown)));
}

#[test]
fn hex_value_of_every_byte() {
    for b in 0..=255u8 {
        let expected = (b as char).to_digit(16).map(|d| d as u8);
        assert_eq!(hex_value(b), expected, "byte {}", b);
    }
}

#[test]
fn hex_digit_reads_one_digit() {
    assert_eq!(hex_digit(b"a1"), Ok((&b"1"[..], 10)));
    assert_eq!(hex_digit(b"F"), Ok((&b""[..], 15)));
    assert_eq!(hex_digit(b"0"), Ok((&b""[..], 0)));
}

#[test]
fn hex_digit_rejects_other_bytes() {
    assert_eq!(hex_digit(b"g12"), Err(plain_error(b"12", ErrorKind::ExpectedHexDigit('g'))));
    assert_eq!(
        hex_digit(&[0xe9, 0x31]),
        Err(plain_error(b"1", ErrorKind::ExpectedHexDigit('\u{e9}')))
    );
}

#[test]
fn hex_digit_on_empty_input_is_incomplete() {
    assert_eq!(hex_digit(b""), Err(Unparsed::Incomplete(Needed::Size(1))));
}

#[test]
fn two_digit_hex_counts_the_first_digit_sixteen_times() {
    assert_eq!(two_digit_hex(b"ff"), Ok((&b""[..], 255)));
    assert_eq!(two_digit_hex(b"A0rest"), Ok((&b"rest"[..], 160)));
    assert_eq!(two_digit_hex(b"07"), Ok((&b""[..], 7)));
}

#[test]
fn two_digit_hex_fails_at_the_digit_that_is_wrong() {
    assert_eq!(two_digit_hex(b"x1"), Err(plain_error(b"1", ErrorKind::ExpectedHexDigit('x'))));
    assert_eq!(two_digit_hex(b"1x2"), Err(plain_error(b"2", ErrorKind::ExpectedHexDigit('x'))));
    assert_eq!(two_digit_hex(b"1"), Err(Unparsed::Incomplete(Needed::Size(1))));
    assert_eq!(two_digit_hex(b""), Err(Unparsed::Incomplete(Needed::Size(1))));
}

#[test]
fn hex_number_takes_the_longest_run() {
    assert_eq!(hex_number(b"22_foo"), Ok((&b"_foo"[..], 0x22)));
    assert_eq!(hex_number(b"DeadBeef;"), Ok((&b";"[..], 0xdead_beef)));
    assert_eq!(hex_number(b"ffffffffffffffff."), Ok((&b"."[..], u64::MAX)));
    assert_eq!(hex_number(b"0000000000000000001 "), Ok((&b" "[..], 1)));
}

#[test]
fn hex_number_keeps_the_low_64_bits() {
    assert_eq!(hex_number(b"123456789abcdef01;"), Ok((&b";"[..], 0x2345_6789_abcd_ef01)));
    assert_eq!(hex_number(b"10000000000000000;"), Ok((&b";"[..], 0)));
}

#[test]
fn hex_number_without_digits_fails_as_many1() {
    let expected = Unparsed::Error(Error {
        input: b"aa1".to_vec(),
        kind: ErrorKind::ExpectedHexDigit('z'),
        context: None,
        causes: vec![ErrorKind::Nom(NomKind::Many1)],
    });
    assert_eq!(hex_number(b"zaa1"), Err(expected));
}

#[test]
fn hex_number_at_the_end_of_the_buffer_is_incomplete() {
    assert_eq!(hex_number(b"22"), Err(Unparsed::Incomplete(Needed::Size(1))));
    assert_eq!(hex_number(b""), Err(Unparsed::Incomplete(Needed::Size(1))));
}
