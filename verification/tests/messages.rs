use rsp_codec::render::{push_bytes, push_decimal};
use rsp_codec::{halt_reason, Error, ErrorKind, ExpandError, NomKind, Unparsed};

#[test]
fn decimal_is_what_std_prints() {
    for n in [0usize, 1, 9, 10, 11, 99, 100, 255, 256, 1000, 65_535, 4_294_967_296, usize::MAX] {
        let mut out = String::from("n=");
        push_decimal(&mut out, n);
        assert_eq!(out, format!("n={}", n));
    }
}

#[test]
fn bytes_are_printed_as_std_prints_them() {
    for input in [&b""[..], &[0], &[7, 42], b"foo#", &[255, 0, 100, 10, 9]] {
        let mut out = String::from("at ");
        push_bytes(&mut out, input);
        assert_eq!(out, format!("at {:?}", input));
    }
}

#[test]
fn expand_error_messages() {
    assert_eq!(ExpandError::EscapedByte.to_string(), "Expected an escaped byte");
    assert_eq!(ExpandError::RunLengthCount.to_string(), "Expected count for run length encoding");
    assert_eq!(
        ExpandError::RunLengthByte.to_string(),
        "Expected a byte to be repeated to precede run length indicator"
    );
    assert_eq!(ExpandError::EscapedByte.message(), "Expected an escaped byte");
}

#[test]
fn nom_kind_names() {
    assert_eq!(NomKind::Tag.name(), "Tag");
    assert_eq!(NomKind::Many1.name(), "Many1");
    assert_eq!(NomKind::Alt.name(), "Alt");
    assert_eq!(NomKind::SeparatedNonEmptyList.name(), "SeparatedNonEmptyList");
    assert_eq!(NomKind::Fail.name(), "Fail");
    assert_eq!(NomKind::TakeWhileMN.name(), format!("{:?}", NomKind::TakeWhileMN));
}

#[test]
fn error_kind_messages() {
    assert_eq!(ErrorKind::ExpectedHexDigit('z').to_string(), "Expected hex digit, got z");
    assert_eq!(
        ErrorKind::ExpectedHexDigit('\u{e9}').to_string(),
        "Expected hex digit, got \u{e9}"
    );
    assert_eq!(
        ErrorKind::FailedChecksum { expected: 69, actual: 68 }.to_string(),
        "Failed checksum check. Expected 69, got 68"
    );
    assert_eq!(
        ErrorKind::FailedChecksum { expected: 0, actual: 255 }.to_string(),
        "Failed checksum check. Expected 0, got 255"
    );
    assert_eq!(
        ErrorKind::ExpandBody(ExpandError::RunLengthCount).to_string(),
        "Failed to expand body: Expected count for run length encoding"
    );
    assert_eq!(ErrorKind::App(1).to_string(), "Application level error. Code: 1");
    assert_eq!(ErrorKind::App(200).to_string(), "Application level error. Code: 200");
    assert_eq!(ErrorKind::Nom(NomKind::Tag).to_string(), "Nom error: Tag");
}

#[test]
fn utf8_message_is_that_of_std() {
    let cause = std::str::from_utf8(&[b'a', 0xff]).unwrap_err();
    assert_eq!(
        ErrorKind::Utf8(cause).to_string(),
        format!("Failed to parse as utf-8: {}", cause)
    );
    assert_eq!(
        ErrorKind::Utf8(cause).to_string(),
        "Failed to parse as utf-8: invalid utf-8 sequence of 1 bytes from index 1"
    );
}

#[test]
fn error_text_without_context_or_causes() {
    let e = Error {
        input: b"foo".to_vec(),
        kind: ErrorKind::FailedChecksum { expected: 69, actual: 68 },
        context: None,
        causes: Vec::new(),
    };
    assert_eq!(e.to_string(), "Failed checksum check. Expected 69, got 68\n\t[102, 111, 111]");
}

#[test]
fn error_text_with_context_and_causes() {
    let e = Error {
        input: b"1;".to_vec(),
        kind: ErrorKind::ExpectedHexDigit('p'),
        context: Some("thread_id"),
        causes: vec![ErrorKind::Nom(NomKind::Many1), ErrorKind::Nom(NomKind::Alt)],
    };
    assert_eq!(
        e.to_string(),
        "thread_id Expected hex digit, got p. Caused by: Nom error: Many1Nom error: Alt\n\t[49, 59]"
    );
}

#[test]
fn error_text_with_empty_input() {
    let e = Error::new_inner(b"", ErrorKind::App(7));
    assert_eq!(e.to_string(), "Application level error. Code: 7\n\t[]");
}

#[test]
fn error_text_of_a_failed_parse() {
    let e = match halt_reason(b"T05thread:p1;") {
        Err(Unparsed::Error(e)) => e,
        other => panic!("expected an error, got {:?}", other),
    };
    assert_eq!(
        e.to_string(),
        "thread_id Expected hex digit, got p. Caused by: Nom error: Many1Nom error: Alt\n\t[49, 59]"
    );
}

#[test]
fn error_constructors() {
    let fresh = Error::new_inner(b"ab", ErrorKind::App(3));
    assert_eq!(
        fresh,
        Error { input: b"ab".to_vec(), kind: ErrorKind::App(3), context: None, causes: vec![] }
    );
    assert_eq!(
        Error::new(b"ab", ErrorKind::App(3)),
        Unparsed::Error(Error::new_inner(b"ab", ErrorKind::App(3)))
    );
    assert_eq!(
        Unparsed::from(Error::new_inner(b"ab", ErrorKind::App(3))),
        Error::new(b"ab", ErrorKind::App(3))
    );
    assert_eq!(
        Error::from_error_kind(b"x", NomKind::Tag),
        Error::new_inner(b"x", ErrorKind::Nom(NomKind::Tag))
    );
}

#[test]
fn append_adds_at_the_end_and_keeps_the_place() {
    let e = Error::from_error_kind(b"x", NomKind::Tag);
    let e = Error::append(b"elsewhere", NomKind::Many1, e);
    let e = Error::append(b"elsewhere", NomKind::Alt, e);
    assert_eq!(e.input, b"x".to_vec());
    assert_eq!(e.kind, ErrorKind::Nom(NomKind::Tag));
    assert_eq!(e.causes, vec![ErrorKind::Nom(NomKind::Many1), ErrorKind::Nom(NomKind::Alt)]);
    assert_eq!(e.context, None);
}

#[test]
fn add_context_replaces_the_name() {
    let e = Error::from_error_kind(b"x", NomKind::Tag);
    let e = Error::add_context(b"elsewhere", "inner", e);
    assert_eq!(e.context, Some("inner"));
    let e = Error::add_context(b"elsewhere", "outer", e);
    assert_eq!(e.context, Some("outer"));
    assert_eq!(e.input, b"x".to_vec());
    assert!(e.causes.is_empty());
}
