//! Text inside a reply: bytes that must be UTF-8.

use vstd::prelude::*;
use vstd::string::StringSliceAdditionalSpecFns;
use vstd::utf8::{decode_utf8, encode_utf8_decode_utf8, valid_utf8};
use core::str::Utf8Error;

verus! {

/// The error with which std refuses bytes that are not UTF-8. Nothing is
/// known of a value of it but the bytes that it came from.
#[verifier::external_type_specification]
#[verifier::external_body]
pub struct ExUtf8Error(Utf8Error);

/// The error that `core::str::from_utf8` returns for `bytes`, where they
/// are not UTF-8.
pub uninterp spec fn utf8_failure(bytes: Seq<u8>) -> Utf8Error;

/// Calls `core::str::from_utf8`. It accepts exactly the byte sequences that
/// are well-formed UTF-8, and the text that it returns lies in the very
/// bytes it was given. For any other bytes it returns an error that
/// depends on the bytes alone.
#[verifier::external_body]
pub(crate) fn from_utf8(bytes: &[u8]) -> (r: Result<&str, Utf8Error>)
    ensures
        r is Ok <==> valid_utf8(bytes@),
        r matches Ok(text) ==> text.spec_bytes() == bytes@,
        r matches Err(e) ==> e == utf8_failure(bytes@),
{
    core::str::from_utf8(bytes)
}

/// The characters that `bytes` spell, where they are UTF-8, and the error
/// of std where they are not.
pub open spec fn decode_spec(bytes: Seq<u8>) -> Result<Seq<char>, Utf8Error> {
    if valid_utf8(bytes) {
        Ok(decode_utf8(bytes))
    } else {
        Err(utf8_failure(bytes))
    }
}

/// What reading bytes as UTF-8 gave, as a mathematical value.
pub open spec fn decoded(r: Result<&str, Utf8Error>) -> Result<Seq<char>, Utf8Error> {
    match r {
        Ok(text) => Ok(text@),
        Err(e) => Err(e),
    }
}

/// Reads `bytes` as UTF-8.
pub fn decode(bytes: &[u8]) -> (r: Result<&str, Utf8Error>)
    ensures
        decoded(r) == decode_spec(bytes@),
{
    let r = from_utf8(bytes);
    proof {
        if let Ok(text) = r {
            encode_utf8_decode_utf8(text@);
        }
    }
    r
}

} // verus!
