//! Framing and integrity: `$`, the body, `#`, and two hex digits that spell
//! the sum of the bytes of the body, modulo 256.

use vstd::prelude::*;
use crate::error::{Error, ErrorKind, ErrorView, Unparsed, UnparsedView};
use crate::expand::{expand_body, expand_spec, is_plain, lemma_expand_plain};
use crate::hex::{
    hex_pair, hex_value, is_hex, lemma_two_digit_hex_of_pair, two_digit_hex, two_digit_hex_spec,
};
use crate::stream::{
    first_at, lemma_position_found, lemma_tag_accepts, parsed, tag, tag_spec, take_until,
    take_until_spec,
};
use vstd::slice::slice_subrange;

verus! {

/// The byte that opens a packet: `$`.
pub const PACKET_START: u8 = 0x24;

/// The byte between the body and its checksum: `#`.
pub const CHECKSUM_START: u8 = 0x23;

/// The byte that opens the body of an error reply: `E`.
pub const ERROR_REPLY: u8 = 0x45;

/// The sum of the bytes of `body`.
pub open spec fn byte_sum(body: Seq<u8>) -> nat
    decreases body.len(),
{
    if body.len() == 0 {
        0
    } else {
        byte_sum(body.drop_last()) + body.last() as nat
    }
}

/// The checksum of a body: the sum of its bytes, modulo 256.
pub open spec fn compute_checksum_spec(body: Seq<u8>) -> u8 {
    (byte_sum(body) % 256) as u8
}

/// Computes the checksum of `body`.
pub fn compute_checksum(body: &[u8]) -> (sum: u8)
    ensures
        sum == compute_checksum_spec(body@),
{
    let mut sum: u8 = 0;
    let mut k: usize = 0;
    while k < body.len()
        invariant
            k <= body.len(),
            sum == byte_sum(body@.take(k as int)) % 256,
        decreases body.len() - k,
    {
        let wide: u16 = sum as u16 + body[k] as u16;
        proof {
            assert(body@.take(k + 1).drop_last() =~= body@.take(k as int));
        }
        sum = (wide % 256) as u8;
        k += 1;
    }
    proof {
        assert(body@.take(k as int) =~= body@);
    }
    sum
}

/// `checksum` as a mathematical function: two hex digits.
pub open spec fn checksum_spec(i: Seq<u8>) -> Result<(Seq<u8>, u8), UnparsedView> {
    two_digit_hex_spec(i)
}

/// Parses the checksum that was sent with a packet.
pub fn checksum(i: &[u8]) -> (r: Result<(&[u8], u8), Unparsed>)
    ensures
        parsed(r) == checksum_spec(i@),
{
    two_digit_hex(i)
}

/// Whether `body` is an error reply with more than its two hex digits: `E`,
/// two hex digits, and at least one byte after them.
pub open spec fn is_overlong_error_body(body: Seq<u8>) -> bool {
    &&& body.len() > 3
    &&& body[0] == ERROR_REPLY
    &&& is_hex(body[1])
    &&& is_hex(body[2])
}

/// What a body whose checksum was sent as `expected` decodes to. A wrong
/// checksum is reported before anything else; then an error reply, by its
/// code; only then is the body expanded.
pub open spec fn checked_body_spec(body: Seq<u8>, expected: u8) -> Result<Seq<u8>, UnparsedView> {
    let actual = compute_checksum_spec(body);
    if expected != actual {
        Err(
            UnparsedView::Error(
                ErrorView::fresh(body, ErrorKind::FailedChecksum { expected, actual }),
            ),
        )
    } else if body.len() > 0 && body[0] == ERROR_REPLY {
        match two_digit_hex_spec(body.skip(1)) {
            Err(e) => Err(e),
            Ok((_, code)) => Err(
                UnparsedView::Error(ErrorView::fresh(body.skip(1), ErrorKind::App(code))),
            ),
        }
    } else {
        match expand_spec(body) {
            Err(e) => Err(UnparsedView::Error(ErrorView::fresh(body, ErrorKind::ExpandBody(e)))),
            Ok(out) => Ok(out),
        }
    }
}

/// The three parts of a packet at the start of `i`: the bytes behind the
/// packet, then its body as sent and the checksum sent with it.
pub open spec fn frame_spec(i: Seq<u8>) -> Result<(Seq<u8>, (Seq<u8>, u8)), UnparsedView> {
    match tag_spec(seq![PACKET_START], i) {
        Err(e) => Err(e),
        Ok((i, _)) => match take_until_spec(CHECKSUM_START, i) {
            Err(e) => Err(e),
            Ok((i, body)) => match checksum_spec(i.skip(1)) {
                Err(e) => Err(e),
                Ok((i, expected)) => Ok((i, (body, expected))),
            },
        },
    }
}

/// `packet_body` as a mathematical function.
pub open spec fn packet_body_spec(i: Seq<u8>) -> Result<(Seq<u8>, Seq<u8>), UnparsedView> {
    match frame_spec(i) {
        Err(e) => Err(e),
        Ok((i, (body, expected))) => match checked_body_spec(body, expected) {
            Err(e) => Err(e),
            Ok(out) => Ok((i, out)),
        },
    }
}

/// Whether `i` begins with a packet whose checksum is right and whose body
/// is an error reply with bytes after its code. No peer that keeps to the
/// protocol sends one, and `packet_body` does not take it.
pub open spec fn is_overlong_error_reply_spec(i: Seq<u8>) -> bool {
    match frame_spec(i) {
        Err(_) => false,
        Ok((_, (body, expected))) => expected == compute_checksum_spec(body)
            && is_overlong_error_body(body),
    }
}

/// The packet that carries `body` with the checksum `sent`.
pub open spec fn packet_of(body: Seq<u8>, sent: u8) -> Seq<u8> {
    seq![PACKET_START] + body + seq![CHECKSUM_START] + hex_pair(sent)
}

/// Whether `body` can be framed: it holds no `#`.
pub open spec fn is_framable(body: Seq<u8>) -> bool {
    forall|k: int| 0 <= k < body.len() ==> body[k] != CHECKSUM_START
}

/// A packet falls into the parts that it was made of, and what stands
/// behind it is left over.
pub proof fn lemma_frame_of_packet(body: Seq<u8>, sent: u8, tail: Seq<u8>)
    requires
        is_framable(body),
    ensures
        frame_spec(packet_of(body, sent) + tail) == Ok::<(Seq<u8>, (Seq<u8>, u8)), UnparsedView>(
            (tail, (body, sent)),
        ),
{
    let i = packet_of(body, sent) + tail;
    let after = body + seq![CHECKSUM_START] + hex_pair(sent) + tail;
    assert(i =~= seq![PACKET_START] + after);
    lemma_tag_accepts(seq![PACKET_START], after);
    let k = body.len() as int;
    assert(first_at(after, CHECKSUM_START, k)) by {
        assert(after[k] == CHECKSUM_START);
        assert forall|j: int| 0 <= j < k implies after[j] != CHECKSUM_START by {
            assert(after[j] == body[j]);
        }
    }
    lemma_position_found(after, CHECKSUM_START, k);
    assert(after.take(k) =~= body);
    assert(after.skip(k).skip(1) =~= hex_pair(sent) + tail);
    lemma_two_digit_hex_of_pair(sent, tail);
}

/// A body without indicators, sent with its own checksum, is decoded to
/// itself. The body must be one that can be framed, and no error reply.
pub proof fn lemma_packet_round_trip(body: Seq<u8>, tail: Seq<u8>)
    requires
        is_plain(body),
        is_framable(body),
        body.len() > 0 ==> body[0] != ERROR_REPLY,
    ensures
        !is_overlong_error_reply_spec(packet_of(body, compute_checksum_spec(body)) + tail),
        packet_body_spec(packet_of(body, compute_checksum_spec(body)) + tail) == Ok::<
            (Seq<u8>, Seq<u8>),
            UnparsedView,
        >((tail, body)),
{
    lemma_frame_of_packet(body, compute_checksum_spec(body), tail);
    lemma_expand_plain(body);
}

/// A packet sent with a checksum that is not that of its body is refused
/// for that reason, whatever the body holds, and the error carries both
/// checksums.
pub proof fn lemma_checksum_tamper(body: Seq<u8>, sent: u8, tail: Seq<u8>)
    requires
        is_framable(body),
        sent != compute_checksum_spec(body),
    ensures
        !is_overlong_error_reply_spec(packet_of(body, sent) + tail),
        packet_body_spec(packet_of(body, sent) + tail) == Err::<(Seq<u8>, Seq<u8>), UnparsedView>(
            UnparsedView::Error(
                ErrorView::fresh(
                    body,
                    ErrorKind::FailedChecksum {
                        expected: sent,
                        actual: compute_checksum_spec(body),
                    },
                ),
            ),
        ),
{
    lemma_frame_of_packet(body, sent, tail);
}

/// An error reply with the code `code`, sent with its own checksum, is
/// reported as the application error `code`, at the two digits of the code.
pub proof fn lemma_error_reply(code: u8, tail: Seq<u8>)
    ensures
        !is_overlong_error_reply_spec(
            packet_of(
                seq![ERROR_REPLY] + hex_pair(code),
                compute_checksum_spec(seq![ERROR_REPLY] + hex_pair(code)),
            ) + tail,
        ),
        packet_body_spec(
            packet_of(
                seq![ERROR_REPLY] + hex_pair(code),
                compute_checksum_spec(seq![ERROR_REPLY] + hex_pair(code)),
            ) + tail,
        ) == Err::<(Seq<u8>, Seq<u8>), UnparsedView>(
            UnparsedView::Error(ErrorView::fresh(hex_pair(code), ErrorKind::App(code))),
        ),
{
    let body = seq![ERROR_REPLY] + hex_pair(code);
    assert(is_framable(body));
    lemma_frame_of_packet(body, compute_checksum_spec(body), tail);
    assert(body.skip(1) =~= hex_pair(code) + Seq::<u8>::empty());
    assert(body.skip(1) =~= hex_pair(code));
    lemma_two_digit_hex_of_pair(code, Seq::empty());
}

/// Splits the packet at the start of `i` into its parts, without judging
/// them.
pub fn frame(i: &[u8]) -> (r: Result<(&[u8], (&[u8], u8)), Unparsed>)
    ensures
        match r {
            Ok((rest, (body, expected))) => frame_spec(i@) == Ok::<
                (Seq<u8>, (Seq<u8>, u8)),
                UnparsedView,
            >((rest@, (body@, expected))),
            Err(e) => frame_spec(i@) == Err::<(Seq<u8>, (Seq<u8>, u8)), UnparsedView>(e@),
        },
{
    let start = [PACKET_START];
    assert(start@ =~= seq![PACKET_START]);
    let (i, _) = match tag(start.as_slice(), i) {
        Ok(found) => found,
        Err(e) => {
            return Err(e);
        },
    };
    let (i, body) = match take_until(CHECKSUM_START, i) {
        Ok(found) => found,
        Err(e) => {
            return Err(e);
        },
    };
    let i = slice_subrange(i, 1, i.len());
    let (i, expected) = match checksum(i) {
        Ok(found) => found,
        Err(e) => {
            return Err(e);
        },
    };
    Ok((i, (body, expected)))
}

/// Tells whether `i` is an input that `packet_body` does not take.
pub fn is_overlong_error_reply(i: &[u8]) -> (r: bool)
    ensures
        r == is_overlong_error_reply_spec(i@),
{
    match frame(i) {
        Err(_) => false,
        Ok((_, (body, expected))) => {
            expected == compute_checksum(body) && body.len() > 3 && body[0] == ERROR_REPLY
                && hex_value(body[1]).is_some() && hex_value(body[2]).is_some()
        },
    }
}

/// Decodes the packet at the start of `i`: checks its checksum and expands
/// its body. Returns the expanded body and the bytes behind the packet.
pub fn packet_body(i: &[u8]) -> (r: Result<(&[u8], Vec<u8>), Unparsed>)
    requires
        !is_overlong_error_reply_spec(i@),
    ensures
        parsed(r) == packet_body_spec(i@),
{
    let (i, (body, expected)) = match frame(i) {
        Ok(found) => found,
        Err(e) => {
            return Err(e);
        },
    };
    let actual: u8 = compute_checksum(body);
    if expected != actual {
        return Err(Error::new(body, ErrorKind::FailedChecksum { expected, actual }));
    }
    if body.len() > 0 && body[0] == ERROR_REPLY {
        let body = slice_subrange(body, 1, body.len());
        let (_, code) = match two_digit_hex(body) {
            Ok(found) => found,
            Err(e) => {
                return Err(e);
            },
        };
        return Err(Error::new(body, ErrorKind::App(code)));
    }
    match expand_body(body) {
        Ok(out) => Ok((i, out)),
        Err(e) => Err(Error::new(body, ErrorKind::ExpandBody(e))),
    }
}

} // verus!
