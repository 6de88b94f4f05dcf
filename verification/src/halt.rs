//! Stop replies: why the target halted.

use vstd::prelude::*;
use vstd::slice::slice_subrange;
use core::str::Utf8Error;
use crate::error::{Error, ErrorKind, ErrorView, Unparsed, UnparsedView};
use crate::hex::{
    hex_number_value, hex_pair, is_hex, lemma_two_digit_hex_of_pair, two_digit_hex,
    two_digit_hex_spec,
};
use crate::stream::{lemma_tag_accepts, parsed, tag, tag_spec};
use crate::text::{decode, decode_spec, decoded};
use crate::thread::{lemma_thread_id_without_process, thread_id, thread_id_spec, ThreadId};

verus! {

/// A stop reply, decoded.
#[derive(Debug, Clone, PartialEq, Eq)]
pub struct HaltReason {
    /// The number of the signal that stopped the target.
    pub signal_num: u8,
    /// The thread that stopped.
    pub thread: ThreadId,
    /// What the target said after the thread, if anything.
    pub reason: Option<String>,
}

/// The mathematical value of a [`HaltReason`].
pub struct HaltReasonView {
    pub signal_num: u8,
    pub thread: ThreadId,
    pub reason: Option<Seq<char>>,
}

impl View for HaltReason {
    type V = HaltReasonView;

    open spec fn view(&self) -> HaltReasonView {
        HaltReasonView {
            signal_num: self.signal_num,
            thread: self.thread,
            reason: match self.reason {
                Some(text) => Some(text@),
                None => None,
            },
        }
    }
}

/// The byte that opens a stop reply: `T`.
pub const STOP_REPLY: u8 = 0x54;

/// The byte that closes the thread of a stop reply: `;`.
pub const FIELD_END: u8 = 0x3b;

/// The bytes that announce the thread of a stop reply: `thread:`.
pub open spec fn thread_field() -> Seq<u8> {
    seq![0x74u8, 0x68u8, 0x72u8, 0x65u8, 0x61u8, 0x64u8, 0x3au8]
}

/// What the bytes behind the thread mean, given what reading them as UTF-8
/// gave: no reason where there are none, else their text.
pub open spec fn reason_spec(reason: Seq<u8>, decoded: Result<Seq<char>, Utf8Error>) -> Result<
    Option<Seq<char>>,
    UnparsedView,
> {
    if reason.len() == 0 {
        Ok(None)
    } else {
        match decoded {
            Ok(text) => Ok(Some(text)),
            Err(e) => Err(UnparsedView::Error(ErrorView::fresh(reason, ErrorKind::Utf8(e)))),
        }
    }
}

/// The reason of a stop reply, or why there is none, as a mathematical value.
pub open spec fn reason_view(r: Result<Option<String>, Unparsed>) -> Result<
    Option<Seq<char>>,
    UnparsedView,
> {
    match r {
        Ok(Some(text)) => Ok(Some(text@)),
        Ok(None) => Ok(None),
        Err(e) => Err(e@),
    }
}

/// Turns the bytes behind the thread of a stop reply, and what reading them
/// as UTF-8 gave, into the reason of the reply.
pub fn reason_text(reason: &[u8], text: Result<&str, Utf8Error>) -> (r: Result<
    Option<String>,
    Unparsed,
>)
    ensures
        reason_view(r) == reason_spec(reason@, decoded(text)),
{
    if reason.len() == 0 {
        Ok(None)
    } else {
        match text {
            Ok(text) => Ok(Some(text.to_owned())),
            Err(e) => Err(Error::new(reason, ErrorKind::Utf8(e))),
        }
    }
}

/// `halt_reason` as a mathematical function: `T`, two hex digits for the
/// signal, `thread:`, a thread identifier, `;`, and the reason, which takes
/// all the bytes that are left.
pub open spec fn halt_reason_spec(i: Seq<u8>) -> Result<(Seq<u8>, HaltReasonView), UnparsedView> {
    match tag_spec(seq![STOP_REPLY], i) {
        Err(e) => Err(e),
        Ok((i, _)) => match two_digit_hex_spec(i) {
            Err(e) => Err(e),
            Ok((i, signal_num)) => match tag_spec(thread_field(), i) {
                Err(e) => Err(e),
                Ok((i, _)) => match thread_id_spec(i) {
                    Err(e) => Err(e),
                    Ok((i, thread)) => match tag_spec(seq![FIELD_END], i) {
                        Err(e) => Err(e),
                        Ok((reason, _)) => match reason_spec(reason, decode_spec(reason)) {
                            Err(e) => Err(e),
                            Ok(reason) => Ok(
                                (Seq::empty(), HaltReasonView { signal_num, thread, reason }),
                            ),
                        },
                    },
                },
            },
        },
    }
}

/// A stop reply made of its parts is decoded to those parts: `T`, the
/// signal in two hex digits, `thread:`, the hex digits of a thread, `;`,
/// and the reason. Nothing is left over. Whether the reply is accepted
/// depends on the reason alone: it must be empty or UTF-8.
pub proof fn lemma_halt_reason_of_reply(signal: u8, thread: Seq<u8>, reason: Seq<u8>)
    requires
        thread.len() > 0,
        forall|j: int| 0 <= j < thread.len() ==> is_hex(thread[j]),
    ensures
        halt_reason_spec(
            seq![STOP_REPLY] + hex_pair(signal) + thread_field() + thread + seq![FIELD_END]
                + reason,
        ) == match reason_spec(reason, decode_spec(reason)) {
            Err(e) => Err::<(Seq<u8>, HaltReasonView), UnparsedView>(e),
            Ok(text) => Ok(
                (
                    Seq::empty(),
                    HaltReasonView {
                        signal_num: signal,
                        thread: ThreadId::SingleProcess {
                            tid: (hex_number_value(thread, thread.len() as int)
                                % 0x1_0000_0000_0000_0000) as u64,
                        },
                        reason: text,
                    },
                ),
            ),
        },
{
    let closing = seq![FIELD_END] + reason;
    let from_thread = thread + closing;
    let from_field = thread_field() + from_thread;
    let from_signal = hex_pair(signal) + from_field;
    let i = seq![STOP_REPLY] + hex_pair(signal) + thread_field() + thread + seq![FIELD_END]
        + reason;
    assert(i =~= seq![STOP_REPLY] + from_signal);
    lemma_tag_accepts(seq![STOP_REPLY], from_signal);
    lemma_two_digit_hex_of_pair(signal, from_field);
    lemma_tag_accepts(thread_field(), from_thread);
    assert(!is_hex(FIELD_END));
    lemma_thread_id_without_process(thread, closing);
    lemma_tag_accepts(seq![FIELD_END], reason);
}

/// A stop reply that is accepted is accepted whole.
pub proof fn lemma_halt_reason_consumes_all(i: Seq<u8>)
    ensures
        halt_reason_spec(i) matches Ok((rest, _)) ==> rest.len() == 0,
{
}

/// Decodes a stop reply. On success nothing of the input is left.
pub fn halt_reason(i: &[u8]) -> (r: Result<(&[u8], HaltReason), Unparsed>)
    ensures
        parsed(r) == halt_reason_spec(i@),
{
    let opening = [STOP_REPLY];
    let field: [u8; 7] = [0x74, 0x68, 0x72, 0x65, 0x61, 0x64, 0x3a];
    let closing = [FIELD_END];
    assert(opening@ =~= seq![STOP_REPLY]);
    assert(field@ =~= thread_field());
    assert(closing@ =~= seq![FIELD_END]);
    let (i, _) = match tag(opening.as_slice(), i) {
        Ok(found) => found,
        Err(e) => {
            return Err(e);
        },
    };
    let (i, signal_num) = match two_digit_hex(i) {
        Ok(found) => found,
        Err(e) => {
            return Err(e);
        },
    };
    let (i, _) = match tag(field.as_slice(), i) {
        Ok(found) => found,
        Err(e) => {
            return Err(e);
        },
    };
    let (i, thread) = match thread_id(i) {
        Ok(found) => found,
        Err(e) => {
            return Err(e);
        },
    };
    let (reason, _) = match tag(closing.as_slice(), i) {
        Ok(found) => found,
        Err(e) => {
            return Err(e);
        },
    };
    let end = slice_subrange(reason, reason.len(), reason.len());
    assert(end@ =~= Seq::<u8>::empty());
    let reason = match reason_text(reason, decode(reason)) {
        Ok(reason) => reason,
        Err(e) => {
            return Err(e);
        },
    };
    Ok((end, HaltReason { signal_num, thread, reason }))
}

} // verus!
