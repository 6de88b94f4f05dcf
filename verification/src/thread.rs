//! Thread identifiers: `p<pid>.<tid>` where the peer numbers processes,
//! `<tid>` alone where it does not.

use vstd::prelude::*;
use crate::error::{Error, ErrorKind, ErrorView, NomKind, Unparsed, UnparsedView};
use crate::hex::{
    hex_number, hex_number_spec, hex_number_value, is_hex, lemma_hex_number_of_digits,
    lemma_hex_run_end, lemma_hex_run_maximal,
};
use crate::stream::{
    lemma_tag_accepts, lemma_tag_refuses, lemma_tag_waits, parsed, tag, tag_spec,
};

verus! {

/// The thread that a reply speaks of.
#[derive(Debug, Clone, PartialEq, Eq, Hash, Structural)]
pub enum ThreadId {
    /// A thread of one of several processes.
    MultiProcess { pid: u64, tid: u64 },
    /// A thread of the only process.
    SingleProcess { tid: u64 },
}

impl View for ThreadId {
    type V = ThreadId;

    open spec fn view(&self) -> ThreadId {
        *self
    }
}

/// The name under which a thread identifier reports its errors.
pub open spec fn thread_id_context() -> Seq<char> {
    "thread_id"@
}

/// The byte that opens an identifier with a process: `p`.
pub const PROCESS_PREFIX: u8 = 0x70;

/// The byte between process and thread: `.`.
pub const PROCESS_SEPARATOR: u8 = 0x2e;

/// `multiprocess_thread_id` as a mathematical function: `p`, a hex number,
/// `.`, a hex number.
pub open spec fn multiprocess_thread_id_spec(i: Seq<u8>) -> Result<
    (Seq<u8>, ThreadId),
    UnparsedView,
> {
    match tag_spec(seq![PROCESS_PREFIX], i) {
        Err(e) => Err(e),
        Ok((i, _)) => match hex_number_spec(i) {
            Err(e) => Err(e),
            Ok((i, pid)) => match tag_spec(seq![PROCESS_SEPARATOR], i) {
                Err(e) => Err(e),
                Ok((i, _)) => match hex_number_spec(i) {
                    Err(e) => Err(e),
                    Ok((i, tid)) => Ok((i, ThreadId::MultiProcess { pid, tid })),
                },
            },
        },
    }
}

/// Parses a thread identifier that names its process.
pub fn multiprocess_thread_id(i: &[u8]) -> (r: Result<(&[u8], ThreadId), Unparsed>)
    ensures
        parsed(r) == multiprocess_thread_id_spec(i@),
{
    let prefix = [PROCESS_PREFIX];
    let separator = [PROCESS_SEPARATOR];
    assert(prefix@ =~= seq![PROCESS_PREFIX]);
    assert(separator@ =~= seq![PROCESS_SEPARATOR]);
    let (i, _) = match tag(prefix.as_slice(), i) {
        Ok(found) => found,
        Err(e) => {
            return Err(e);
        },
    };
    let (i, pid) = match hex_number(i) {
        Ok(found) => found,
        Err(e) => {
            return Err(e);
        },
    };
    let (i, _) = match tag(separator.as_slice(), i) {
        Ok(found) => found,
        Err(e) => {
            return Err(e);
        },
    };
    let (i, tid) = match hex_number(i) {
        Ok(found) => found,
        Err(e) => {
            return Err(e);
        },
    };
    Ok((i, ThreadId::MultiProcess { pid, tid }))
}

/// `singleprocess_thread_id` as a mathematical function: a hex number.
pub open spec fn singleprocess_thread_id_spec(i: Seq<u8>) -> Result<
    (Seq<u8>, ThreadId),
    UnparsedView,
> {
    match hex_number_spec(i) {
        Err(e) => Err(e),
        Ok((i, tid)) => Ok((i, ThreadId::SingleProcess { tid })),
    }
}

/// Parses a thread identifier that names no process.
pub fn singleprocess_thread_id(i: &[u8]) -> (r: Result<(&[u8], ThreadId), Unparsed>)
    ensures
        parsed(r) == singleprocess_thread_id_spec(i@),
{
    match hex_number(i) {
        Ok((i, tid)) => Ok((i, ThreadId::SingleProcess { tid })),
        Err(e) => Err(e),
    }
}

/// `thread_id` as a mathematical function. The form with a process is tried
/// first. Only where it is definitely wrong is the form without one tried, on
/// the same input; where the first form needs more input, so does the whole.
/// Where both are wrong the error is that of the second form, marked as the
/// end of the alternatives and named `thread_id`.
pub open spec fn thread_id_spec(i: Seq<u8>) -> Result<(Seq<u8>, ThreadId), UnparsedView> {
    match multiprocess_thread_id_spec(i) {
        Err(UnparsedView::Error(_)) => match singleprocess_thread_id_spec(i) {
            Err(UnparsedView::Error(e)) => Err(
                UnparsedView::Error(e.append(NomKind::Alt).add_context(thread_id_context())),
            ),
            other => other,
        },
        other => other,
    }
}

/// The two forms are alternatives in a fixed order. Where the form with a
/// process parses, or needs more input, that is the answer. Only where it is
/// definitely wrong is the other form tried, and then on the whole input:
/// the first attempt has consumed nothing. The first byte decides which
/// form a value has: `p` opens a thread of a process, and nothing else does.
pub proof fn lemma_thread_id_alternative(i: Seq<u8>)
    ensures
        !(multiprocess_thread_id_spec(i) matches Err(UnparsedView::Error(_))) ==> thread_id_spec(i)
            == multiprocess_thread_id_spec(i),
        multiprocess_thread_id_spec(i) matches Err(UnparsedView::Error(_)) ==> thread_id_spec(i)
            == match singleprocess_thread_id_spec(i) {
            Err(UnparsedView::Error(e)) => Err(
                UnparsedView::Error(e.append(NomKind::Alt).add_context(thread_id_context())),
            ),
            other => other,
        },
        thread_id_spec(i) matches Ok((_, id)) ==> i.len() > 0 && (id is MultiProcess <==> i[0]
            == PROCESS_PREFIX),
{
    let prefix = seq![PROCESS_PREFIX];
    if i.len() == 0 {
        lemma_tag_waits(prefix);
    } else if i[0] == PROCESS_PREFIX {
        assert(!is_hex(PROCESS_PREFIX));
        lemma_hex_run_end(i, 0, 0);
    } else {
        lemma_tag_refuses(prefix, i);
    }
}

/// Every definite error of `thread_id` is the same but for the place: the
/// first byte of the input is no hex digit. The error names that byte,
/// holds the input behind it, and carries the marks of the two combinators
/// that it passed and the name of the rule. The tag error of the first form
/// is not kept.
pub proof fn lemma_thread_id_error(i: Seq<u8>)
    ensures
        thread_id_spec(i) matches Err(UnparsedView::Error(e)) ==> i.len() > 0 && !is_hex(i[0])
            && e == (ErrorView {
            input: i.skip(1),
            kind: ErrorKind::ExpectedHexDigit(i[0] as char),
            context: Some(thread_id_context()),
            causes: seq![ErrorKind::Nom(NomKind::Many1), ErrorKind::Nom(NomKind::Alt)],
        }),
{
    if let Err(UnparsedView::Error(e)) = thread_id_spec(i) {
        lemma_hex_run_maximal(i, 0);
        assert(Seq::<ErrorKind>::empty().push(ErrorKind::Nom(NomKind::Many1)).push(
            ErrorKind::Nom(NomKind::Alt),
        ) =~= seq![ErrorKind::Nom(NomKind::Many1), ErrorKind::Nom(NomKind::Alt)]);
    }
}

/// `p`, hex digits, `.`, hex digits, in front of a byte that is no hex
/// digit, is a thread of a process.
pub proof fn lemma_thread_id_with_process(pid: Seq<u8>, tid: Seq<u8>, rest: Seq<u8>)
    requires
        pid.len() > 0,
        forall|j: int| 0 <= j < pid.len() ==> is_hex(pid[j]),
        tid.len() > 0,
        forall|j: int| 0 <= j < tid.len() ==> is_hex(tid[j]),
        rest.len() > 0,
        !is_hex(rest[0]),
    ensures
        thread_id_spec(seq![PROCESS_PREFIX] + pid + seq![PROCESS_SEPARATOR] + tid + rest) == Ok::<
            (Seq<u8>, ThreadId),
            UnparsedView,
        >(
            (
                rest,
                ThreadId::MultiProcess {
                    pid: (hex_number_value(pid, pid.len() as int) % 0x1_0000_0000_0000_0000) as u64,
                    tid: (hex_number_value(tid, tid.len() as int) % 0x1_0000_0000_0000_0000) as u64,
                },
            ),
        ),
{
    let i = seq![PROCESS_PREFIX] + pid + seq![PROCESS_SEPARATOR] + tid + rest;
    let after_pid = seq![PROCESS_SEPARATOR] + tid + rest;
    assert(i =~= seq![PROCESS_PREFIX] + (pid + after_pid));
    lemma_tag_accepts(seq![PROCESS_PREFIX], pid + after_pid);
    assert(!is_hex(PROCESS_SEPARATOR));
    lemma_hex_number_of_digits(pid, after_pid);
    assert(after_pid =~= seq![PROCESS_SEPARATOR] + (tid + rest));
    lemma_tag_accepts(seq![PROCESS_SEPARATOR], tid + rest);
    lemma_hex_number_of_digits(tid, rest);
}

/// Hex digits in front of a byte that is no hex digit are a thread of the
/// only process.
pub proof fn lemma_thread_id_without_process(tid: Seq<u8>, rest: Seq<u8>)
    requires
        tid.len() > 0,
        forall|j: int| 0 <= j < tid.len() ==> is_hex(tid[j]),
        rest.len() > 0,
        !is_hex(rest[0]),
    ensures
        thread_id_spec(tid + rest) == Ok::<(Seq<u8>, ThreadId), UnparsedView>(
            (
                rest,
                ThreadId::SingleProcess {
                    tid: (hex_number_value(tid, tid.len() as int) % 0x1_0000_0000_0000_0000) as u64,
                },
            ),
        ),
{
    let i = tid + rest;
    assert(i[0] == tid[0]);
    assert(is_hex(tid[0]));
    assert(!is_hex(PROCESS_PREFIX));
    lemma_tag_refuses(seq![PROCESS_PREFIX], i);
    lemma_hex_number_of_digits(tid, rest);
}

/// Parses a thread identifier of either form.
pub fn thread_id(i: &[u8]) -> (r: Result<(&[u8], ThreadId), Unparsed>)
    ensures
        parsed(r) == thread_id_spec(i@),
{
    match multiprocess_thread_id(i) {
        Err(Unparsed::Error(_)) => match singleprocess_thread_id(i) {
            Err(Unparsed::Error(e)) => {
                let e = Error::append(i, NomKind::Alt, e);
                Err(Unparsed::Error(Error::add_context(i, "thread_id", e)))
            },
            other => other,
        },
        other => other,
    }
}

} // verus!
