//! Expansion of a packet body: escaped bytes and run-length encoding.

use vstd::prelude::*;
use crate::error::ExpandError;

verus! {

/// The byte that announces an escaped byte: `}`.
pub const ESCAPE_INDICATOR: u8 = 0x7d;

/// The byte that announces a run-length count: `*`.
pub const RUN_LENGTH_INDICATOR: u8 = 0x2a;

/// What an escaped byte is combined with, by exclusive or, to give the byte
/// that it stands for.
pub const ESCAPE_MASK: u8 = 0x20;

/// What is added to a count to make the byte that carries it.
pub const RUN_LENGTH_OFFSET: u8 = 28;

/// How many bytes a count byte adds to the output. The byte stands for a
/// total of `count - 28` occurrences, of which one is in the output already.
/// No minimum is enforced: a total of one or less adds nothing.
pub open spec fn run_extra(count: u8) -> nat {
    if count > RUN_LENGTH_OFFSET + 1 {
        (count - RUN_LENGTH_OFFSET - 1) as nat
    } else {
        0
    }
}

/// `n` times the byte `b`.
pub open spec fn repeated(b: u8, n: nat) -> Seq<u8> {
    Seq::new(n, |k: int| b)
}

/// The expansion of `body` from place `idx` on, where the bytes before `idx`
/// have given the output `out`.
pub open spec fn expand_from(body: Seq<u8>, idx: int, out: Seq<u8>) -> Result<
    Seq<u8>,
    ExpandError,
>
    decreases body.len() - idx,
{
    if idx < 0 || idx >= body.len() {
        Ok(out)
    } else if body[idx] == ESCAPE_INDICATOR {
        if idx + 1 >= body.len() {
            Err(ExpandError::EscapedByte)
        } else {
            expand_from(body, idx + 2, out.push(body[idx + 1] ^ ESCAPE_MASK))
        }
    } else if body[idx] == RUN_LENGTH_INDICATOR {
        if idx + 1 >= body.len() {
            Err(ExpandError::RunLengthCount)
        } else if out.len() == 0 {
            Err(ExpandError::RunLengthByte)
        } else {
            expand_from(body, idx + 2, out + repeated(out.last(), run_extra(body[idx + 1])))
        }
    } else {
        expand_from(body, idx + 1, out.push(body[idx]))
    }
}

/// The expansion of a whole body.
pub open spec fn expand_spec(body: Seq<u8>) -> Result<Seq<u8>, ExpandError> {
    expand_from(body, 0, Seq::empty())
}

/// Whether `body` holds neither indicator.
pub open spec fn is_plain(body: Seq<u8>) -> bool {
    forall|k: int|
        0 <= k < body.len() ==> body[k] != ESCAPE_INDICATOR && body[k] != RUN_LENGTH_INDICATOR
}

proof fn lemma_expand_plain_from(body: Seq<u8>, idx: int)
    requires
        is_plain(body),
        0 <= idx <= body.len(),
    ensures
        expand_from(body, idx, body.take(idx)) == Ok::<Seq<u8>, ExpandError>(body),
    decreases body.len() - idx,
{
    if idx >= body.len() {
        assert(body.take(idx) =~= body);
    } else {
        assert(body.take(idx).push(body[idx]) =~= body.take(idx + 1));
        lemma_expand_plain_from(body, idx + 1);
    }
}

/// A body without indicators expands to itself.
pub proof fn lemma_expand_plain(body: Seq<u8>)
    requires
        is_plain(body),
    ensures
        expand_spec(body) == Ok::<Seq<u8>, ExpandError>(body),
{
    assert(body.take(0) =~= Seq::<u8>::empty());
    lemma_expand_plain_from(body, 0);
}

/// An escape indicator and the byte after it expand to that byte with the
/// mask applied, and an escape indicator alone does not expand.
pub proof fn lemma_expand_escape(b: u8)
    ensures
        expand_spec(seq![ESCAPE_INDICATOR, b]) == Ok::<Seq<u8>, ExpandError>(seq![b ^ ESCAPE_MASK]),
        expand_spec(seq![ESCAPE_INDICATOR]) == Err::<Seq<u8>, ExpandError>(
            ExpandError::EscapedByte,
        ),
{
    let body = seq![ESCAPE_INDICATOR, b];
    reveal_with_fuel(expand_from, 3);
    assert(Seq::<u8>::empty().push(b ^ ESCAPE_MASK) =~= seq![b ^ ESCAPE_MASK]);
    assert(expand_from(body, 2, seq![b ^ ESCAPE_MASK]) == Ok::<Seq<u8>, ExpandError>(
        seq![b ^ ESCAPE_MASK],
    ));
}

/// A byte that is no indicator, followed by the run-length indicator and a
/// count byte, expands to the byte itself and `run_extra` more of it.
pub proof fn lemma_expand_run(b: u8, count: u8)
    requires
        b != ESCAPE_INDICATOR,
        b != RUN_LENGTH_INDICATOR,
    ensures
        expand_spec(seq![b, RUN_LENGTH_INDICATOR, count]) == Ok::<Seq<u8>, ExpandError>(
            repeated(b, 1 + run_extra(count)),
        ),
{
    let body = seq![b, RUN_LENGTH_INDICATOR, count];
    reveal_with_fuel(expand_from, 4);
    let one = Seq::<u8>::empty().push(b);
    assert(one.last() == b);
    assert(one + repeated(b, run_extra(count)) =~= repeated(b, 1 + run_extra(count)));
}

/// Expands the escaped bytes and the runs of `body`.
///
/// A run repeats the last byte of the output so far, whether that byte came
/// from a literal, an escape or an earlier run.
pub fn expand_body(body: &[u8]) -> (r: Result<Vec<u8>, ExpandError>)
    ensures
        match r {
            Ok(out) => expand_spec(body@) == Ok::<Seq<u8>, ExpandError>(out@),
            Err(e) => expand_spec(body@) == Err::<Seq<u8>, ExpandError>(e),
        },
{
    let mut out: Vec<u8> = Vec::with_capacity(body.len());
    let mut idx: usize = 0;
    while idx < body.len()
        invariant
            idx <= body.len(),
            expand_from(body@, idx as int, out@) == expand_spec(body@),
        decreases body.len() - idx,
    {
        let byte: u8 = body[idx];
        if byte == ESCAPE_INDICATOR {
            if idx + 1 >= body.len() {
                return Err(ExpandError::EscapedByte);
            }
            out.push(body[idx + 1] ^ ESCAPE_MASK);
            idx += 2;
        } else if byte == RUN_LENGTH_INDICATOR {
            if idx + 1 >= body.len() {
                return Err(ExpandError::RunLengthCount);
            }
            let count: u8 = body[idx + 1];
            if out.len() == 0 {
                return Err(ExpandError::RunLengthByte);
            }
            let encoded: u8 = out[out.len() - 1];
            let extra: u8 = if count > RUN_LENGTH_OFFSET + 1 {
                count - RUN_LENGTH_OFFSET - 1
            } else {
                0
            };
            let ghost before = out@;
            let mut n: u8 = 0;
            while n < extra
                invariant
                    n <= extra,
                    out@ =~= before + repeated(encoded, n as nat),
                decreases extra - n,
            {
                out.push(encoded);
                n += 1;
            }
            idx += 2;
        } else {
            out.push(byte);
            idx += 1;
        }
    }
    Ok(out)
}

} // verus!
