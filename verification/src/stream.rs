//! The three lexers on which the grammars are built. Each works on a buffer
//! that may not be complete yet: where the bytes at hand cannot decide, it
//! asks for more and rejects nothing.

use vstd::prelude::*;
use vstd::slice::slice_subrange;
use crate::error::{Error, ErrorKind, ErrorView, Needed, NomKind, Unparsed, UnparsedView};

verus! {

/// What a parser answers, as a mathematical value: the bytes left over and
/// the value parsed, or the reason why there is none.
pub open spec fn parsed<T: View>(r: Result<(&[u8], T), Unparsed>) -> Result<
    (Seq<u8>, T::V),
    UnparsedView,
> {
    match r {
        Ok((rest, value)) => Ok((rest@, value@)),
        Err(e) => Err(e@),
    }
}

/// Whether `i` and `t` differ at a place that both have.
pub open spec fn differs(t: Seq<u8>, i: Seq<u8>) -> bool {
    exists|k: int| 0 <= k < t.len() && k < i.len() && t[k] != i[k]
}

/// `tag(t, i)` as a mathematical function: `i` must begin with `t`. A buffer
/// that ends inside `t`, and agrees with it so far, is incomplete.
pub open spec fn tag_spec(t: Seq<u8>, i: Seq<u8>) -> Result<(Seq<u8>, Seq<u8>), UnparsedView> {
    if differs(t, i) {
        Err(UnparsedView::Error(ErrorView::fresh(i, ErrorKind::Nom(NomKind::Tag))))
    } else if i.len() < t.len() {
        Err(UnparsedView::Incomplete(Needed::of((t.len() - i.len()) as nat)))
    } else {
        Ok((i.skip(t.len() as int), i.take(t.len() as int)))
    }
}

/// Input that begins with `t` is accepted by `tag`, and what stands behind
/// `t` is left over.
pub proof fn lemma_tag_accepts(t: Seq<u8>, rest: Seq<u8>)
    ensures
        tag_spec(t, t + rest) == Ok::<(Seq<u8>, Seq<u8>), UnparsedView>((rest, t)),
{
    let i = t + rest;
    if differs(t, i) {
        let k = choose|k: int| 0 <= k < t.len() && k < i.len() && t[k] != i[k];
        assert(i[k] == t[k]);
    }
    assert(i.skip(t.len() as int) =~= rest);
    assert(i.take(t.len() as int) =~= t);
}

/// Input whose first byte is not that of `t` is refused by `tag`, as a
/// whole.
pub proof fn lemma_tag_refuses(t: Seq<u8>, i: Seq<u8>)
    requires
        t.len() > 0,
        i.len() > 0,
        t[0] != i[0],
    ensures
        tag_spec(t, i) == Err::<(Seq<u8>, Seq<u8>), UnparsedView>(
            UnparsedView::Error(ErrorView::fresh(i, ErrorKind::Nom(NomKind::Tag))),
        ),
{
    assert(0 <= 0 < t.len() && 0 < i.len() && t[0] != i[0]);
}

/// `tag` never refuses empty input: it asks for the whole of `t`.
pub proof fn lemma_tag_waits(t: Seq<u8>)
    requires
        t.len() > 0,
    ensures
        tag_spec(t, Seq::empty()) == Err::<(Seq<u8>, Seq<u8>), UnparsedView>(
            UnparsedView::Incomplete(Needed::of(t.len())),
        ),
{
}

/// Recognises the fixed bytes `t` at the start of `i`.
pub fn tag<'a>(t: &[u8], i: &'a [u8]) -> (r: Result<(&'a [u8], &'a [u8]), Unparsed>)
    ensures
        parsed(r) == tag_spec(t@, i@),
{
    let mut k: usize = 0;
    while k < t.len() && k < i.len()
        invariant
            k <= t.len(),
            k <= i.len(),
            forall|j: int| 0 <= j < k ==> t@[j] == i@[j],
        decreases t.len() - k,
    {
        if t[k] != i[k] {
            return Err(Error::new(i, ErrorKind::Nom(NomKind::Tag)));
        }
        k += 1;
    }
    if i.len() < t.len() {
        Err(Unparsed::Incomplete(Needed::new(t.len() - i.len())))
    } else {
        Ok((slice_subrange(i, t.len(), i.len()), slice_subrange(i, 0, t.len())))
    }
}

/// `take(count, i)` as a mathematical function: the first `count` bytes.
pub open spec fn take_spec(count: nat, i: Seq<u8>) -> Result<(Seq<u8>, Seq<u8>), UnparsedView> {
    if i.len() < count {
        Err(UnparsedView::Incomplete(Needed::of((count - i.len()) as nat)))
    } else {
        Ok((i.skip(count as int), i.take(count as int)))
    }
}

/// Splits the first `count` bytes off `i`.
pub fn take(count: usize, i: &[u8]) -> (r: Result<(&[u8], &[u8]), Unparsed>)
    ensures
        parsed(r) == take_spec(count as nat, i@),
{
    if i.len() < count {
        Err(Unparsed::Incomplete(Needed::new(count - i.len())))
    } else {
        Ok((slice_subrange(i, count, i.len()), slice_subrange(i, 0, count)))
    }
}

/// Whether `k` is the first place of `i` that holds `stop`.
pub open spec fn first_at(i: Seq<u8>, stop: u8, k: int) -> bool {
    &&& 0 <= k < i.len()
    &&& i[k] == stop
    &&& forall|j: int| 0 <= j < k ==> i[j] != stop
}

/// The first place of `i` that holds `stop`, where there is one.
pub open spec fn position(i: Seq<u8>, stop: u8) -> Option<int> {
    if exists|k: int| first_at(i, stop, k) {
        Some(choose|k: int| first_at(i, stop, k))
    } else {
        None
    }
}

/// There is at most one first place, so `position` finds `k`.
pub proof fn lemma_position_found(i: Seq<u8>, stop: u8, k: int)
    requires
        first_at(i, stop, k),
    ensures
        position(i, stop) == Some(k),
{
    let c = choose|c: int| first_at(i, stop, c);
    assert(first_at(i, stop, c));
    assert(c == k) by {
        if c < k {
            assert(i[c] != stop);
        }
        if k < c {
            assert(i[k] != stop);
        }
    }
}

/// Where no place holds `stop`, `position` finds none.
pub proof fn lemma_position_absent(i: Seq<u8>, stop: u8)
    requires
        forall|j: int| 0 <= j < i.len() ==> i[j] != stop,
    ensures
        position(i, stop) is None,
{
}

/// `take_until(stop, i)` as a mathematical function: the bytes before the
/// first `stop`, which itself stays in the remainder. A buffer without
/// `stop` is incomplete, by an unknown number of bytes.
pub open spec fn take_until_spec(stop: u8, i: Seq<u8>) -> Result<
    (Seq<u8>, Seq<u8>),
    UnparsedView,
> {
    match position(i, stop) {
        Some(k) => Ok((i.skip(k), i.take(k))),
        None => Err(UnparsedView::Incomplete(Needed::Unknown)),
    }
}

/// Splits `i` before the first byte equal to `stop`.
pub fn take_until(stop: u8, i: &[u8]) -> (r: Result<(&[u8], &[u8]), Unparsed>)
    ensures
        parsed(r) == take_until_spec(stop, i@),
{
    let mut k: usize = 0;
    while k < i.len()
        invariant
            k <= i.len(),
            forall|j: int| 0 <= j < k ==> i@[j] != stop,
        decreases i.len() - k,
    {
        if i[k] == stop {
            proof {
                lemma_position_found(i@, stop, k as int);
            }
            return Ok((slice_subrange(i, k, i.len()), slice_subrange(i, 0, k)));
        }
        k += 1;
    }
    proof {
        lemma_position_absent(i@, stop);
    }
    Err(Unparsed::Incomplete(Needed::Unknown))
}

} // verus!
