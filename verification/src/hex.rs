//! Hex digits and hex numbers.

use vstd::prelude::*;
use vstd::arithmetic::div_mod::{lemma_add_mod_noop, lemma_mul_mod_noop_left, lemma_small_mod};
use crate::error::{Error, ErrorKind, ErrorView, Needed, NomKind, Unparsed, UnparsedView};
use crate::stream::{parsed, take};

verus! {

/// The value of an ASCII hex digit, in either case; `None` for any other byte.
pub open spec fn hex_value_spec(b: u8) -> Option<u8> {
    if 0x30 <= b <= 0x39 {
        Some((b - 0x30) as u8)
    } else if 0x61 <= b <= 0x66 {
        Some((b - 0x61 + 10) as u8)
    } else if 0x41 <= b <= 0x46 {
        Some((b - 0x41 + 10) as u8)
    } else {
        None
    }
}

/// Whether `b` is an ASCII hex digit.
pub open spec fn is_hex(b: u8) -> bool {
    hex_value_spec(b) is Some
}

/// The value of the hex digit `b`, if it is one.
#[verifier::when_used_as_spec(hex_value_spec)]
pub fn hex_value(b: u8) -> (r: Option<u8>)
    ensures
        r == hex_value_spec(b),
        r matches Some(d) ==> d < 16,
{
    if 0x30 <= b && b <= 0x39 {
        Some(b - 0x30)
    } else if 0x61 <= b && b <= 0x66 {
        Some(b - 0x61 + 10)
    } else if 0x41 <= b && b <= 0x46 {
        Some(b - 0x41 + 10)
    } else {
        None
    }
}

/// The error for a byte that had to be a hex digit and is none. It holds the
/// input behind that byte.
pub open spec fn not_hex_error(i: Seq<u8>) -> ErrorView
    recommends
        i.len() > 0,
{
    ErrorView::fresh(i.skip(1), ErrorKind::ExpectedHexDigit(i[0] as char))
}

/// `hex_digit` as a mathematical function.
pub open spec fn hex_digit_spec(i: Seq<u8>) -> Result<(Seq<u8>, u8), UnparsedView> {
    if i.len() == 0 {
        Err(UnparsedView::Incomplete(Needed::Size(1)))
    } else {
        match hex_value_spec(i[0]) {
            Some(d) => Ok((i.skip(1), d)),
            None => Err(UnparsedView::Error(not_hex_error(i))),
        }
    }
}

/// Consumes one byte, which must be a hex digit, and returns its value.
pub fn hex_digit(i: &[u8]) -> (r: Result<(&[u8], u8), Unparsed>)
    ensures
        parsed(r) == hex_digit_spec(i@),
        r matches Ok((_, d)) ==> d < 16,
{
    let (rest, digit) = match take(1, i) {
        Ok(split) => split,
        Err(e) => {
            return Err(e);
        },
    };
    let byte: u8 = digit[0];
    assert(byte == i@[0]);
    match hex_value(byte) {
        Some(d) => Ok((rest, d)),
        None => Err(Error::new(rest, ErrorKind::ExpectedHexDigit(byte as char))),
    }
}

/// `two_digit_hex` as a mathematical function: the first digit counts
/// sixteen times.
pub open spec fn two_digit_hex_spec(i: Seq<u8>) -> Result<(Seq<u8>, u8), UnparsedView> {
    match hex_digit_spec(i) {
        Err(e) => Err(e),
        Ok((rest, d1)) => match hex_digit_spec(rest) {
            Err(e) => Err(e),
            Ok((rest, d2)) => Ok((rest, (d1 * 16 + d2) as u8)),
        },
    }
}

/// Consumes exactly two hex digits and returns the byte that they spell.
pub fn two_digit_hex(i: &[u8]) -> (r: Result<(&[u8], u8), Unparsed>)
    ensures
        parsed(r) == two_digit_hex_spec(i@),
{
    let (i, d1) = match hex_digit(i) {
        Ok(found) => found,
        Err(e) => {
            return Err(e);
        },
    };
    let (i, d2) = match hex_digit(i) {
        Ok(found) => found,
        Err(e) => {
            return Err(e);
        },
    };
    let sum: u8 = d1 * 16 + d2;
    Ok((i, sum))
}

/// The lower-case hex digit for a value below sixteen.
pub open spec fn hex_char(d: u8) -> u8
    recommends
        d < 16,
{
    if d < 10 {
        (0x30 + d) as u8
    } else {
        (0x61 + (d - 10)) as u8
    }
}

/// The two hex digits that spell the byte `c`.
pub open spec fn hex_pair(c: u8) -> Seq<u8> {
    seq![hex_char(c / 16), hex_char(c % 16)]
}

/// The two hex digits that spell a byte are read back as that byte, and
/// what stands behind them is left over.
pub proof fn lemma_two_digit_hex_of_pair(c: u8, tail: Seq<u8>)
    ensures
        two_digit_hex_spec(hex_pair(c) + tail) == Ok::<(Seq<u8>, u8), UnparsedView>((tail, c)),
{
    let i = hex_pair(c) + tail;
    assert(i[0] == hex_char(c / 16));
    assert(i.skip(1)[0] == hex_char(c % 16));
    assert(i.skip(1).skip(1) =~= tail);
    assert(hex_value_spec(hex_char(c / 16)) == Some((c / 16) as u8));
    assert(hex_value_spec(hex_char(c % 16)) == Some((c % 16) as u8));
}

/// The place of the first byte of `i`, at or after `k`, that is no hex digit;
/// the length of `i` if there is none.
pub open spec fn hex_run_end(i: Seq<u8>, k: int) -> int
    decreases i.len() - k,
{
    if 0 <= k < i.len() && is_hex(i[k]) {
        hex_run_end(i, k + 1)
    } else {
        k
    }
}

/// The number that the first `n` bytes of `i` spell, read as hex digits with
/// the most significant first.
pub open spec fn hex_number_value(i: Seq<u8>, n: int) -> nat
    decreases n,
{
    if n <= 0 || n > i.len() {
        0
    } else {
        hex_number_value(i, n - 1) * 16 + match hex_value_spec(i[n - 1]) {
            Some(d) => d as nat,
            None => 0,
        }
    }
}

/// `hex_number` as a mathematical function: the longest run of hex digits
/// at the start of `i`, as a number that keeps its low 64 bits. The run
/// must not be empty, and it must end before the buffer does: digits that
/// reach the end of the buffer may go on in the bytes to come.
pub open spec fn hex_number_spec(i: Seq<u8>) -> Result<(Seq<u8>, u64), UnparsedView> {
    let end = hex_run_end(i, 0);
    if i.len() == 0 {
        Err(UnparsedView::Incomplete(Needed::Size(1)))
    } else if end == 0 {
        Err(UnparsedView::Error(not_hex_error(i).append(NomKind::Many1)))
    } else if end == i.len() {
        Err(UnparsedView::Incomplete(Needed::Size(1)))
    } else {
        Ok((i.skip(end), (hex_number_value(i, end) % 0x1_0000_0000_0000_0000) as u64))
    }
}

/// The run of hex digits that starts at `from` ends at `end`, where every
/// byte between the two is a hex digit and the byte at `end`, if there is
/// one, is not.
pub proof fn lemma_hex_run_end(i: Seq<u8>, from: int, end: int)
    requires
        0 <= from <= end <= i.len(),
        forall|j: int| from <= j < end ==> is_hex(i[j]),
        end < i.len() ==> !is_hex(i[end]),
    ensures
        hex_run_end(i, from) == end,
    decreases end - from,
{
    if from < end {
        lemma_hex_run_end(i, from + 1, end);
    }
}

/// The run of hex digits is maximal: it holds hex digits only, and the
/// byte behind it, if there is one, is no hex digit.
pub proof fn lemma_hex_run_maximal(i: Seq<u8>, from: int)
    requires
        0 <= from <= i.len(),
    ensures
        from <= hex_run_end(i, from) <= i.len(),
        forall|j: int| from <= j < hex_run_end(i, from) ==> is_hex(i[j]),
        hex_run_end(i, from) < i.len() ==> !is_hex(i[hex_run_end(i, from)]),
    decreases i.len() - from,
{
    if from < i.len() && is_hex(i[from]) {
        lemma_hex_run_maximal(i, from + 1);
    }
}

/// The number that the first `n` bytes spell depends on those bytes alone.
pub proof fn lemma_hex_number_value_prefix(a: Seq<u8>, b: Seq<u8>, n: int)
    requires
        0 <= n <= a.len(),
        n <= b.len(),
        forall|j: int| 0 <= j < n ==> a[j] == b[j],
    ensures
        hex_number_value(a, n) == hex_number_value(b, n),
    decreases n,
{
    if n > 0 {
        lemma_hex_number_value_prefix(a, b, n - 1);
    }
}

/// Sixteen to the power of `n`.
pub open spec fn sixteen_to(n: nat) -> nat
    decreases n,
{
    if n == 0 {
        1
    } else {
        16 * sixteen_to((n - 1) as nat)
    }
}

/// `n` hex digits spell a number below sixteen to the power of `n`.
pub proof fn lemma_hex_number_value_bound(i: Seq<u8>, n: int)
    requires
        0 <= n <= i.len(),
    ensures
        hex_number_value(i, n) < sixteen_to(n as nat),
    decreases n,
{
    if n > 0 {
        lemma_hex_number_value_bound(i, n - 1);
    }
}

proof fn lemma_sixteen_to_grows(a: nat, b: nat)
    requires
        a <= b,
    ensures
        sixteen_to(a) <= sixteen_to(b),
    decreases b,
{
    if a < b {
        lemma_sixteen_to_grows(a, (b - 1) as nat);
    }
}

/// Up to sixteen hex digits spell a number that fits in 64 bits, so
/// `hex_number` returns it whole.
pub proof fn lemma_hex_number_exact(i: Seq<u8>, n: int)
    requires
        0 <= n <= i.len(),
        n <= 16,
    ensures
        hex_number_value(i, n) % 0x1_0000_0000_0000_0000 == hex_number_value(i, n),
{
    lemma_hex_number_value_bound(i, n);
    lemma_sixteen_to_grows(n as nat, 16);
    assert(sixteen_to(16) == 0x1_0000_0000_0000_0000) by {
        reveal_with_fuel(sixteen_to, 17);
    }
    lemma_small_mod(hex_number_value(i, n), 0x1_0000_0000_0000_0000);
}

/// Hex digits in front of a byte that is none are parsed as one number, and
/// everything from that byte on is left over.
pub proof fn lemma_hex_number_of_digits(digits: Seq<u8>, rest: Seq<u8>)
    requires
        digits.len() > 0,
        forall|j: int| 0 <= j < digits.len() ==> is_hex(digits[j]),
        rest.len() > 0,
        !is_hex(rest[0]),
    ensures
        hex_number_spec(digits + rest) == Ok::<(Seq<u8>, u64), UnparsedView>(
            (
                rest,
                (hex_number_value(digits, digits.len() as int) % 0x1_0000_0000_0000_0000) as u64,
            ),
        ),
{
    let i = digits + rest;
    let n = digits.len() as int;
    assert forall|j: int| 0 <= j < n implies is_hex(i[j]) by {
        assert(i[j] == digits[j]);
    }
    assert(i[n] == rest[0]);
    lemma_hex_run_end(i, 0, n);
    lemma_hex_number_value_prefix(i, digits, n);
    assert(i.skip(n) =~= rest);
}

/// What `hex_number` returns: the input falls into a run of hex digits, not
/// empty, and a remainder that begins with a byte that is no hex digit; the
/// number is the one that the run spells.
pub proof fn lemma_hex_number_maximal(i: Seq<u8>)
    ensures
        hex_number_spec(i) matches Ok((rest, n)) ==> {
            let k = i.len() - rest.len();
            &&& 0 < k < i.len()
            &&& rest == i.skip(k)
            &&& i == i.take(k) + rest
            &&& forall|j: int| 0 <= j < k ==> is_hex(i[j])
            &&& !is_hex(rest[0])
            &&& n == hex_number_value(i, k) % 0x1_0000_0000_0000_0000
        },
{
    lemma_hex_run_maximal(i, 0);
    if let Ok((rest, n)) = hex_number_spec(i) {
        let k = hex_run_end(i, 0);
        assert(i =~= i.take(k) + i.skip(k));
    }
}

/// One more digit, on a number kept to its low 64 bits.
proof fn lemma_hex_step(v: nat, d: nat)
    requires
        d < 16,
    ensures
        ((v % 0x1_0000_0000_0000_0000) * 16 + d) % 0x1_0000_0000_0000_0000 == (v * 16 + d)
            % 0x1_0000_0000_0000_0000,
{
    let m: int = 0x1_0000_0000_0000_0000;
    let v = v as int;
    let d = d as int;
    lemma_mul_mod_noop_left(v, 16, m);
    lemma_add_mod_noop((v % m) * 16, d, m);
    lemma_add_mod_noop(v * 16, d, m);
}

/// Consumes the longest run of hex digits, at least one, and returns the
/// number that they spell.
pub fn hex_number(i: &[u8]) -> (r: Result<(&[u8], u64), Unparsed>)
    ensures
        parsed(r) == hex_number_spec(i@),
{
    let (mut rest, first) = match hex_digit(i) {
        Ok(found) => found,
        Err(Unparsed::Error(e)) => {
            return Err(Unparsed::Error(Error::append(i, NomKind::Many1, e)));
        },
        Err(e) => {
            return Err(e);
        },
    };
    let mut num: u64 = first as u64;
    let ghost mut k: int = 1;
    proof {
        reveal_with_fuel(hex_number_value, 2);
        lemma_small_mod(first as nat, 0x1_0000_0000_0000_0000);
    }
    loop
        invariant
            1 <= k <= i@.len(),
            rest@ == i@.skip(k),
            hex_run_end(i@, 0) == hex_run_end(i@, k),
            num == hex_number_value(i@, k) % 0x1_0000_0000_0000_0000,
        decreases i@.len() - k,
    {
        match hex_digit(rest) {
            Ok((after, d)) => {
                let wide: u128 = (num as u128) * 16 + (d as u128);
                proof {
                    lemma_hex_step(hex_number_value(i@, k), d as nat);
                    assert(after@ == i@.skip(k + 1));
                }
                num = (wide % 0x1_0000_0000_0000_0000) as u64;
                rest = after;
                proof {
                    k = k + 1;
                }
            },
            Err(Unparsed::Error(_)) => {
                return Ok((rest, num));
            },
            Err(e) => {
                return Err(e);
            },
        }
    }
}

} // verus!
