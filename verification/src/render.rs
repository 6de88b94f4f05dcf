//! The text of an error, for a person to read.

use vstd::prelude::*;
use vstd::string::StringExecFns;
use core::str::Utf8Error;
use crate::error::{Error, ErrorKind, ErrorView, ExpandError, NomKind};

verus! {

/// `String::push` puts one character at the end of the text.
pub assume_specification[ String::push ](text: &mut String, ch: char)
    ensures
        final(text)@ == old(text)@.push(ch),
;

/// The text in which std describes the error `e`.
pub uninterp spec fn utf8_error_text(e: Utf8Error) -> Seq<char>;

/// Calls `to_string` on a `Utf8Error`, which prints it as its `Display`
/// does. The text depends on the error alone.
#[verifier::external_body]
fn describe_utf8_error(e: &Utf8Error) -> (r: String)
    ensures
        r@ == utf8_error_text(*e),
{
    e.to_string()
}

/// The character for a decimal digit.
pub open spec fn digit_char(d: nat) -> char
    recommends
        d < 10,
{
    ((0x30 + d) as u8) as char
}

/// A number in decimal, without sign or padding.
pub open spec fn decimal(n: nat) -> Seq<char>
    decreases n,
{
    if n < 10 {
        seq![digit_char(n)]
    } else {
        decimal(n / 10).push(digit_char(n % 10))
    }
}

/// Writes `n` in decimal at the end of `out`.
pub fn push_decimal(out: &mut String, n: usize)
    ensures
        final(out)@ == old(out)@ + decimal(n as nat),
    decreases n,
{
    if n >= 10 {
        push_decimal(out, n / 10);
    }
    let digit: u8 = 0x30 + (n % 10) as u8;
    out.push(digit as char);
    proof {
        if n < 10 {
            assert(old(out)@.push(digit_char(n as nat)) =~= old(out)@ + decimal(n as nat));
        } else {
            assert((old(out)@ + decimal((n / 10) as nat)).push(digit_char((n % 10) as nat))
                =~= old(out)@ + decimal(n as nat));
        }
    }
}

/// The bytes of `input` in decimal, with a comma and a blank between two.
pub open spec fn byte_list(input: Seq<u8>) -> Seq<char>
    decreases input.len(),
{
    if input.len() == 0 {
        Seq::empty()
    } else if input.len() == 1 {
        decimal(input[0] as nat)
    } else {
        byte_list(input.drop_last()) + ", "@ + decimal(input.last() as nat)
    }
}

/// The bytes of `input` as a list in square brackets.
pub open spec fn bytes_text(input: Seq<u8>) -> Seq<char> {
    "["@ + byte_list(input) + "]"@
}

/// Writes `input` as a list in square brackets at the end of `out`.
pub fn push_bytes(out: &mut String, input: &[u8])
    ensures
        final(out)@ == old(out)@ + bytes_text(input@),
{
    out.append("[");
    let mut k: usize = 0;
    while k < input.len()
        invariant
            k <= input.len(),
            out@ == old(out)@ + "["@ + byte_list(input@.take(k as int)),
        decreases input.len() - k,
    {
        if k > 0 {
            out.append(", ");
        }
        push_decimal(out, input[k] as usize);
        proof {
            let before = input@.take(k as int);
            let now = input@.take(k + 1);
            assert(now.drop_last() =~= before);
            assert(now.last() == input@[k as int]);
            if k == 0 {
                assert(byte_list(before) =~= Seq::<char>::empty());
                assert(out@ =~= old(out)@ + "["@ + byte_list(now));
            } else {
                assert(out@ =~= old(out)@ + "["@ + byte_list(now));
            }
        }
        k += 1;
    }
    out.append("]");
    proof {
        assert(input@.take(k as int) =~= input@);
        assert(out@ =~= old(out)@ + bytes_text(input@));
    }
}

impl ExpandError {
    /// What the error says.
    pub open spec fn text(self) -> Seq<char> {
        match self {
            ExpandError::EscapedByte => "Expected an escaped byte"@,
            ExpandError::RunLengthCount => "Expected count for run length encoding"@,
            ExpandError::RunLengthByte => "Expected a byte to be repeated to precede run length indicator"@,
        }
    }

    /// What the error says, as a static text.
    pub fn message(&self) -> (r: &'static str)
        ensures
            r@ == self.text(),
    {
        match self {
            ExpandError::EscapedByte => "Expected an escaped byte",
            ExpandError::RunLengthCount => "Expected count for run length encoding",
            ExpandError::RunLengthByte => "Expected a byte to be repeated to precede run length indicator",
        }
    }

    /// What the error says.
    pub fn to_string(&self) -> (r: String)
        ensures
            r@ == self.text(),
    {
        String::from_str(self.message())
    }
}

impl NomKind {
    /// The name of the variant.
    pub open spec fn text(self) -> Seq<char> {
        match self {
            NomKind::Tag => "Tag"@,
            NomKind::MapRes => "MapRes"@,
            NomKind::MapOpt => "MapOpt"@,
            NomKind::Alt => "Alt"@,
            NomKind::IsNot => "IsNot"@,
            NomKind::IsA => "IsA"@,
            NomKind::SeparatedList => "SeparatedList"@,
            NomKind::SeparatedNonEmptyList => "SeparatedNonEmptyList"@,
            NomKind::Many0 => "Many0"@,
            NomKind::Many1 => "Many1"@,
            NomKind::ManyTill => "ManyTill"@,
            NomKind::Count => "Count"@,
            NomKind::TakeUntil => "TakeUntil"@,
            NomKind::LengthValue => "LengthValue"@,
            NomKind::TagClosure => "TagClosure"@,
            NomKind::Alpha => "Alpha"@,
            NomKind::Digit => "Digit"@,
            NomKind::HexDigit => "HexDigit"@,
            NomKind::OctDigit => "OctDigit"@,
            NomKind::AlphaNumeric => "AlphaNumeric"@,
            NomKind::Space => "Space"@,
            NomKind::MultiSpace => "MultiSpace"@,
            NomKind::LengthValueFn => "LengthValueFn"@,
            NomKind::Eof => "Eof"@,
            NomKind::Switch => "Switch"@,
            NomKind::TagBits => "TagBits"@,
            NomKind::OneOf => "OneOf"@,
            NomKind::NoneOf => "NoneOf"@,
            NomKind::Char => "Char"@,
            NomKind::CrLf => "CrLf"@,
            NomKind::RegexpMatch => "RegexpMatch"@,
            NomKind::RegexpMatches => "RegexpMatches"@,
            NomKind::RegexpFind => "RegexpFind"@,
            NomKind::RegexpCapture => "RegexpCapture"@,
            NomKind::RegexpCaptures => "RegexpCaptures"@,
            NomKind::TakeWhile1 => "TakeWhile1"@,
            NomKind::Complete => "Complete"@,
            NomKind::Fix => "Fix"@,
            NomKind::Escaped => "Escaped"@,
            NomKind::EscapedTransform => "EscapedTransform"@,
            NomKind::NonEmpty => "NonEmpty"@,
            NomKind::ManyMN => "ManyMN"@,
            NomKind::Not => "Not"@,
            NomKind::Permutation => "Permutation"@,
            NomKind::Verify => "Verify"@,
            NomKind::TakeTill1 => "TakeTill1"@,
            NomKind::TakeWhileMN => "TakeWhileMN"@,
            NomKind::TooLarge => "TooLarge"@,
            NomKind::Many0Count => "Many0Count"@,
            NomKind::Many1Count => "Many1Count"@,
            NomKind::Float => "Float"@,
            NomKind::Satisfy => "Satisfy"@,
            NomKind::Fail => "Fail"@,
        }
    }

    /// The name of the variant.
    pub fn name(&self) -> (r: &'static str)
        ensures
            r@ == self.text(),
    {
        match self {
            NomKind::Tag => "Tag",
            NomKind::MapRes => "MapRes",
            NomKind::MapOpt => "MapOpt",
            NomKind::Alt => "Alt",
            NomKind::IsNot => "IsNot",
            NomKind::IsA => "IsA",
            NomKind::SeparatedList => "SeparatedList",
            NomKind::SeparatedNonEmptyList => "SeparatedNonEmptyList",
            NomKind::Many0 => "Many0",
            NomKind::Many1 => "Many1",
            NomKind::ManyTill => "ManyTill",
            NomKind::Count => "Count",
            NomKind::TakeUntil => "TakeUntil",
            NomKind::LengthValue => "LengthValue",
            NomKind::TagClosure => "TagClosure",
            NomKind::Alpha => "Alpha",
            NomKind::Digit => "Digit",
            NomKind::HexDigit => "HexDigit",
            NomKind::OctDigit => "OctDigit",
            NomKind::AlphaNumeric => "AlphaNumeric",
            NomKind::Space => "Space",
            NomKind::MultiSpace => "MultiSpace",
            NomKind::LengthValueFn => "LengthValueFn",
            NomKind::Eof => "Eof",
            NomKind::Switch => "Switch",
            NomKind::TagBits => "TagBits",
            NomKind::OneOf => "OneOf",
            NomKind::NoneOf => "NoneOf",
            NomKind::Char => "Char",
            NomKind::CrLf => "CrLf",
            NomKind::RegexpMatch => "RegexpMatch",
            NomKind::RegexpMatches => "RegexpMatches",
            NomKind::RegexpFind => "RegexpFind",
            NomKind::RegexpCapture => "RegexpCapture",
            NomKind::RegexpCaptures => "RegexpCaptures",
            NomKind::TakeWhile1 => "TakeWhile1",
            NomKind::Complete => "Complete",
            NomKind::Fix => "Fix",
            NomKind::Escaped => "Escaped",
            NomKind::EscapedTransform => "EscapedTransform",
            NomKind::NonEmpty => "NonEmpty",
            NomKind::ManyMN => "ManyMN",
            NomKind::Not => "Not",
            NomKind::Permutation => "Permutation",
            NomKind::Verify => "Verify",
            NomKind::TakeTill1 => "TakeTill1",
            NomKind::TakeWhileMN => "TakeWhileMN",
            NomKind::TooLarge => "TooLarge",
            NomKind::Many0Count => "Many0Count",
            NomKind::Many1Count => "Many1Count",
            NomKind::Float => "Float",
            NomKind::Satisfy => "Satisfy",
            NomKind::Fail => "Fail",
        }
    }
}

impl ErrorKind {
    /// What the classification says.
    pub open spec fn text(self) -> Seq<char> {
        match self {
            ErrorKind::ExpectedHexDigit(c) => "Expected hex digit, got "@.push(c),
            ErrorKind::FailedChecksum { expected, actual } => "Failed checksum check. Expected "@
                + decimal(expected as nat) + ", got "@ + decimal(actual as nat),
            ErrorKind::ExpandBody(e) => "Failed to expand body: "@ + e.text(),
            ErrorKind::Utf8(e) => "Failed to parse as utf-8: "@ + utf8_error_text(e),
            ErrorKind::App(code) => "Application level error. Code: "@ + decimal(code as nat),
            ErrorKind::Nom(kind) => "Nom error: "@ + kind.text(),
        }
    }

    /// Writes what the classification says at the end of `out`.
    pub fn write_to(&self, out: &mut String)
        ensures
            final(out)@ == old(out)@ + self.text(),
    {
        match self {
            ErrorKind::ExpectedHexDigit(c) => {
                out.append("Expected hex digit, got ");
                out.push(*c);
                assert(out@ =~= old(out)@ + self.text());
            },
            ErrorKind::FailedChecksum { expected, actual } => {
                out.append("Failed checksum check. Expected ");
                push_decimal(out, *expected as usize);
                out.append(", got ");
                push_decimal(out, *actual as usize);
                assert(out@ =~= old(out)@ + self.text());
            },
            ErrorKind::ExpandBody(e) => {
                out.append("Failed to expand body: ");
                out.append(e.message());
                assert(out@ =~= old(out)@ + self.text());
            },
            ErrorKind::Utf8(e) => {
                out.append("Failed to parse as utf-8: ");
                let detail = describe_utf8_error(e);
                out.append(detail.as_str());
                assert(out@ =~= old(out)@ + self.text());
            },
            ErrorKind::App(code) => {
                out.append("Application level error. Code: ");
                push_decimal(out, *code as usize);
                assert(out@ =~= old(out)@ + self.text());
            },
            ErrorKind::Nom(kind) => {
                out.append("Nom error: ");
                out.append(kind.name());
                assert(out@ =~= old(out)@ + self.text());
            },
        }
    }

    /// What the classification says.
    pub fn to_string(&self) -> (r: String)
        ensures
            r@ == self.text(),
    {
        let mut out = String::new();
        self.write_to(&mut out);
        assert(out@ =~= self.text());
        out
    }
}

/// What the causes say, one after the other with nothing between them.
pub open spec fn causes_text(causes: Seq<ErrorKind>) -> Seq<char>
    decreases causes.len(),
{
    if causes.len() == 0 {
        Seq::empty()
    } else {
        causes_text(causes.drop_last()) + causes.last().text()
    }
}

impl ErrorView {
    /// The name of the enclosing rule and a blank, where the error has one.
    pub open spec fn context_text(self) -> Seq<char> {
        match self.context {
            Some(name) => name + " "@,
            None => Seq::empty(),
        }
    }

    /// The chain of causes, where the error has one.
    pub open spec fn chain_text(self) -> Seq<char> {
        if self.causes.len() == 0 {
            Seq::empty()
        } else {
            ". Caused by: "@ + causes_text(self.causes)
        }
    }

    /// What the error says: the context, the classification, the causes,
    /// and on a line of its own the input at the point of failure.
    pub open spec fn text(self) -> Seq<char> {
        self.context_text() + self.kind.text() + self.chain_text() + "\n\t"@ + bytes_text(
            self.input,
        )
    }
}

impl Error {
    /// What the error says.
    pub fn to_string(&self) -> (r: String)
        ensures
            r@ == self@.text(),
    {
        let mut out = String::new();
        if let Some(context) = self.context {
            out.append(context);
            out.append(" ");
        }
        assert(out@ =~= self@.context_text());
        self.kind.write_to(&mut out);
        let ghost head = out@;
        if self.causes.len() > 0 {
            out.append(". Caused by: ");
            let mut k: usize = 0;
            while k < self.causes.len()
                invariant
                    k <= self.causes.len(),
                    out@ == head + ". Caused by: "@ + causes_text(self.causes@.take(k as int)),
                decreases self.causes.len() - k,
            {
                self.causes[k].write_to(&mut out);
                proof {
                    let now = self.causes@.take(k + 1);
                    assert(now.drop_last() =~= self.causes@.take(k as int));
                    assert(now.last() == self.causes@[k as int]);
                    assert(out@ =~= head + ". Caused by: "@ + causes_text(now));
                }
                k += 1;
            }
            proof {
                assert(self.causes@.take(k as int) =~= self.causes@);
            }
        }
        assert(out@ =~= head + self@.chain_text());
        out.append("\n\t");
        push_bytes(&mut out, self.input.as_slice());
        assert(out@ =~= self@.text());
        out
    }
}

} // verus!
