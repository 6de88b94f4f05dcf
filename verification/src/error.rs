//! The error model: why a buffer failed to decode, and where.

use vstd::prelude::*;
use vstd::slice::slice_to_vec;

verus! {

/// How many more bytes a parser needs before it can decide.
#[derive(Debug, Clone, Copy, PartialEq, Eq, Structural)]
pub enum Needed {
    /// More bytes are needed, but not a known number of them.
    Unknown,
    /// At least this many more bytes are needed; never zero.
    Size(usize),
}

impl Needed {
    /// The request for `missing` more bytes; `Unknown` when `missing` is zero.
    pub open spec fn of(missing: nat) -> Needed {
        if missing == 0 {
            Needed::Unknown
        } else {
            Needed::Size(missing as usize)
        }
    }

    /// A request is well formed when it does not ask for zero bytes.
    pub open spec fn wf(self) -> bool {
        match self {
            Needed::Unknown => true,
            Needed::Size(n) => n > 0,
        }
    }

    /// Builds the request for `missing` more bytes.
    pub fn new(missing: usize) -> (r: Needed)
        ensures
            r == Needed::of(missing as nat),
            r.wf(),
    {
        if missing == 0 {
            Needed::Unknown
        } else {
            Needed::Size(missing)
        }
    }

    /// Whether the number of missing bytes is known.
    pub fn is_known(&self) -> (r: bool)
        ensures
            r == (*self != Needed::Unknown),
    {
        match self {
            Needed::Unknown => false,
            Needed::Size(_) => true,
        }
    }
}

/// Why the expansion of a packet body failed.
#[derive(Debug, Clone, Copy, PartialEq, Eq, Structural)]
pub enum ExpandError {
    /// The escape indicator was the last byte of the body.
    EscapedByte,
    /// The run-length indicator was the last byte of the body.
    RunLengthCount,
    /// The run-length indicator had no byte before it to repeat.
    RunLengthByte,
}

/// The classification that a generic combinator gives to its failure. The
/// variants are those of `nom::error::ErrorKind`, name for name.
#[derive(Debug, Clone, Copy, PartialEq, Eq, Structural)]
pub enum NomKind {
    Tag,
    MapRes,
    MapOpt,
    Alt,
    IsNot,
    IsA,
    SeparatedList,
    SeparatedNonEmptyList,
    Many0,
    Many1,
    ManyTill,
    Count,
    TakeUntil,
    LengthValue,
    TagClosure,
    Alpha,
    Digit,
    HexDigit,
    OctDigit,
    AlphaNumeric,
    Space,
    MultiSpace,
    LengthValueFn,
    Eof,
    Switch,
    TagBits,
    OneOf,
    NoneOf,
    Char,
    CrLf,
    RegexpMatch,
    RegexpMatches,
    RegexpFind,
    RegexpCapture,
    RegexpCaptures,
    TakeWhile1,
    Complete,
    Fix,
    Escaped,
    EscapedTransform,
    NonEmpty,
    ManyMN,
    Not,
    Permutation,
    Verify,
    TakeTill1,
    TakeWhileMN,
    TooLarge,
    Many0Count,
    Many1Count,
    Float,
    Satisfy,
    Fail,
}

/// What went wrong.
#[derive(Debug, PartialEq, Eq)]
pub enum ErrorKind {
    /// A hex digit was required; this character stood in its place.
    ExpectedHexDigit(char),
    /// The checksum sent with the packet (`expected`) is not the checksum of
    /// its body (`actual`).
    FailedChecksum { expected: u8, actual: u8 },
    /// The body could not be expanded.
    ExpandBody(ExpandError),
    /// The text of a reply is not UTF-8.
    Utf8(core::str::Utf8Error),
    /// The peer answered with an error reply that carries this code.
    App(u8),
    /// A generic combinator failed.
    Nom(NomKind),
}

/// A definite decoding error.
#[derive(Debug, PartialEq, Eq)]
pub struct Error {
    /// A copy of the input at the point of failure.
    pub input: Vec<u8>,
    /// The most specific classification of the failure.
    pub kind: ErrorKind,
    /// The name of the enclosing grammar rule, where one gave its name.
    pub context: Option<&'static str>,
    /// The classifications added by the enclosing parsers, innermost first.
    pub causes: Vec<ErrorKind>,
}

/// The mathematical value of an [`Error`].
pub struct ErrorView {
    pub input: Seq<u8>,
    pub kind: ErrorKind,
    pub context: Option<Seq<char>>,
    pub causes: Seq<ErrorKind>,
}

impl View for Error {
    type V = ErrorView;

    open spec fn view(&self) -> ErrorView {
        ErrorView {
            input: self.input@,
            kind: self.kind,
            context: match self.context {
                Some(name) => Some(name@),
                None => None,
            },
            causes: self.causes@,
        }
    }
}

impl ErrorView {
    /// The error that a parser raises first: no context, no causes.
    pub open spec fn fresh(input: Seq<u8>, kind: ErrorKind) -> ErrorView {
        ErrorView { input, kind, context: None, causes: Seq::empty() }
    }

    /// This error with one more cause at the end of the chain.
    pub open spec fn append(self, kind: NomKind) -> ErrorView {
        ErrorView { causes: self.causes.push(ErrorKind::Nom(kind)), ..self }
    }

    /// This error under the name of an enclosing rule.
    pub open spec fn add_context(self, name: Seq<char>) -> ErrorView {
        ErrorView { context: Some(name), ..self }
    }
}

/// What an enclosing parser adds never hides the failure itself: the kind
/// and the input stay as they are. `append` lengthens the chain of causes by
/// one and keeps what was in it; `add_context` changes the name alone.
pub proof fn lemma_enclosing_keeps_failure(e: ErrorView, kind: NomKind, name: Seq<char>)
    ensures
        e.append(kind).kind == e.kind,
        e.append(kind).input == e.input,
        e.append(kind).context == e.context,
        e.append(kind).causes.len() == e.causes.len() + 1,
        e.append(kind).causes.take(e.causes.len() as int) == e.causes,
        e.append(kind).causes.last() == ErrorKind::Nom(kind),
        e.add_context(name).kind == e.kind,
        e.add_context(name).input == e.input,
        e.add_context(name).causes == e.causes,
        e.add_context(name).context == Some(name),
{
    assert(e.append(kind).causes.take(e.causes.len() as int) =~= e.causes);
}

/// Why a parser returned no value: it needs more input, or the input is wrong.
#[derive(Debug, PartialEq, Eq)]
pub enum Unparsed {
    /// The buffer ended before the parser could decide.
    Incomplete(Needed),
    /// The input is malformed.
    Error(Error),
}

/// The mathematical value of an [`Unparsed`].
pub enum UnparsedView {
    Incomplete(Needed),
    Error(ErrorView),
}

impl View for Unparsed {
    type V = UnparsedView;

    open spec fn view(&self) -> UnparsedView {
        match self {
            Unparsed::Incomplete(needed) => UnparsedView::Incomplete(*needed),
            Unparsed::Error(e) => UnparsedView::Error(e@),
        }
    }
}

impl From<Error> for Unparsed {
    /// A definite error is one of the two ways in which a parser returns no
    /// value.
    fn from(err: Error) -> (r: Unparsed) {
        Unparsed::Error(err)
    }
}

impl vstd::std_specs::convert::FromSpecImpl<Error> for Unparsed {
    open spec fn obeys_from_spec() -> bool {
        true
    }

    open spec fn from_spec(err: Error) -> Unparsed {
        Unparsed::Error(err)
    }
}

impl Error {
    /// The error of kind `kind` at `input`, ready to be returned by a parser.
    pub fn new(input: &[u8], kind: ErrorKind) -> (r: Unparsed)
        ensures
            r@ == UnparsedView::Error(ErrorView::fresh(input@, kind)),
    {
        Unparsed::from(Error::new_inner(input, kind))
    }

    /// The error of kind `kind` at `input`, with no context and no causes.
    pub fn new_inner(input: &[u8], kind: ErrorKind) -> (r: Error)
        ensures
            r@ == ErrorView::fresh(input@, kind),
    {
        Error { input: slice_to_vec(input), kind, context: None, causes: Vec::new() }
    }

    /// The error of a generic combinator that failed at `input`.
    pub fn from_error_kind(input: &[u8], kind: NomKind) -> (r: Error)
        ensures
            r@ == ErrorView::fresh(input@, ErrorKind::Nom(kind)),
    {
        Error::new_inner(input, ErrorKind::Nom(kind))
    }

    /// Adds the classification of an enclosing combinator to the end of the
    /// chain of causes of `other`. The place of the combinator is not kept.
    pub fn append(_input: &[u8], kind: NomKind, other: Error) -> (r: Error)
        ensures
            r@ == other@.append(kind),
    {
        let mut other = other;
        other.causes.push(ErrorKind::Nom(kind));
        other
    }

    /// Puts `other` under the name of an enclosing rule, in place of any
    /// name it had.
    pub fn add_context(_input: &[u8], ctx: &'static str, other: Error) -> (r: Error)
        ensures
            r@ == other@.add_context(ctx@),
    {
        let mut other = other;
        other.context = Some(ctx);
        other
    }
}

} // verus!
