use crate::frame::components::FrameControl;
use crate::generators::GenError;
use crate::text::{decimal, push_decimal};
use vstd::prelude::*;
use vstd::string::StringExecFns;

verus! {

/// How much input a parser lacks.
#[derive(Clone, Copy, Debug, PartialEq, Eq, Structural)]
pub enum Needed {
    /// More, and it cannot say how much.
    Unknown,
    /// At least this number of octets.
    Size(usize),
}

/// What a parser reports when it gives up.
///
/// The parsers of this library report an input that ends too early. The
/// other two variants are there for parsers written with `nom`, whose kinds
/// of error they name as `nom` does, and for an element that breaks off,
/// which is reported as such a parser would: as an error of the kind `Eof`.
#[derive(Debug, PartialEq, Eq)]
pub enum ParseError {
    /// The input ends before the structure does.
    Incomplete(Needed),
    /// The input does not have the expected shape; another parser may be
    /// tried on it. Holds the name of the kind of error, and the input that
    /// was left where it happened.
    Error(String, Vec<u8>),
    /// The input does not have the expected shape, and no other parser
    /// should be tried. Holds what `Error` holds.
    Failure(String, Vec<u8>),
}

/// A [`ParseError`] as a value of specifications.
pub enum ParseErrorView {
    Incomplete(Needed),
    Error(Seq<char>, Seq<u8>),
    Failure(Seq<char>, Seq<u8>),
}

impl View for ParseError {
    type V = ParseErrorView;

    open spec fn view(&self) -> ParseErrorView {
        match self {
            ParseError::Incomplete(needed) => ParseErrorView::Incomplete(*needed),
            ParseError::Error(kind, input) => ParseErrorView::Error(kind@, input@),
            ParseError::Failure(kind, input) => ParseErrorView::Failure(kind@, input@),
        }
    }
}

/// The one error type that the entry points of this library return.
#[derive(Debug, PartialEq, Eq)]
pub enum Error {
    /// The frame control was read, and no parser exists for frames of its
    /// subtype. Holds the frame control and the octets that follow it.
    UnhandledFrameSubtype(FrameControl, Vec<u8>),
    /// The data does not have the shape of a frame. Holds a diagnostic and
    /// the octets at fault.
    ParseFailure(String, Vec<u8>),
    /// The frame cannot be written. Holds the reason.
    SerializeFailure(String),
    /// The data ends before the frame does. Holds how much is missing, as
    /// far as that is known.
    Incomplete(String),
    /// The data belongs to a protocol variant that this library leaves
    /// alone.
    UnhandledProtocol(String),
}

/// An [`Error`] as a value of specifications.
pub enum ErrorView {
    UnhandledFrameSubtype(FrameControl, Seq<u8>),
    ParseFailure(Seq<char>, Seq<u8>),
    SerializeFailure(Seq<char>),
    Incomplete(Seq<char>),
    UnhandledProtocol(Seq<char>),
}

impl View for Error {
    type V = ErrorView;

    open spec fn view(&self) -> ErrorView {
        match self {
            Error::UnhandledFrameSubtype(frame_control, rest) => ErrorView::UnhandledFrameSubtype(
                *frame_control,
                rest@,
            ),
            Error::ParseFailure(diagnostic, data) => ErrorView::ParseFailure(diagnostic@, data@),
            Error::SerializeFailure(reason) => ErrorView::SerializeFailure(reason@),
            Error::Incomplete(missing) => ErrorView::Incomplete(missing@),
            Error::UnhandledProtocol(protocol) => ErrorView::UnhandledProtocol(protocol@),
        }
    }
}

/// The error that the entry points return for what a parser reported.
pub open spec fn parse_error_report(error: ParseErrorView) -> ErrorView {
    match error {
        ParseErrorView::Incomplete(Needed::Size(size)) => ErrorView::Incomplete(
            "At least "@ + decimal(size as nat) + " bytes are missing"@,
        ),
        ParseErrorView::Incomplete(Needed::Unknown) => ErrorView::Incomplete(Seq::empty()),
        ParseErrorView::Failure(kind, input) => ErrorView::ParseFailure(
            "An error occured while parsing the data: nom::ErrorKind is "@ + kind,
            input,
        ),
        ParseErrorView::Error(kind, input) => ErrorView::ParseFailure(
            "An error occured while parsing the data: nom::ErrorKind is "@ + kind,
            input,
        ),
    }
}

/// The error that the entry points return for what a generator reported.
pub open spec fn gen_error_report(error: GenError) -> ErrorView {
    match error {
        GenError::BufferTooSmall(max_idx) => ErrorView::SerializeFailure(
            "Provided buffer is too small! Minimum size is "@ + decimal((max_idx + 1) as nat)
                + "!"@,
        ),
        GenError::CustomError(error) => ErrorView::SerializeFailure(error.explanation()),
        GenError::InvalidOffset => ErrorView::SerializeFailure(
            "Generator asked for inavlid index!"@,
        ),
        GenError::NotYetImplemented => ErrorView::SerializeFailure(
            "Generator not yet implemented!"@,
        ),
    }
}

/// The diagnostic of a parse failure of the given kind.
fn parse_failure_text(kind: &String) -> (text: String)
    ensures
        text@ == "An error occured while parsing the data: nom::ErrorKind is "@ + kind@,
{
    let mut text = String::from_str("An error occured while parsing the data: nom::ErrorKind is ");
    text.append(kind.as_str());
    text
}

impl From<ParseError> for Error {
    fn from(error: ParseError) -> (report: Error)
        ensures
            report@ == parse_error_report(error@),
    {
        match error {
            ParseError::Incomplete(needed) => match needed {
                Needed::Size(size) => {
                    let mut text = String::from_str("At least ");
                    push_decimal(&mut text, size as u128);
                    text.append(" bytes are missing");
                    Error::Incomplete(text)
                },
                Needed::Unknown => Error::Incomplete(String::new()),
            },
            ParseError::Failure(kind, input) => Error::ParseFailure(
                parse_failure_text(&kind),
                input,
            ),
            ParseError::Error(kind, input) => Error::ParseFailure(parse_failure_text(&kind), input),
        }
    }
}

impl vstd::std_specs::convert::FromSpecImpl<ParseError> for Error {
    /// `from` is stated over views, which tell two errors apart by what they
    /// hold; `from_spec` would tell them apart by their buffers.
    open spec fn obeys_from_spec() -> bool {
        false
    }

    open spec fn from_spec(error: ParseError) -> Error {
        arbitrary()
    }
}

impl From<GenError> for Error {
    fn from(error: GenError) -> (report: Error)
        ensures
            report@ == gen_error_report(error),
    {
        match error {
            GenError::BufferTooSmall(max_idx) => {
                let mut text = String::from_str("Provided buffer is too small! Minimum size is ");
                push_decimal(&mut text, max_idx as u128 + 1);
                text.append("!");
                Error::SerializeFailure(text)
            },
            GenError::CustomError(error) => Error::SerializeFailure(
                String::from_str(error.explain()),
            ),
            GenError::InvalidOffset => Error::SerializeFailure(
                String::from_str("Generator asked for inavlid index!"),
            ),
            GenError::NotYetImplemented => Error::SerializeFailure(
                String::from_str("Generator not yet implemented!"),
            ),
        }
    }
}

impl vstd::std_specs::convert::FromSpecImpl<GenError> for Error {
    /// See the impl for [`ParseError`].
    open spec fn obeys_from_spec() -> bool {
        false
    }

    open spec fn from_spec(error: GenError) -> Error {
        arbitrary()
    }
}

} // verus!
