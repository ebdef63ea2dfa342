//! The one error type of the library.

use vstd::prelude::*;
use vstd::string::*;

verus! {

/// Why a parse was given up.
#[derive(Clone, Copy, PartialEq, Eq, Debug, Structural)]
pub enum ErrorKind {
    /// The document, or a file it refers to, cannot be had.
    SourceUnreadable,
    /// The markup is ill-formed, or elements close that never opened.
    MalformedStructure,
    /// The source is of neither dialect.
    UnrecognizedDialect,
    /// A session or message time does not follow its pattern.
    TimestampReconstructionFailure,
}

#[derive(Debug)]
pub struct MessengerError {
    kind: ErrorKind,
    details: String,
}

/// What a [`MessengerError`] holds.
pub struct ErrorView {
    pub kind: ErrorKind,
    pub details: Seq<char>,
}

impl View for MessengerError {
    type V = ErrorView;

    closed spec fn view(&self) -> ErrorView {
        ErrorView { kind: self.kind, details: self.details@ }
    }
}

impl MessengerError {
    /// An error about a source that is no archive this library reads.
    pub fn new(msg: &str) -> (e: MessengerError)
        ensures
            e@ == (ErrorView { kind: ErrorKind::UnrecognizedDialect, details: msg@ }),
    {
        MessengerError { kind: ErrorKind::UnrecognizedDialect, details: String::from_str(msg) }
    }

    /// An error of the given kind.
    pub fn of_kind(kind: ErrorKind, msg: &str) -> (e: MessengerError)
        ensures
            e@ == (ErrorView { kind, details: msg@ }),
    {
        MessengerError { kind, details: String::from_str(msg) }
    }

    pub fn kind(&self) -> (kind: ErrorKind)
        ensures
            kind == self@.kind,
    {
        self.kind
    }

    pub fn description(&self) -> (text: &str)
        ensures
            text@ == self@.details,
    {
        self.details.as_str()
    }

    /// The same error once more.
    pub fn again(&self) -> (e: MessengerError)
        ensures
            e@ == self@,
    {
        MessengerError { kind: self.kind, details: self.details.clone() }
    }

    /// The details as an owned string, as a display of the error would give.
    pub fn to_string(&self) -> (text: String)
        ensures
            text@ == self@.details,
    {
        self.details.clone()
    }
}

} // verus!
