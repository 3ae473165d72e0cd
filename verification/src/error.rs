//! The errors of the library.
use vstd::prelude::*;

use crate::cl;

pub use indy_utils::{ConversionError, ValidationError};
pub use serde_json::Error as TextError;

verus! {

/// The error of a value that could not be converted.
#[verifier::external_type_specification]
#[verifier::external_body]
pub struct ExConversionError(ConversionError);

/// The error of an identifier that is not valid.
#[verifier::external_type_specification]
#[verifier::external_body]
pub struct ExValidationError(ValidationError);

/// The error of a value that could not be written as text.
#[verifier::external_type_specification]
#[verifier::external_body]
pub struct ExTextError(TextError);

/// Whose fault an error is.
#[derive(Debug, Clone, Copy, PartialEq, Eq, Structural)]
pub enum ErrorKind {
    /// The arguments cannot be used together.
    Input,
    /// Something failed that should not.
    Unexpected,
}

/// What lies behind an error.
#[derive(Debug)]
pub enum Cause {
    Conversion(ConversionError),
    Signature(cl::ClError),
    Text(TextError),
}

/// What a function of the library fails with.
#[derive(Debug)]
pub enum Error {
    /// A failure that the library names itself, with a message where there is one, and what
    /// lies behind it.
    Failure { kind: ErrorKind, message: Option<&'static str>, cause: Option<Cause> },
    /// A DID that is not valid.
    Validation(ValidationError),
    /// A failure of the signature scheme, handed on as it came.
    Signature(cl::ClError),
    /// A failure of a tails writer.
    Tails(String),
}

impl Error {
    /// An input that is refused for the reason that the message gives.
    pub open spec fn refuses(self, reason: Seq<char>) -> bool {
        self matches Error::Failure { kind: ErrorKind::Input, message: Some(message), cause: None }
            && message@ == reason
    }

    /// A failure of a kind that something lies behind, with the message that is given.
    pub open spec fn reports(self, failure: ErrorKind, reason: Seq<char>) -> bool {
        self matches Error::Failure { kind, message: Some(message), cause: Some(cause) } && kind
            == failure && message@ == reason
    }

    /// A failure of a kind that one of the signature scheme lies behind, with the message that
    /// is given.
    pub open spec fn reports_signature(self, failure: ErrorKind, reason: Seq<char>) -> bool {
        &&& self.reports(failure, reason)
        &&& self matches Error::Failure { cause: Some(Cause::Signature(_)), .. }
    }

    /// An argument could not be written as text, to be tested.
    pub open spec fn not_read(self) -> bool {
        self matches Error::Failure {
            kind: ErrorKind::Unexpected,
            message: None,
            cause: Some(Cause::Text(_)),
        }
    }

    /// The failure to write an argument as text.
    pub(crate) fn text(err: TextError) -> (res: Error)
        ensures
            res == (Error::Failure {
                kind: ErrorKind::Unexpected,
                message: None,
                cause: Some(Cause::Text(err)),
            }),
            res.not_read(),
    {
        Error::Failure {
            kind: ErrorKind::Unexpected,
            message: None,
            cause: Some(Cause::Text(err)),
        }
    }

    /// An input that is refused.
    pub(crate) fn input(reason: &'static str) -> (res: Error)
        ensures
            res.refuses(reason@),
    {
        Error::Failure { kind: ErrorKind::Input, message: Some(reason), cause: None }
    }

    /// A failure of the signature scheme, with a kind and a message.
    pub(crate) fn caused(kind: ErrorKind, reason: &'static str, cause: Cause) -> (res: Error)
        ensures
            res.reports(kind, reason@),
            res == (Error::Failure { kind, message: Some(reason), cause: Some(cause) }),
    {
        Error::Failure { kind, message: Some(reason), cause: Some(cause) }
    }
}

} // verus!
