//! The error type shared by all parsers of the crate.

use vstd::prelude::*;

verus! {

/// Why a buffer was rejected.
#[derive(Clone, Copy, Debug, PartialEq, Eq)]
pub enum Error {
    /// The bytes do not have the structure that the format asks for.
    /// The string names the violated rule.
    InvalidFormat(&'static str),
    /// The field is present but holds only blanks.
    BlankValue(&'static str),
}

/// The mathematical value of an [`Error`]: its kind and the characters of
/// its reason.
pub enum ErrorModel {
    InvalidFormat(Seq<char>),
    BlankValue(Seq<char>),
}

impl View for Error {
    type V = ErrorModel;

    open spec fn view(&self) -> ErrorModel {
        match *self {
            Error::InvalidFormat(s) => ErrorModel::InvalidFormat(s@),
            Error::BlankValue(s) => ErrorModel::BlankValue(s@),
        }
    }
}

/// The error for a buffer that breaks the rule named by `reason`.
pub open spec fn format_error(reason: &str) -> ErrorModel {
    ErrorModel::InvalidFormat(reason@)
}

} // verus!
