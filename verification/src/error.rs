//! The ways in which decoding a magnet URI can fail.

use vstd::prelude::*;

verus! {

/// The error of `url::Url::parse`. Its variants are not read here: the value
/// is handed on inside [`Error::ParseError`].
#[verifier::external_type_specification]
#[verifier::external_body]
pub struct ExParseError(url::ParseError);

/// Why a text was not decoded.
#[derive(Debug, PartialEq)]
pub enum Error {
    /// The text is not a URI; holds what the URI parser said.
    ParseError(url::ParseError),
    /// The URI has a scheme other than `magnet`; holds that scheme.
    InvalidScheme(String),
    /// A key names no known parameter, or is `x` without a name; holds the key.
    InvalidParameter(String),
    /// A key's group is no decimal number that fits `usize`; holds the key.
    InvalidGroupIndex(String),
    /// The value of an `xl` parameter is no decimal number that fits `usize`;
    /// holds the value.
    InvalidLength(String),
    /// Some keys carry a group number and some do not.
    InconsistentGrouping,
    /// The URI has no query component.
    EmptyQuery,
}

/// An [`Error`] with its texts as character sequences.
pub enum ErrorView {
    ParseError(url::ParseError),
    InvalidScheme(Seq<char>),
    InvalidParameter(Seq<char>),
    InvalidGroupIndex(Seq<char>),
    InvalidLength(Seq<char>),
    InconsistentGrouping,
    EmptyQuery,
}

impl View for Error {
    type V = ErrorView;

    open spec fn view(&self) -> ErrorView {
        match self {
            Error::ParseError(e) => ErrorView::ParseError(*e),
            Error::InvalidScheme(s) => ErrorView::InvalidScheme(s@),
            Error::InvalidParameter(s) => ErrorView::InvalidParameter(s@),
            Error::InvalidGroupIndex(s) => ErrorView::InvalidGroupIndex(s@),
            Error::InvalidLength(s) => ErrorView::InvalidLength(s@),
            Error::InconsistentGrouping => ErrorView::InconsistentGrouping,
            Error::EmptyQuery => ErrorView::EmptyQuery,
        }
    }
}

} // verus!
