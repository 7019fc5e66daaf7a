//! What can go wrong with a request, each kind apart from the others.

use crate::item_type::ItemType;
use vstd::prelude::*;
use vstd::string::*;

verus! {

#[verifier::external_type_specification]
#[verifier::external_body]
pub struct ExIoError(std::io::Error);

/// A URL that no request can be made from.
#[derive(Debug, PartialEq, Eq, Structural, Clone, Copy)]
pub enum UrlError {
    /// The URL's host and port gave no address to connect to.
    Resolve,
}

/// An answer that cannot be read.
#[derive(Debug, PartialEq, Eq, Structural, Clone, Copy)]
pub enum ParseError {
    /// The bytes of the answer are not UTF-8 text.
    Encoding,
    /// The answer, or a line of the menu in it, is of a type that this
    /// client does not fetch.
    UnsupportedType(ItemType),
}

/// Whatever ends a request without a response.
#[derive(Debug)]
pub enum Error {
    /// The channel that requests come in by has closed.
    ChannelRecv,
    /// The URL gave no address to connect to.
    Resolve,
    /// The answer is not UTF-8 text.
    Encoding,
    /// The resource is of a type that this client does not fetch.
    UnsupportedType(ItemType),
    /// Connecting, sending or receiving failed.
    IO(std::io::Error),
    /// Something was reported to an exchange that it was not waiting for.
    OutOfTurn,
}

impl From<UrlError> for Error {
    fn from(err: UrlError) -> (error: Error) {
        match err {
            UrlError::Resolve => Error::Resolve,
        }
    }
}

impl vstd::std_specs::convert::FromSpecImpl<UrlError> for Error {
    open spec fn obeys_from_spec() -> bool {
        true
    }

    open spec fn from_spec(err: UrlError) -> Error {
        match err {
            UrlError::Resolve => Error::Resolve,
        }
    }
}

impl From<ParseError> for Error {
    fn from(err: ParseError) -> (error: Error) {
        match err {
            ParseError::Encoding => Error::Encoding,
            ParseError::UnsupportedType(item_type) => Error::UnsupportedType(item_type),
        }
    }
}

impl vstd::std_specs::convert::FromSpecImpl<ParseError> for Error {
    open spec fn obeys_from_spec() -> bool {
        true
    }

    open spec fn from_spec(err: ParseError) -> Error {
        match err {
            ParseError::Encoding => Error::Encoding,
            ParseError::UnsupportedType(item_type) => Error::UnsupportedType(item_type),
        }
    }
}

impl From<std::io::Error> for Error {
    fn from(err: std::io::Error) -> (error: Error) {
        Error::IO(err)
    }
}

impl vstd::std_specs::convert::FromSpecImpl<std::io::Error> for Error {
    open spec fn obeys_from_spec() -> bool {
        true
    }

    open spec fn from_spec(err: std::io::Error) -> Error {
        Error::IO(err)
    }
}

/// `ToString::to_string` of an I/O error: the words that the error has for
/// itself. Nothing is claimed of them.
#[verifier::external_body]
fn io_error_text(err: &std::io::Error) -> (text: String) {
    err.to_string()
}

impl Error {
    /// The error in words, for a reader.
    pub fn message(&self) -> (text: String)
        ensures
            *self is ChannelRecv ==> text@ == "ChannelRecv"@,
            *self is Resolve ==> text@ == "the URL resolves to no address"@,
            *self is Encoding ==> text@ == "the response is not UTF-8 text"@,
            *self is UnsupportedType ==> text@ == "unsupported resource type"@,
            *self is OutOfTurn ==> text@ == "the exchange was not waiting for this"@,
            *self is IO ==> text@.len() >= "IO error: "@.len() && text@.take(
                "IO error: "@.len() as int,
            ) == "IO error: "@,
    {
        match self {
            Error::ChannelRecv => String::from_str("ChannelRecv"),
            Error::Resolve => String::from_str("the URL resolves to no address"),
            Error::Encoding => String::from_str("the response is not UTF-8 text"),
            Error::UnsupportedType(_) => String::from_str("unsupported resource type"),
            Error::OutOfTurn => String::from_str("the exchange was not waiting for this"),
            Error::IO(err) => String::from_str("IO error: ").concat(io_error_text(err).as_str()),
        }
    }
}

} // verus!
