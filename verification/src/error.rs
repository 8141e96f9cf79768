//! The error surfaced by font construction: either a failure of the caller's
//! byte source, or a structural fault in the definition text.

use vstd::prelude::*;

use crate::config_parse_error::{ConfigParseError, ConfigParseErrorV};

verus! {

/// A font-construction failure.
#[derive(Debug, PartialEq, Eq)]
pub enum Error {
    /// The byte source could not be read; carries the reader's message.
    /// Raised only by callers that do their own input, never by the decoder.
    IOError(String),
    /// The definition text is malformed.
    ConfigParseError(ConfigParseError),
}

/// The spec-level image of an [`Error`].
pub ghost enum ErrorV {
    IOError(Seq<char>),
    ConfigParseError(ConfigParseErrorV),
}

impl View for Error {
    type V = ErrorV;

    open spec fn view(&self) -> ErrorV {
        match self {
            Error::IOError(message) => ErrorV::IOError(message@),
            Error::ConfigParseError(inner) => ErrorV::ConfigParseError(inner@),
        }
    }
}

impl From<ConfigParseError> for Error {
    fn from(parse_error: ConfigParseError) -> (r: Error) {
        Error::ConfigParseError(parse_error)
    }
}

impl vstd::std_specs::convert::FromSpecImpl<ConfigParseError> for Error {
    open spec fn obeys_from_spec() -> bool {
        true
    }

    open spec fn from_spec(parse_error: ConfigParseError) -> Error {
        Error::ConfigParseError(parse_error)
    }
}

} // verus!
