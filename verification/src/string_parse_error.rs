//! The report returned when an input string cannot be laid out under strict
//! validation: which characters have no glyph, and which cannot be a single
//! UTF-16 code unit at all.

use vstd::prelude::*;

verus! {

/// The characters of an input string that failed validation, each list in
/// first-encounter order and keeping duplicates.
#[derive(Debug, PartialEq, Eq)]
pub struct StringParseError {
    /// Characters with no glyph in the font.
    pub missing_characters: Vec<char>,
    /// Characters that need more than one UTF-16 code unit.
    pub unsupported_characters: Vec<char>,
}

/// The spec-level image of a [`StringParseError`].
pub ghost struct StringParseErrorV {
    pub missing_characters: Seq<char>,
    pub unsupported_characters: Seq<char>,
}

impl View for StringParseError {
    type V = StringParseErrorV;

    open spec fn view(&self) -> StringParseErrorV {
        StringParseErrorV {
            missing_characters: self.missing_characters@,
            unsupported_characters: self.unsupported_characters@,
        }
    }
}

} // verus!
