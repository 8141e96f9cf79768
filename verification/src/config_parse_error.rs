//! Structural errors raised while decoding a font definition. Every variant
//! carries enough context — section, component, offending value — to point
//! at the bad line.

use vstd::prelude::*;

verus! {

/// An error found while decoding the font definition text.
#[derive(Debug, PartialEq, Eq)]
pub enum ConfigParseError {
    /// A required section is absent or out of place.
    MissingSection(String),
    /// A line ended before the named component appeared.
    MissingComponent { section: String, component: String },
    /// A `key=value` pair carried the wrong key.
    InvalidComponent {
        section: String,
        expected_component: String,
        actual_component: String,
    },
    /// A component's value could not be converted to its target type.
    InvalidComponentValue { section: String, component: String, value: String },
}

/// The spec-level image of a [`ConfigParseError`]: the same variants over
/// character sequences.
pub ghost enum ConfigParseErrorV {
    MissingSection(Seq<char>),
    MissingComponent { section: Seq<char>, component: Seq<char> },
    InvalidComponent {
        section: Seq<char>,
        expected_component: Seq<char>,
        actual_component: Seq<char>,
    },
    InvalidComponentValue { section: Seq<char>, component: Seq<char>, value: Seq<char> },
}

impl View for ConfigParseError {
    type V = ConfigParseErrorV;

    open spec fn view(&self) -> ConfigParseErrorV {
        match self {
            ConfigParseError::MissingSection(section) => ConfigParseErrorV::MissingSection(
                section@,
            ),
            ConfigParseError::MissingComponent { section, component } => {
                ConfigParseErrorV::MissingComponent { section: section@, component: component@ }
            },
            ConfigParseError::InvalidComponent {
                section,
                expected_component,
                actual_component,
            } => {
                ConfigParseErrorV::InvalidComponent {
                    section: section@,
                    expected_component: expected_component@,
                    actual_component: actual_component@,
                }
            },
            ConfigParseError::InvalidComponentValue { section, component, value } => {
                ConfigParseErrorV::InvalidComponentValue {
                    section: section@,
                    component: component@,
                    value: value@,
                }
            },
        }
    }
}

} // verus!
