//! The `kerning` record: a horizontal adjustment applied when one specific
//! glyph immediately follows another on a line.

use vstd::prelude::*;

use crate::config_parse_error::{ConfigParseError, ConfigParseErrorV};
use crate::text::{split_ws, tokens};
use crate::utils::{
    extract_component_i32, extract_component_u32, spec_extract_i32, spec_extract_u32, tok_at,
    token_at,
};

verus! {

/// One kerning pair: when `second_char_id` follows `first_char_id`, shift it
/// by `value`.
#[derive(Clone, Copy, Debug, PartialEq, Eq)]
pub struct KerningValue {
    pub first_char_id: u32,
    pub second_char_id: u32,
    pub value: i32,
}

/// The kerning record denoted by the line `l`: its `first`, `second` and
/// `amount` components, in that order.
pub open spec fn spec_kerning_line(l: Seq<char>) -> Result<KerningValue, ConfigParseErrorV> {
    let toks = split_ws(l);
    match spec_extract_u32(tok_at(toks, 1), "kerning"@, "first"@) {
        Err(e) => Err(e),
        Ok(first_char_id) => match spec_extract_u32(tok_at(toks, 2), "kerning"@, "second"@) {
            Err(e) => Err(e),
            Ok(second_char_id) => match spec_extract_i32(tok_at(toks, 3), "kerning"@, "amount"@) {
                Err(e) => Err(e),
                Ok(value) => Ok(KerningValue { first_char_id, second_char_id, value }),
            },
        },
    }
}

/// The outcome of decoding a line of the `kerning` run: its record, or —
/// when the line starts with the section tag without its first token being
/// exactly the tag — the component mismatch that says so.
pub open spec fn spec_kerning_record(l: Seq<char>) -> Result<KerningValue, ConfigParseErrorV> {
    let toks = split_ws(l);
    if toks.len() > 0 && toks[0] == "kerning"@ {
        spec_kerning_line(l)
    } else {
        Err(
            ConfigParseErrorV::InvalidComponent {
                section: "kerning"@,
                expected_component: "kerning"@,
                actual_component: if toks.len() > 0 {
                    toks[0]
                } else {
                    Seq::empty()
                },
            },
        )
    }
}

/// Decodes one line of the `kerning` run, first checking the section tag.
pub(crate) fn parse_kerning_record(s: &str) -> (r: Result<KerningValue, ConfigParseError>)
    ensures
        match r {
            Ok(k) => spec_kerning_record(s@) == Ok::<KerningValue, ConfigParseErrorV>(k),
            Err(e) => spec_kerning_record(s@) == Err::<KerningValue, ConfigParseErrorV>(e@),
        },
{
    let toks = crate::text::tokens(s);
    if toks.len() > 0 {
        proof {
            assert(toks.deep_view()[0] == toks@[0].deep_view());
        }
        if crate::text::str_eq(toks[0].as_str(), "kerning") {
            return KerningValue::new(s);
        }
        return Err(
            ConfigParseError::InvalidComponent {
                section: "kerning".to_owned(),
                expected_component: "kerning".to_owned(),
                actual_component: toks[0].clone(),
            },
        );
    }
    Err(
        ConfigParseError::InvalidComponent {
            section: "kerning".to_owned(),
            expected_component: "kerning".to_owned(),
            actual_component: String::new(),
        },
    )
}

impl KerningValue {
    /// Decodes one `kerning` line. The caller must already have established
    /// that the line's first token is the section tag itself.
    pub fn new(s: &str) -> (r: Result<KerningValue, ConfigParseError>)
        requires
            split_ws(s@).len() > 0,
            split_ws(s@)[0] == "kerning"@,
        ensures
            match r {
                Ok(k) => spec_kerning_line(s@) == Ok::<KerningValue, ConfigParseErrorV>(k),
                Err(e) => spec_kerning_line(s@) == Err::<KerningValue, ConfigParseErrorV>(e@),
            },
    {
        let toks = tokens(s);
        let first_char_id = match extract_component_u32(token_at(&toks, 1), "kerning", "first") {
            Ok(v) => v,
            Err(e) => {
                return Err(e);
            },
        };
        let second_char_id = match extract_component_u32(token_at(&toks, 2), "kerning", "second") {
            Ok(v) => v,
            Err(e) => {
                return Err(e);
            },
        };
        let value = match extract_component_i32(token_at(&toks, 3), "kerning", "amount") {
            Ok(v) => v,
            Err(e) => {
                return Err(e);
            },
        };
        Ok(KerningValue { first_char_id, second_char_id, value })
    }
}

} // verus!
