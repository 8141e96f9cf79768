//! The `char` record: the metrics of one glyph. The `id` is the glyph's
//! UTF-16 code unit and is the key the font's lookup table is sorted by.

use vstd::prelude::*;

use crate::config_parse_error::{ConfigParseError, ConfigParseErrorV};
use crate::text::{split_ws, tokens};
use crate::utils::{
    extract_component_i32, extract_component_u32, spec_extract_i32, spec_extract_u32, tok_at,
    token_at,
};

verus! {

/// The metrics of one glyph.
#[derive(Clone, Copy, Debug)]
pub struct Char {
    /// The glyph's character as a single UTF-16 code unit.
    pub id: u32,
    /// Left edge of the glyph on its texture page.
    pub x: u32,
    /// Top edge of the glyph on its texture page.
    pub y: u32,
    pub width: u32,
    pub height: u32,
    /// Horizontal offset from the cursor to the glyph's left edge.
    pub xoffset: i32,
    /// Vertical offset from the line's origin to the glyph's top edge.
    pub yoffset: i32,
    /// How far the cursor moves after this glyph.
    pub xadvance: i32,
    /// Which texture page holds the glyph.
    pub page_index: u32,
}

/// The char record denoted by the line `l`: its nine components, in their
/// fixed order.
pub open spec fn spec_char_line(l: Seq<char>) -> Result<Char, ConfigParseErrorV> {
    let toks = split_ws(l);
    match spec_extract_u32(tok_at(toks, 1), "char"@, "id"@) {
        Err(e) => Err(e),
        Ok(id) => match spec_extract_u32(tok_at(toks, 2), "char"@, "x"@) {
            Err(e) => Err(e),
            Ok(x) => match spec_extract_u32(tok_at(toks, 3), "char"@, "y"@) {
                Err(e) => Err(e),
                Ok(y) => match spec_extract_u32(tok_at(toks, 4), "char"@, "width"@) {
                    Err(e) => Err(e),
                    Ok(width) => match spec_extract_u32(tok_at(toks, 5), "char"@, "height"@) {
                        Err(e) => Err(e),
                        Ok(height) => match spec_extract_i32(tok_at(toks, 6), "char"@, "xoffset"@) {
                            Err(e) => Err(e),
                            Ok(xoffset) => match spec_extract_i32(
                                tok_at(toks, 7),
                                "char"@,
                                "yoffset"@,
                            ) {
                                Err(e) => Err(e),
                                Ok(yoffset) => match spec_extract_i32(
                                    tok_at(toks, 8),
                                    "char"@,
                                    "xadvance"@,
                                ) {
                                    Err(e) => Err(e),
                                    Ok(xadvance) => match spec_extract_u32(
                                        tok_at(toks, 9),
                                        "char"@,
                                        "page"@,
                                    ) {
                                        Err(e) => Err(e),
                                        Ok(page_index) => Ok(
                                            Char {
                                                id,
                                                x,
                                                y,
                                                width,
                                                height,
                                                xoffset,
                                                yoffset,
                                                xadvance,
                                                page_index,
                                            },
                                        ),
                                    },
                                },
                            },
                        },
                    },
                },
            },
        },
    }
}

/// The outcome of decoding a line of the `char` run: its record, or — when
/// the line starts with the section tag without its first token being
/// exactly the tag — the component mismatch that says so.
pub open spec fn spec_char_record(l: Seq<char>) -> Result<Char, ConfigParseErrorV> {
    let toks = split_ws(l);
    if toks.len() > 0 && toks[0] == "char"@ {
        spec_char_line(l)
    } else {
        Err(
            ConfigParseErrorV::InvalidComponent {
                section: "char"@,
                expected_component: "char"@,
                actual_component: if toks.len() > 0 {
                    toks[0]
                } else {
                    Seq::empty()
                },
            },
        )
    }
}

/// Decodes one line of the `char` run, first checking the section tag.
pub(crate) fn parse_char_record(s: &str) -> (r: Result<Char, ConfigParseError>)
    ensures
        match r {
            Ok(c) => spec_char_record(s@) == Ok::<Char, ConfigParseErrorV>(c),
            Err(e) => spec_char_record(s@) == Err::<Char, ConfigParseErrorV>(e@),
        },
{
    let toks = crate::text::tokens(s);
    if toks.len() > 0 {
        proof {
            assert(toks.deep_view()[0] == toks@[0].deep_view());
        }
        if crate::text::str_eq(toks[0].as_str(), "char") {
            return Char::new(s);
        }
        return Err(
            ConfigParseError::InvalidComponent {
                section: "char".to_owned(),
                expected_component: "char".to_owned(),
                actual_component: toks[0].clone(),
            },
        );
    }
    Err(
        ConfigParseError::InvalidComponent {
            section: "char".to_owned(),
            expected_component: "char".to_owned(),
            actual_component: String::new(),
        },
    )
}

impl Char {
    /// Decodes one `char` line. The caller must already have established
    /// that the line's first token is the section tag itself.
    pub fn new(s: &str) -> (r: Result<Char, ConfigParseError>)
        requires
            split_ws(s@).len() > 0,
            split_ws(s@)[0] == "char"@,
        ensures
            match r {
                Ok(c) => spec_char_line(s@) == Ok::<Char, ConfigParseErrorV>(c),
                Err(e) => spec_char_line(s@) == Err::<Char, ConfigParseErrorV>(e@),
            },
    {
        let toks = tokens(s);
        let id = match extract_component_u32(token_at(&toks, 1), "char", "id") {
            Ok(v) => v,
            Err(e) => {
                return Err(e);
            },
        };
        let x = match extract_component_u32(token_at(&toks, 2), "char", "x") {
            Ok(v) => v,
            Err(e) => {
                return Err(e);
            },
        };
        let y = match extract_component_u32(token_at(&toks, 3), "char", "y") {
            Ok(v) => v,
            Err(e) => {
                return Err(e);
            },
        };
        let width = match extract_component_u32(token_at(&toks, 4), "char", "width") {
            Ok(v) => v,
            Err(e) => {
                return Err(e);
            },
        };
        let height = match extract_component_u32(token_at(&toks, 5), "char", "height") {
            Ok(v) => v,
            Err(e) => {
                return Err(e);
            },
        };
        let xoffset = match extract_component_i32(token_at(&toks, 6), "char", "xoffset") {
            Ok(v) => v,
            Err(e) => {
                return Err(e);
            },
        };
        let yoffset = match extract_component_i32(token_at(&toks, 7), "char", "yoffset") {
            Ok(v) => v,
            Err(e) => {
                return Err(e);
            },
        };
        let xadvance = match extract_component_i32(token_at(&toks, 8), "char", "xadvance") {
            Ok(v) => v,
            Err(e) => {
                return Err(e);
            },
        };
        let page_index = match extract_component_u32(token_at(&toks, 9), "char", "page") {
            Ok(v) => v,
            Err(e) => {
                return Err(e);
            },
        };
        Ok(Char { id, x, y, width, height, xoffset, yoffset, xadvance, page_index })
    }
}

} // verus!
