//! Decoding of one `component=value` token. Every record parser goes
//! through [`extract_component_value`] (and the typed variants beside it),
//! so all of them report absent, misnamed and malformed components
//! identically.

use vstd::prelude::*;

use crate::config_parse_error::{ConfigParseError, ConfigParseErrorV};
use crate::numbers::{
    i32_numeral_val, is_i32_numeral, is_u32_numeral, parse_i32_numeral, parse_u32_numeral,
    u32_numeral_val,
};
use crate::text::{find_char, pos_of, str_eq};

verus! {

pub open spec fn token_view(t: Option<&str>) -> Option<Seq<char>> {
    match t {
        Some(s) => Some(s@),
        None => None,
    }
}

/// The `i`-th token of a token list, if there is one.
pub open spec fn tok_at(toks: Seq<Seq<char>>, i: int) -> Option<Seq<char>> {
    if 0 <= i < toks.len() {
        Some(toks[i])
    } else {
        None
    }
}

/// Borrows the `i`-th token of a tokenised line.
pub(crate) fn token_at<'a>(toks: &'a Vec<String>, i: usize) -> (t: Option<&'a str>)
    ensures
        token_view(t) == tok_at(toks.deep_view(), i as int),
{
    if i < toks.len() {
        proof {
            assert(toks.deep_view()[i as int] == toks@[i as int].deep_view());
        }
        Some(toks[i].as_str())
    } else {
        None
    }
}

/// What extracting the component named `component` from the token `t` of a
/// line of section `section` yields: the raw text after the `=`, or the
/// error that pins down why the token cannot serve.
pub open spec fn spec_extract(
    t: Option<Seq<char>>,
    section: Seq<char>,
    component: Seq<char>,
) -> Result<Seq<char>, ConfigParseErrorV> {
    match t {
        None => Err(ConfigParseErrorV::MissingComponent { section, component }),
        Some(tok) => {
            let e = pos_of(tok, '=') as int;
            if e >= tok.len() {
                Err(
                    ConfigParseErrorV::InvalidComponentValue {
                        section,
                        component,
                        value: Seq::empty(),
                    },
                )
            } else {
                let key = tok.take(e);
                if key == component {
                    Ok(tok.skip(e + 1))
                } else {
                    Err(
                        ConfigParseErrorV::InvalidComponent {
                            section,
                            expected_component: component,
                            actual_component: key,
                        },
                    )
                }
            }
        },
    }
}

/// [`spec_extract`] followed by conversion of the value to a `u32`.
pub open spec fn spec_extract_u32(
    t: Option<Seq<char>>,
    section: Seq<char>,
    component: Seq<char>,
) -> Result<u32, ConfigParseErrorV> {
    match spec_extract(t, section, component) {
        Err(e) => Err(e),
        Ok(v) => if is_u32_numeral(v) {
            Ok(u32_numeral_val(v) as u32)
        } else {
            Err(ConfigParseErrorV::InvalidComponentValue { section, component, value: v })
        },
    }
}

/// [`spec_extract`] followed by conversion of the value to an `i32`.
pub open spec fn spec_extract_i32(
    t: Option<Seq<char>>,
    section: Seq<char>,
    component: Seq<char>,
) -> Result<i32, ConfigParseErrorV> {
    match spec_extract(t, section, component) {
        Err(e) => Err(e),
        Ok(v) => if is_i32_numeral(v) {
            Ok(i32_numeral_val(v) as i32)
        } else {
            Err(ConfigParseErrorV::InvalidComponentValue { section, component, value: v })
        },
    }
}

/// Splits the token `s` into `component=value` and hands back the raw value
/// text. Fails if the token is absent, has no `=`, or names a different
/// component.
pub fn extract_component_value(s: Option<&str>, section: &str, component: &str) -> (r: Result<
    String,
    ConfigParseError,
>)
    ensures
        match r {
            Ok(v) => spec_extract(token_view(s), section@, component@) == Ok::<
                Seq<char>,
                ConfigParseErrorV,
            >(v@),
            Err(e) => spec_extract(token_view(s), section@, component@) == Err::<
                Seq<char>,
                ConfigParseErrorV,
            >(e@),
        },
{
    match s {
        None => Err(
            ConfigParseError::MissingComponent {
                section: section.to_owned(),
                component: component.to_owned(),
            },
        ),
        Some(tok) => {
            let n = tok.unicode_len();
            let e = find_char(tok, '=');
            if e >= n {
                Err(
                    ConfigParseError::InvalidComponentValue {
                        section: section.to_owned(),
                        component: component.to_owned(),
                        value: String::new(),
                    },
                )
            } else {
                let key = tok.substring_char(0, e);
                proof {
                    assert(key@ =~= tok@.take(e as int));
                }
                if str_eq(key, component) {
                    let value = tok.substring_char(e + 1, n);
                    proof {
                        assert(value@ =~= tok@.skip(e + 1));
                    }
                    Ok(value.to_owned())
                } else {
                    Err(
                        ConfigParseError::InvalidComponent {
                            section: section.to_owned(),
                            expected_component: component.to_owned(),
                            actual_component: key.to_owned(),
                        },
                    )
                }
            }
        },
    }
}

/// Extracts a component and converts its value to a `u32`.
pub(crate) fn extract_component_u32(s: Option<&str>, section: &str, component: &str) -> (r: Result<
    u32,
    ConfigParseError,
>)
    ensures
        match r {
            Ok(v) => spec_extract_u32(token_view(s), section@, component@) == Ok::<
                u32,
                ConfigParseErrorV,
            >(v),
            Err(e) => spec_extract_u32(token_view(s), section@, component@) == Err::<
                u32,
                ConfigParseErrorV,
            >(e@),
        },
{
    match extract_component_value(s, section, component) {
        Err(e) => Err(e),
        Ok(v) => match parse_u32_numeral(v.as_str()) {
            Some(x) => Ok(x),
            None => Err(
                ConfigParseError::InvalidComponentValue {
                    section: section.to_owned(),
                    component: component.to_owned(),
                    value: v,
                },
            ),
        },
    }
}

/// Extracts a component and converts its value to an `i32`.
pub(crate) fn extract_component_i32(s: Option<&str>, section: &str, component: &str) -> (r: Result<
    i32,
    ConfigParseError,
>)
    ensures
        match r {
            Ok(v) => spec_extract_i32(token_view(s), section@, component@) == Ok::<
                i32,
                ConfigParseErrorV,
            >(v),
            Err(e) => spec_extract_i32(token_view(s), section@, component@) == Err::<
                i32,
                ConfigParseErrorV,
            >(e@),
        },
{
    match extract_component_value(s, section, component) {
        Err(e) => Err(e),
        Ok(v) => match parse_i32_numeral(v.as_str()) {
            Some(x) => Ok(x),
            None => Err(
                ConfigParseError::InvalidComponentValue {
                    section: section.to_owned(),
                    component: component.to_owned(),
                    value: v,
                },
            ),
        },
    }
}

} // verus!
