//! Parser and layout engine for bitmap font definitions.
//!
//! A font definition is a line-oriented text document: an `info` line, a
//! `common` line carrying the layout constants, one or more `page` lines
//! naming texture pages, a run of `char` lines giving per-glyph metrics and
//! an optional run of `kerning` lines. [`BMFont::new`] decodes such a
//! document into an immutable font model; [`BMFont::parse`] lays out an
//! input string against that model, producing the texture-page and screen
//! rectangle of every resolved character.

use vstd::prelude::*;

pub mod char;
pub mod config_parse_error;
pub mod error;
pub mod kerning_value;
pub mod laws;
pub mod numbers;
pub mod page;
pub mod rect;
pub mod sections;
pub mod string_parse_error;
pub mod tables;
pub mod text;
pub mod utils;

pub use crate::char::Char;
pub use crate::config_parse_error::ConfigParseError;
pub use crate::error::Error;
pub use crate::kerning_value::KerningValue;
pub use crate::page::Page;
pub use crate::rect::Rect;
pub use crate::sections::Sections;
pub use crate::string_parse_error::StringParseError;
pub use crate::utils::extract_component_value;

use crate::char::spec_char_record;
use crate::config_parse_error::ConfigParseErrorV;
use crate::error::ErrorV;
use crate::kerning_value::spec_kerning_record;
use crate::page::{spec_page_record, PageV};
use crate::sections::{spec_sections, SectionsV};
use crate::string_parse_error::StringParseErrorV;
use crate::tables::{
    chars_sorted, find_glyph, glyph_search, insert_glyph, insert_kerning, kerning_between,
    kerning_lower_search, kerning_run, kerning_upper_search, kerns_sorted,
    lemma_insert_glyph_fresh, lemma_insert_glyph_present, lemma_insert_glyph_sorted,
    lemma_insert_kerning_at, lemma_insert_kerning_sorted, lemma_kerning_run_subrange,
    lemma_run_lookup_agrees,
};
use crate::text::layout_lines;
use crate::utils::{extract_component_u32, spec_extract_u32, tok_at, token_at};
use vstd::arithmetic::div_mod::{lemma_mod_division_less_than_divisor, lemma_mod_multiples_vanish};

verus! {

/// Where one laid-out character sits: its source rectangle on its texture
/// page and its rectangle in the rendered output.
#[derive(Clone, Copy, Debug, PartialEq, Eq)]
pub struct CharPosition {
    pub page_rect: Rect,
    pub screen_rect: Rect,
    pub page_index: u32,
}

/// Which way the vertical axis of the rendered output points.
#[derive(Clone, Copy, Debug)]
pub enum OrdinateOrientation {
    /// y grows upward: screen y is measured from the baseline up.
    BottomToTop,
    /// y grows downward: screen y is measured from the top down.
    TopToBottom,
}

/// A decoded bitmap font definition: the layout constants, the sorted glyph
/// and kerning tables, the texture pages, and the chosen orientation.
/// Immutable once constructed.
#[derive(Debug)]
pub struct BMFont {
    base_height: u32,
    line_height: u32,
    characters: Vec<Char>,
    kerning_values: Vec<KerningValue>,
    pages: Vec<Page>,
    ordinate_orientation: OrdinateOrientation,
}

/// The spec-level image of a [`BMFont`].
pub ghost struct BMFontV {
    pub base_height: u32,
    pub line_height: u32,
    pub characters: Seq<Char>,
    pub kerning_values: Seq<KerningValue>,
    pub pages: Seq<PageV>,
    pub ordinate_orientation: OrdinateOrientation,
}

impl View for BMFont {
    type V = BMFontV;

    closed spec fn view(&self) -> BMFontV {
        BMFontV {
            base_height: self.base_height,
            line_height: self.line_height,
            characters: self.characters@,
            kerning_values: self.kerning_values@,
            pages: self.pages.deep_view(),
            ordinate_orientation: self.ordinate_orientation,
        }
    }
}

/// Both lookup tables are sorted as the queries require.
pub open spec fn font_wf(f: BMFontV) -> bool {
    chars_sorted(f.characters) && kerns_sorted(f.kerning_values)
}

/// A coordinate reduced to the `i32` the output rectangles carry, as
/// two's-complement arithmetic reduces it.
pub open spec fn wrap32(v: int) -> i32 {
    let r = v % 0x1_0000_0000;
    if r >= 0x8000_0000 {
        (r - 0x1_0000_0000) as i32
    } else {
        r as i32
    }
}

/// A coordinate that already fits an `i32` is left unchanged by the
/// reduction.
pub proof fn lemma_wrap32_in_range(v: int)
    requires
        i32::MIN <= v <= i32::MAX,
    ensures
        wrap32(v) == v,
{
    if v >= 0 {
        assert(v % 0x1_0000_0000 == v) by (nonlinear_arith)
            requires
                0 <= v < 0x1_0000_0000,
        ;
    } else {
        assert(v % 0x1_0000_0000 == v + 0x1_0000_0000) by (nonlinear_arith)
            requires
                -0x8000_0000 <= v < 0,
        ;
    }
}

/// Reduces an exactly tracked coordinate to the `i32` it is stored as.
fn wrap_to_i32(v: i128) -> (r: i32)
    requires
        -0x4_0000_0000_0000_0000_0000_0000 <= v <= 0x4_0000_0000_0000_0000_0000_0000,
    ensures
        r == wrap32(v as int),
{
    let shifted: u128 = (v + 0x8_0000_0000_0000_0000_0000_0000) as u128;
    let m: u128 = shifted % 0x1_0000_0000;
    proof {
        lemma_mod_multiples_vanish(
            0x8_0000_0000_0000_0000,
            v as int,
            0x1_0000_0000,
        );
        lemma_mod_division_less_than_divisor(shifted as int, 0x1_0000_0000);
        assert(m == (v as int) % 0x1_0000_0000);
    }
    if m >= 0x8000_0000 {
        ((m as i128) - 0x1_0000_0000) as i32
    } else {
        m as i32
    }
}

/// The layout constants of the `common` line: `lineHeight` then `base`, in
/// that order.
pub open spec fn spec_common(common: Seq<char>) -> Result<(u32, u32), ConfigParseErrorV> {
    let toks = crate::text::split_ws(common);
    match spec_extract_u32(tok_at(toks, 1), "common"@, "lineHeight"@) {
        Err(e) => Err(e),
        Ok(line_height) => match spec_extract_u32(tok_at(toks, 2), "common"@, "base"@) {
            Err(e) => Err(e),
            Ok(base_height) => Ok((line_height, base_height)),
        },
    }
}

/// The page list built from the `page` lines, in declaration order; the
/// first bad line wins.
pub open spec fn build_page_list(lines: Seq<Seq<char>>) -> Result<Seq<PageV>, ConfigParseErrorV>
    decreases lines.len(),
{
    if lines.len() == 0 {
        Ok(Seq::empty())
    } else {
        match build_page_list(lines.drop_last()) {
            Err(e) => Err(e),
            Ok(ps) => match spec_page_record(lines.last()) {
                Err(e) => Err(e),
                Ok(p) => Ok(ps.push(p)),
            },
        }
    }
}

/// The glyph table built from the `char` lines: each record dropped into
/// its sorted place, the first-declared record winning on duplicate ids.
pub open spec fn build_glyph_table(lines: Seq<Seq<char>>) -> Result<Seq<Char>, ConfigParseErrorV>
    decreases lines.len(),
{
    if lines.len() == 0 {
        Ok(Seq::empty())
    } else {
        match build_glyph_table(lines.drop_last()) {
            Err(e) => Err(e),
            Ok(tbl) => match spec_char_record(lines.last()) {
                Err(e) => Err(e),
                Ok(c) => Ok(insert_glyph(tbl, c)),
            },
        }
    }
}

/// The kerning table built from the `kerning` lines: each record dropped
/// in after every entry with a key at most its own, so records sharing a
/// key keep declaration order.
pub open spec fn build_kerning_table(lines: Seq<Seq<char>>) -> Result<
    Seq<KerningValue>,
    ConfigParseErrorV,
>
    decreases lines.len(),
{
    if lines.len() == 0 {
        Ok(Seq::empty())
    } else {
        match build_kerning_table(lines.drop_last()) {
            Err(e) => Err(e),
            Ok(tbl) => match spec_kerning_record(lines.last()) {
                Err(e) => Err(e),
                Ok(k) => Ok(insert_kerning(tbl, k)),
            },
        }
    }
}

proof fn lemma_build_page_list_err_prefix(lines: Seq<Seq<char>>, i: int)
    requires
        0 <= i <= lines.len(),
        build_page_list(lines.take(i)) is Err,
    ensures
        build_page_list(lines) == build_page_list(lines.take(i)),
    decreases lines.len() - i,
{
    if i < lines.len() {
        assert(lines.take(i + 1).drop_last() =~= lines.take(i));
        lemma_build_page_list_err_prefix(lines, i + 1);
    } else {
        assert(lines.take(i) =~= lines);
    }
}

proof fn lemma_build_glyph_table_err_prefix(lines: Seq<Seq<char>>, i: int)
    requires
        0 <= i <= lines.len(),
        build_glyph_table(lines.take(i)) is Err,
    ensures
        build_glyph_table(lines) == build_glyph_table(lines.take(i)),
    decreases lines.len() - i,
{
    if i < lines.len() {
        assert(lines.take(i + 1).drop_last() =~= lines.take(i));
        lemma_build_glyph_table_err_prefix(lines, i + 1);
    } else {
        assert(lines.take(i) =~= lines);
    }
}

proof fn lemma_build_kerning_table_err_prefix(lines: Seq<Seq<char>>, i: int)
    requires
        0 <= i <= lines.len(),
        build_kerning_table(lines.take(i)) is Err,
    ensures
        build_kerning_table(lines) == build_kerning_table(lines.take(i)),
    decreases lines.len() - i,
{
    if i < lines.len() {
        assert(lines.take(i + 1).drop_last() =~= lines.take(i));
        lemma_build_kerning_table_err_prefix(lines, i + 1);
    } else {
        assert(lines.take(i) =~= lines);
    }
}

/// The font denoted by a definition text and an orientation: the whole
/// decode pipeline, all-or-nothing.
pub open spec fn spec_font(text: Seq<char>, orientation: OrdinateOrientation) -> Result<
    BMFontV,
    ConfigParseErrorV,
> {
    match spec_sections(text) {
        Err(e) => Err(e),
        Ok(sections) => match spec_common(sections.common_section) {
            Err(e) => Err(e),
            Ok(heights) => match build_page_list(sections.page_sections) {
                Err(e) => Err(e),
                Ok(pages) => match build_glyph_table(sections.char_sections) {
                    Err(e) => Err(e),
                    Ok(characters) => match build_kerning_table(sections.kerning_sections) {
                        Err(e) => Err(e),
                        Ok(kerning_values) => Ok(
                            BMFontV {
                                base_height: heights.1,
                                line_height: heights.0,
                                characters,
                                kerning_values,
                                pages,
                                ordinate_orientation: orientation,
                            },
                        ),
                    },
                },
            },
        },
    }
}

/// Whether a character fits in one UTF-16 code unit — the only characters
/// this font format can name.
pub open spec fn single_unit(c: char) -> bool {
    (c as u32) < 0x10000
}

/// A glyph's rectangle on its texture page, copied straight from its
/// metrics.
pub open spec fn glyph_page_rect(g: Char) -> Rect {
    Rect { x: wrap32(g.x as int), y: wrap32(g.y as int), width: g.width, height: g.height }
}

/// A glyph's vertical position on a line whose accumulator stands at `y`:
/// measured from the baseline up, or from the top down.
pub open spec fn glyph_screen_y(f: BMFontV, g: Char, y: int) -> int {
    match f.ordinate_orientation {
        OrdinateOrientation::BottomToTop => y + f.base_height - g.yoffset - g.height,
        OrdinateOrientation::TopToBottom => y + g.yoffset,
    }
}

/// The output record for one resolved glyph: cursor at `x`, kerning
/// adjustment `k`, line accumulator at `y`.
pub open spec fn glyph_position(f: BMFontV, g: Char, x: int, k: int, y: int) -> CharPosition {
    CharPosition {
        page_rect: glyph_page_rect(g),
        screen_rect: Rect {
            x: wrap32(x + g.xoffset + k),
            y: wrap32(glyph_screen_y(f, g, y)),
            width: g.width,
            height: g.height,
        },
        page_index: g.page_index,
    }
}

/// The positions produced by the rest of one line: cursor at `x`, the
/// previous resolved glyph (whose kerning entries are pending) in `prev`.
/// Characters that resolve to no glyph are skipped and advance nothing.
pub open spec fn layout_line_from(
    f: BMFontV,
    cs: Seq<char>,
    y: int,
    x: int,
    prev: Option<u32>,
) -> Seq<CharPosition>
    decreases cs.len(),
{
    if cs.len() == 0 {
        Seq::empty()
    } else {
        let c = cs[0];
        let rest = cs.drop_first();
        if !single_unit(c) {
            layout_line_from(f, rest, y, x, prev)
        } else {
            match find_glyph(f.characters, c as u32) {
                None => layout_line_from(f, rest, y, x, prev),
                Some(g) => {
                    let k = match prev {
                        Some(p) => kerning_between(f.kerning_values, p, g.id),
                        None => 0,
                    };
                    seq![glyph_position(f, g, x, k, y)] + layout_line_from(
                        f,
                        rest,
                        y,
                        x + g.xadvance + k,
                        Some(g.id),
                    )
                },
            }
        }
    }
}

/// How far the line accumulator moves after each line.
pub open spec fn line_step(f: BMFontV) -> int {
    match f.ordinate_orientation {
        OrdinateOrientation::TopToBottom => f.line_height as int,
        OrdinateOrientation::BottomToTop => -(f.line_height as int),
    }
}

/// The positions produced by the given lines, first line's accumulator at
/// `y`.
pub open spec fn layout_from(f: BMFontV, ls: Seq<Seq<char>>, y: int) -> Seq<CharPosition>
    decreases ls.len(),
{
    if ls.len() == 0 {
        Seq::empty()
    } else {
        layout_line_from(f, ls[0], y, 0, None) + layout_from(f, ls.drop_first(), y + line_step(f))
    }
}

/// Every position the layout of `text` produces, in order.
pub open spec fn spec_layout(f: BMFontV, text: Seq<char>) -> Seq<CharPosition> {
    layout_from(f, layout_lines(text), 0)
}

/// The characters of `text` that cannot be a single UTF-16 code unit, in
/// first-encounter order, duplicates kept. Newlines are never counted.
pub open spec fn unsupported_in(text: Seq<char>) -> Seq<char>
    decreases text.len(),
{
    if text.len() == 0 {
        Seq::empty()
    } else {
        let rest = unsupported_in(text.drop_first());
        if text[0] != '\n' && !single_unit(text[0]) {
            seq![text[0]] + rest
        } else {
            rest
        }
    }
}

/// The representable characters of `text` that have no glyph in the table,
/// in first-encounter order, duplicates kept. Newlines are never counted.
pub open spec fn missing_in(cs: Seq<Char>, text: Seq<char>) -> Seq<char>
    decreases text.len(),
{
    if text.len() == 0 {
        Seq::empty()
    } else {
        let rest = missing_in(cs, text.drop_first());
        if text[0] != '\n' && single_unit(text[0]) && find_glyph(cs, text[0] as u32) is None {
            seq![text[0]] + rest
        } else {
            rest
        }
    }
}

/// What parsing `text` against the font yields. Under strict validation a
/// text with missing or unsupported characters is refused with the full
/// report and produces nothing; otherwise the layout runs, silently
/// skipping what does not resolve.
pub open spec fn spec_parse(f: BMFontV, text: Seq<char>, strict: bool) -> Result<
    Seq<CharPosition>,
    StringParseErrorV,
> {
    if strict && (missing_in(f.characters, text).len() > 0 || unsupported_in(text).len() > 0) {
        Err(
            StringParseErrorV {
                missing_characters: missing_in(f.characters, text),
                unsupported_characters: unsupported_in(text),
            },
        )
    } else {
        Ok(spec_layout(f, text))
    }
}

/// The font's page file names, in declaration order.
pub open spec fn page_files(f: BMFontV) -> Seq<Seq<char>> {
    f.pages.map_values(|p: PageV| p.file)
}

/// Decodes the `page` run in declaration order.
fn decode_pages(lines: &Vec<String>) -> (r: Result<Vec<Page>, ConfigParseError>)
    ensures
        match r {
            Ok(v) => build_page_list(lines.deep_view()) == Ok::<Seq<PageV>, ConfigParseErrorV>(
                v.deep_view(),
            ),
            Err(e) => build_page_list(lines.deep_view()) == Err::<Seq<PageV>, ConfigParseErrorV>(
                e@,
            ),
        },
{
    let ghost plv = lines.deep_view();
    let mut pages: Vec<Page> = Vec::new();
    let mut idx: usize = 0;
    proof {
        assert(plv.take(0) =~= Seq::<Seq<char>>::empty());
        assert(pages.deep_view() =~~= Seq::<PageV>::empty());
    }
    while idx < lines.len()
        invariant
            0 <= idx <= lines.len(),
            plv == lines.deep_view(),
            build_page_list(plv.take(idx as int)) == Ok::<Seq<PageV>, ConfigParseErrorV>(
                pages.deep_view(),
            ),
        decreases lines.len() - idx,
    {
        proof {
            assert(plv[idx as int] == lines@[idx as int].deep_view());
            assert(plv.take(idx + 1).drop_last() =~= plv.take(idx as int));
            assert(plv.take(idx + 1).last() == plv[idx as int]);
        }
        match crate::page::parse_page_record(lines[idx].as_str()) {
            Ok(p) => {
                let ghost dv0 = pages.deep_view();
                pages.push(p);
                proof {
                    assert(pages.deep_view() =~~= dv0.push(p@));
                }
            },
            Err(e) => {
                proof {
                    assert(build_page_list(plv.take(idx + 1)) == Err::<
                        Seq<PageV>,
                        ConfigParseErrorV,
                    >(e@));
                    lemma_build_page_list_err_prefix(plv, idx + 1);
                }
                return Err(e);
            },
        }
        idx += 1;
    }
    proof {
        assert(plv.take(lines.len() as int) =~= plv);
    }
    Ok(pages)
}

/// Decodes the `char` run, keeping the table sorted by id as it grows; a
/// record whose id is already present is dropped.
fn decode_glyphs(lines: &Vec<String>) -> (r: Result<Vec<Char>, ConfigParseError>)
    ensures
        match r {
            Ok(v) => build_glyph_table(lines.deep_view()) == Ok::<Seq<Char>, ConfigParseErrorV>(
                v@,
            ) && chars_sorted(v@),
            Err(e) => build_glyph_table(lines.deep_view()) == Err::<Seq<Char>, ConfigParseErrorV>(
                e@,
            ),
        },
{
    let ghost clv = lines.deep_view();
    let mut characters: Vec<Char> = Vec::new();
    let mut idx: usize = 0;
    proof {
        assert(clv.take(0) =~= Seq::<Seq<char>>::empty());
    }
    while idx < lines.len()
        invariant
            0 <= idx <= lines.len(),
            clv == lines.deep_view(),
            build_glyph_table(clv.take(idx as int)) == Ok::<Seq<Char>, ConfigParseErrorV>(
                characters@,
            ),
            chars_sorted(characters@),
        decreases lines.len() - idx,
    {
        proof {
            assert(clv[idx as int] == lines@[idx as int].deep_view());
            assert(clv.take(idx + 1).drop_last() =~= clv.take(idx as int));
            assert(clv.take(idx + 1).last() == clv[idx as int]);
        }
        match crate::char::parse_char_record(lines[idx].as_str()) {
            Ok(c) => {
                match glyph_search(&characters, c.id) {
                    Ok(k) => {
                        proof {
                            lemma_insert_glyph_present(characters@, c, k as int);
                        }
                    },
                    Err(k) => {
                        proof {
                            lemma_insert_glyph_fresh(characters@, c, k as int);
                            lemma_insert_glyph_sorted(characters@, c);
                        }
                        characters.insert(k, c);
                    },
                }
            },
            Err(e) => {
                proof {
                    assert(build_glyph_table(clv.take(idx + 1)) == Err::<
                        Seq<Char>,
                        ConfigParseErrorV,
                    >(e@));
                    lemma_build_glyph_table_err_prefix(clv, idx + 1);
                }
                return Err(e);
            },
        }
        idx += 1;
    }
    proof {
        assert(clv.take(lines.len() as int) =~= clv);
    }
    Ok(characters)
}

/// Decodes the `kerning` run, keeping the table sorted by first glyph id;
/// records sharing a key keep their declaration order.
fn decode_kernings(lines: &Vec<String>) -> (r: Result<Vec<KerningValue>, ConfigParseError>)
    ensures
        match r {
            Ok(v) => build_kerning_table(lines.deep_view()) == Ok::<
                Seq<KerningValue>,
                ConfigParseErrorV,
            >(v@) && kerns_sorted(v@),
            Err(e) => build_kerning_table(lines.deep_view()) == Err::<
                Seq<KerningValue>,
                ConfigParseErrorV,
            >(e@),
        },
{
    let ghost klv = lines.deep_view();
    let mut kerning_values: Vec<KerningValue> = Vec::new();
    let mut idx: usize = 0;
    proof {
        assert(klv.take(0) =~= Seq::<Seq<char>>::empty());
    }
    while idx < lines.len()
        invariant
            0 <= idx <= lines.len(),
            klv == lines.deep_view(),
            build_kerning_table(klv.take(idx as int)) == Ok::<
                Seq<KerningValue>,
                ConfigParseErrorV,
            >(kerning_values@),
            kerns_sorted(kerning_values@),
        decreases lines.len() - idx,
    {
        proof {
            assert(klv[idx as int] == lines@[idx as int].deep_view());
            assert(klv.take(idx + 1).drop_last() =~= klv.take(idx as int));
            assert(klv.take(idx + 1).last() == klv[idx as int]);
        }
        match crate::kerning_value::parse_kerning_record(lines[idx].as_str()) {
            Ok(k) => {
                let pos = kerning_upper_search(&kerning_values, k.first_char_id);
                proof {
                    lemma_insert_kerning_at(kerning_values@, k, pos as int);
                    lemma_insert_kerning_sorted(kerning_values@, k);
                }
                kerning_values.insert(pos, k);
            },
            Err(e) => {
                proof {
                    assert(build_kerning_table(klv.take(idx + 1)) == Err::<
                        Seq<KerningValue>,
                        ConfigParseErrorV,
                    >(e@));
                    lemma_build_kerning_table_err_prefix(klv, idx + 1);
                }
                return Err(e);
            },
        }
        idx += 1;
    }
    proof {
        assert(klv.take(lines.len() as int) =~= klv);
    }
    Ok(kerning_values)
}

impl BMFont {
    #[verifier::type_invariant]
    spec fn wf(self) -> bool {
        font_wf(self@)
    }

    /// Decodes a whole font definition. The result is exactly the font
    /// [`spec_font`] denotes, or the first structural error the pipeline
    /// meets.
    #[verifier::loop_isolation(false)]
    pub fn new(source: &str, ordinate_orientation: OrdinateOrientation) -> (r: Result<
        BMFont,
        Error,
    >)
        ensures
            match r {
                Ok(font) => spec_font(source@, ordinate_orientation) == Ok::<
                    BMFontV,
                    ConfigParseErrorV,
                >(font@) && font_wf(font@),
                Err(e) => match e@ {
                    ErrorV::ConfigParseError(c) => spec_font(source@, ordinate_orientation)
                        == Err::<BMFontV, ConfigParseErrorV>(c),
                    ErrorV::IOError(_) => false,
                },
            },
    {
        let sections = match Sections::new(source) {
            Ok(s) => s,
            Err(e) => {
                return Err(e);
            },
        };
        let ghost sv: SectionsV = sections@;

        let common_toks = crate::text::tokens(sections.common_section.as_str());
        let line_height = match extract_component_u32(
            token_at(&common_toks, 1),
            "common",
            "lineHeight",
        ) {
            Ok(v) => v,
            Err(e) => {
                return Err(Error::ConfigParseError(e));
            },
        };
        let base_height = match extract_component_u32(token_at(&common_toks, 2), "common", "base") {
            Ok(v) => v,
            Err(e) => {
                return Err(Error::ConfigParseError(e));
            },
        };

        let pages = match decode_pages(&sections.page_sections) {
            Ok(v) => v,
            Err(e) => {
                proof {
                    assert(spec_font(source@, ordinate_orientation) == Err::<
                        BMFontV,
                        ConfigParseErrorV,
                    >(e@));
                }
                return Err(Error::ConfigParseError(e));
            },
        };
        let characters = match decode_glyphs(&sections.char_sections) {
            Ok(v) => v,
            Err(e) => {
                proof {
                    assert(spec_font(source@, ordinate_orientation) == Err::<
                        BMFontV,
                        ConfigParseErrorV,
                    >(e@));
                }
                return Err(Error::ConfigParseError(e));
            },
        };
        let kerning_values = match decode_kernings(&sections.kerning_sections) {
            Ok(v) => v,
            Err(e) => {
                proof {
                    assert(spec_font(source@, ordinate_orientation) == Err::<
                        BMFontV,
                        ConfigParseErrorV,
                    >(e@));
                }
                return Err(Error::ConfigParseError(e));
            },
        };

        let font = BMFont {
            base_height,
            line_height,
            characters,
            kerning_values,
            pages,
            ordinate_orientation,
        };
        proof {
            assert(spec_font(source@, ordinate_orientation) == Ok::<BMFontV, ConfigParseErrorV>(
                font@,
            ));
        }
        Ok(font)
    }

    /// The height of the text baseline above the line's origin, in pixels.
    pub fn base_height(&self) -> (r: u32)
        ensures
            r == self@.base_height,
    {
        self.base_height
    }

    /// The vertical distance between consecutive lines, in pixels.
    pub fn line_height(&self) -> (r: u32)
        ensures
            r == self@.line_height,
    {
        self.line_height
    }

    /// Restartable walk over the page file names, in declaration order.
    pub fn pages(&self) -> (r: PageIter)
        ensures
            r@ == page_files(self@),
    {
        let n = self.pages.len();
        let mut files: Vec<String> = Vec::new();
        let mut i: usize = 0;
        proof {
            assert(files.deep_view() =~~= page_files(self@).take(0));
        }
        while i < n
            invariant
                0 <= i <= n,
                n == self.pages.len(),
                files.deep_view() == page_files(self@).take(i as int),
            decreases n - i,
        {
            let ghost dv0 = files.deep_view();
            files.push(self.pages[i].file.clone());
            proof {
                assert(self.pages.deep_view()[i as int] == self.pages@[i as int].deep_view());
                assert(page_files(self@)[i as int] == self@.pages[i as int].file);
                assert(files.deep_view() =~~= dv0.push(page_files(self@)[i as int]));
                assert(files.deep_view() =~~= page_files(self@).take(i + 1));
            }
            i += 1;
        }
        proof {
            assert(page_files(self@).take(n as int) =~= page_files(self@));
        }
        PageIter::new(files)
    }

    /// All kerning records whose first glyph id matches, located by binary
    /// search for the key's left boundary, then collected while the key
    /// still matches. Records sharing the key come out in declaration
    /// order.
    pub fn find_kerning_values(&self, first_char_id: u32) -> (r: Vec<KerningValue>)
        ensures
            r@ == kerning_run(self@.kerning_values, first_char_id),
    {
        proof {
            use_type_invariant(self);
        }
        let n = self.kerning_values.len();
        let lo = kerning_lower_search(&self.kerning_values, first_char_id);
        let mut out: Vec<KerningValue> = Vec::new();
        let mut j: usize = lo;
        proof {
            assert(out@ =~= self.kerning_values@.subrange(lo as int, lo as int));
        }
        while j < n && self.kerning_values[j].first_char_id == first_char_id
            invariant
                lo <= j <= n,
                n == self.kerning_values.len(),
                forall|m: int|
                    lo <= m < j ==> (#[trigger] self.kerning_values@[m].first_char_id)
                        == first_char_id,
                out@ == self.kerning_values@.subrange(lo as int, j as int),
            decreases n - j,
        {
            out.push(self.kerning_values[j]);
            proof {
                assert(out@ =~= self.kerning_values@.subrange(lo as int, j + 1));
            }
            j += 1;
        }
        proof {
            let ks = self.kerning_values@;
            assert forall|m: int| j <= m < ks.len() implies (#[trigger] ks[m].first_char_id)
                > first_char_id by {
                assert(ks[j as int].first_char_id >= first_char_id);
                assert(ks[j as int].first_char_id <= ks[m].first_char_id);
            }
            lemma_kerning_run_subrange(ks, first_char_id, lo as int, j as int);
        }
        out
    }

    /// Lays out every line of `s`, walking the resolved glyphs with a
    /// running cursor and one-glyph-back kerning, exactly as
    /// [`spec_layout`] describes.
    #[verifier::loop_isolation(false)]
    fn layout_positions(&self, s: &str) -> (out: Vec<CharPosition>)
        ensures
            out@ == spec_layout(self@, s@),
    {
        proof {
            use_type_invariant(self);
        }
        let ghost f = self@;
        let lines = crate::text::layout_lines_of(s);
        let ghost lv = layout_lines(s@);
        let nl = lines.len();
        let mut out: Vec<CharPosition> = Vec::new();
        let mut y: i128 = 0;
        let mut li: usize = 0;
        proof {
            assert(lv.skip(0) =~= lv);
            assert(out@ + layout_from(f, lv, 0) =~= layout_from(f, lv, 0));
        }
        while li < nl
            invariant
                0 <= li <= nl,
                -0x1_0000_0000 * (li as int) <= y <= 0x1_0000_0000 * (li as int),
                spec_layout(f, s@) == out@ + layout_from(f, lv.skip(li as int), y as int),
            decreases nl - li,
        {
            let line = &lines[li];
            let ghost cv = lv[li as int];
            let ghost y0 = y as int;
            proof {
                assert(cv == lines@[li as int].deep_view());
                assert(lv.skip(li as int)[0] == cv);
                assert(lv.skip(li as int).drop_first() =~= lv.skip(li + 1));
            }
            let ghost rest_lines = layout_from(f, lv.skip(li + 1), y0 + line_step(f));
            proof {
                assert(layout_from(f, lv.skip(li as int), y0) == layout_line_from(f, cv, y0, 0, None)
                    + rest_lines);
            }

            let nc = line.len();
            let mut x: i128 = 0;
            let mut run: Vec<KerningValue> = Vec::new();
            let mut prev: Ghost<Option<u32>> = Ghost(None);
            let mut ci: usize = 0;
            proof {
                assert(cv.skip(0) =~= cv);
                assert(out@ + (layout_line_from(f, cv, y0, 0, None) + rest_lines) =~= out@
                    + layout_line_from(f, cv, y0, 0, None) + rest_lines);
            }
            while ci < nc
                invariant
                    0 <= ci <= nc,
                    nc == line.len(),
                    line@ == cv,
                    -0x1_0000_0000 * (ci as int) <= x <= 0x1_0000_0000 * (ci as int),
                    match prev@ {
                        None => run@ == Seq::<KerningValue>::empty(),
                        Some(p) => run@ == kerning_run(f.kerning_values, p),
                    },
                    spec_layout(f, s@) == out@ + layout_line_from(f, cv.skip(ci as int), y0, x as int, prev@)
                        + rest_lines,
                decreases nc - ci,
            {
                let c = line[ci];
                proof {
                    assert(cv.skip(ci as int)[0] == cv[ci as int]);
                    assert(cv.skip(ci as int).drop_first() =~= cv.skip(ci + 1));
                }
                if (c as u32) < 0x10000 {
                    match crate::tables::find_glyph_exec(&self.characters, c as u32) {
                        Some(g) => {
                            let k = crate::tables::first_amount(&run, g.id);
                            proof {
                                if let Some(p) = prev@ {
                                    lemma_run_lookup_agrees(f.kerning_values, p, g.id);
                                }
                                assert(k as int == match prev@ {
                                    Some(p) => kerning_between(f.kerning_values, p, g.id),
                                    None => 0,
                                });
                            }
                            let page_rect = Rect {
                                x: wrap_to_i32(g.x as i128),
                                y: wrap_to_i32(g.y as i128),
                                width: g.width,
                                height: g.height,
                            };
                            let sx = wrap_to_i32(x + (g.xoffset as i128) + (k as i128));
                            let sy_exact: i128 = match self.ordinate_orientation {
                                OrdinateOrientation::BottomToTop => y + (self.base_height as i128)
                                    - (g.yoffset as i128) - (g.height as i128),
                                OrdinateOrientation::TopToBottom => y + (g.yoffset as i128),
                            };
                            let sy = wrap_to_i32(sy_exact);
                            let cp = CharPosition {
                                page_rect,
                                screen_rect: Rect { x: sx, y: sy, width: g.width, height: g.height },
                                page_index: g.page_index,
                            };
                            let ghost out0 = out@;
                            proof {
                                assert(sy_exact as int == glyph_screen_y(f, g, y0));
                                assert(cp == glyph_position(f, g, x as int, k as int, y0));
                            }
                            out.push(cp);
                            x = x + (g.xadvance as i128) + (k as i128);
                            run = self.find_kerning_values(g.id);
                            prev = Ghost(Some(g.id));
                            proof {
                                assert(out@ == out0.push(cp));
                                assert(out0 + (seq![cp] + layout_line_from(
                                    f,
                                    cv.skip(ci + 1),
                                    y0,
                                    x as int,
                                    prev@,
                                )) =~= out@ + layout_line_from(f, cv.skip(ci + 1), y0, x as int, prev@));
                            }
                        },
                        None => {
                        },
                    }
                }
                ci += 1;
            }
            proof {
                assert(cv.skip(nc as int) =~= Seq::<char>::empty());
            }

            match self.ordinate_orientation {
                OrdinateOrientation::TopToBottom => {
                    y = y + (self.line_height as i128);
                },
                OrdinateOrientation::BottomToTop => {
                    y = y - (self.line_height as i128);
                },
            }
            proof {
                assert(y as int == y0 + line_step(f));
            }
            li += 1;
        }
        proof {
            assert(lv.skip(nl as int) =~= Seq::<Seq<char>>::empty());
        }
        out
    }

    /// Lays the string `s` out against the font. Under strict validation
    /// (`strict` true) a string with missing or unsupported characters is
    /// refused up front with the full report; otherwise unresolvable
    /// characters are silently skipped.
    #[verifier::loop_isolation(false)]
    pub fn parse(&self, s: &str, strict: bool) -> (r: Result<ParseIter, StringParseError>)
        ensures
            match r {
                Ok(it) => spec_parse(self@, s@, strict) == Ok::<
                    Seq<CharPosition>,
                    StringParseErrorV,
                >(it@),
                Err(e) => spec_parse(self@, s@, strict) == Err::<
                    Seq<CharPosition>,
                    StringParseErrorV,
                >(e@),
            },
    {
        proof {
            use_type_invariant(self);
        }
        let ghost f = self@;
        if strict {
            let text_chars = crate::text::chars_of(s);
            let n = text_chars.len();
            let mut missing: Vec<char> = Vec::new();
            let mut unsupported: Vec<char> = Vec::new();
            let mut i: usize = 0;
            proof {
                assert(s@.skip(0) =~= s@);
                assert(missing@ + missing_in(f.characters, s@) =~= missing_in(f.characters, s@));
                assert(unsupported@ + unsupported_in(s@) =~= unsupported_in(s@));
            }
            while i < n
                invariant
                    0 <= i <= n,
                    missing_in(f.characters, s@) == missing@ + missing_in(
                        f.characters,
                        s@.skip(i as int),
                    ),
                    unsupported_in(s@) == unsupported@ + unsupported_in(s@.skip(i as int)),
                decreases n - i,
            {
                let c = text_chars[i];
                proof {
                    assert(s@.skip(i as int)[0] == s@[i as int]);
                    assert(s@.skip(i as int).drop_first() =~= s@.skip(i + 1));
                }
                if c != '\n' {
                    if (c as u32) >= 0x10000 {
                        let ghost u0 = unsupported@;
                        unsupported.push(c);
                        proof {
                            assert((u0 + seq![c]) + unsupported_in(s@.skip(i + 1)) =~= u0 + (
                            seq![c] + unsupported_in(s@.skip(i + 1))));
                        }
                    } else {
                        match crate::tables::find_glyph_exec(&self.characters, c as u32) {
                            Some(_) => {
                            },
                            None => {
                                let ghost m0 = missing@;
                                missing.push(c);
                                proof {
                                    assert((m0 + seq![c]) + missing_in(f.characters, s@.skip(i + 1))
                                        =~= m0 + (seq![c] + missing_in(
                                        f.characters,
                                        s@.skip(i + 1),
                                    )));
                                }
                            },
                        }
                    }
                }
                i += 1;
            }
            proof {
                assert(s@.skip(n as int) =~= Seq::<char>::empty());
                assert(missing@ == missing_in(f.characters, s@));
                assert(unsupported@ == unsupported_in(s@));
            }
            if missing.len() > 0 || unsupported.len() > 0 {
                return Err(
                    StringParseError {
                        missing_characters: missing,
                        unsupported_characters: unsupported,
                    },
                );
            }
        }
        let positions = self.layout_positions(s);
        Ok(ParseIter::new(positions))
    }
}

/// A restartable-by-re-invocation walk over a font's page file names.
#[derive(Debug)]
pub struct PageIter {
    files: Vec<String>,
    index: usize,
}

impl PageIter {
    #[verifier::type_invariant]
    spec fn wf(self) -> bool {
        self.index <= self.files.len()
    }

    fn new(files: Vec<String>) -> (r: PageIter)
        ensures
            r@ == files.deep_view(),
    {
        let r = PageIter { files, index: 0 };
        proof {
            assert(r@ =~~= r.files.deep_view());
        }
        r
    }

    /// The next page file name, or nothing once every page has been
    /// yielded.
    pub fn next(&mut self) -> (r: Option<String>)
        ensures
            match r {
                Some(file) => old(self)@.len() > 0 && file@ == old(self)@[0] && final(self)@ == old(
                    self,
                )@.drop_first(),
                None => old(self)@.len() == 0 && final(self)@ == old(self)@,
            },
    {
        proof {
            use_type_invariant(&*self);
        }
        if self.index < self.files.len() {
            let file = self.files[self.index].clone();
            self.index = self.index + 1;
            proof {
                assert(self.files.deep_view()[old(self).index as int] == self.files@[old(
                    self,
                ).index as int].deep_view());
                assert(self@ =~~= old(self)@.drop_first());
            }
            Some(file)
        } else {
            None
        }
    }
}

impl View for PageIter {
    type V = Seq<Seq<char>>;

    closed spec fn view(&self) -> Seq<Seq<char>> {
        self.files.deep_view().skip(self.index as int)
    }
}

/// A lazily consumed walk over the positions a parse produced: one
/// [`CharPosition`] per resolved character, in order.
pub struct ParseIter {
    positions: Vec<CharPosition>,
    index: usize,
}

impl ParseIter {
    #[verifier::type_invariant]
    spec fn wf(self) -> bool {
        self.index <= self.positions.len()
    }

    fn new(positions: Vec<CharPosition>) -> (r: ParseIter)
        ensures
            r@ == positions@,
    {
        let r = ParseIter { positions, index: 0 };
        proof {
            assert(r@ =~= r.positions@);
        }
        r
    }

    /// The next position, or nothing once every position has been yielded.
    pub fn next(&mut self) -> (r: Option<CharPosition>)
        ensures
            match r {
                Some(cp) => old(self)@.len() > 0 && cp == old(self)@[0] && final(self)@ == old(
                    self,
                )@.drop_first(),
                None => old(self)@.len() == 0 && final(self)@ == old(self)@,
            },
    {
        proof {
            use_type_invariant(&*self);
        }
        if self.index < self.positions.len() {
            let cp = self.positions[self.index];
            self.index = self.index + 1;
            proof {
                assert(self@ =~= old(self)@.drop_first());
            }
            Some(cp)
        } else {
            None
        }
    }
}

impl View for ParseIter {
    type V = Seq<CharPosition>;

    closed spec fn view(&self) -> Seq<CharPosition> {
        self.positions@.skip(self.index as int)
    }
}

} // verus!
