use bmfont::{
    extract_component_value, BMFont, CharPosition, ConfigParseError, Error, OrdinateOrientation,
    Rect,
};

const FONT_DEF: &'static str = "info face=\"vecna\" size=96 bold=0 italic=0\n\
common lineHeight=80 base=57 scaleW=512 scaleH=512 pages=1\n\
page id=0 file=\"font.png\"\n\
chars count=7\n\
char id=82 x=147 y=269 width=48 height=54 xoffset=6 yoffset=5 xadvance=52 page=0\n\
char id=89 x=222 y=114 width=50 height=54 xoffset=0 yoffset=5 xadvance=48 page=0\n\
char id=95 x=221 y=430 width=44 height=7 xoffset=-1 yoffset=66 xadvance=43 page=0\n\
char id=111 x=2 y=372 width=37 height=41 xoffset=2 yoffset=18 xadvance=40 page=0\n\
char id=115 x=2 y=415 width=33 height=41 xoffset=4 yoffset=18 xadvance=37 page=0\n\
char id=116 x=37 y=415 width=21 height=54 xoffset=2 yoffset=6 xadvance=38 page=0\n\
char id=117 x=2 y=458 width=32 height=41 xoffset=5 yoffset=19 xadvance=38 page=0\n\
kernings count=1\n\
kerning first=89 second=111 amount=-7\n";

fn collect(font: &BMFont, s: &str, strict: bool) -> Vec<CharPosition> {
    let mut iter = font.parse(s, strict).unwrap();
    let mut positions = Vec::new();
    while let Some(position) = iter.next() {
        positions.push(position);
    }
    positions
}

fn config_error(result: Result<BMFont, Error>) -> ConfigParseError {
    match result {
        Err(Error::ConfigParseError(e)) => e,
        Err(Error::IOError(_)) => panic!("unexpected I/O error"),
        Ok(_) => panic!("construction unexpectedly succeeded"),
    }
}

#[test]
fn two_line_input_shifts_second_line_by_line_height() {
    let font = BMFont::new(FONT_DEF, OrdinateOrientation::TopToBottom).unwrap();
    let positions = collect(&font, "Rust\nRust", true);
    assert_eq!(positions.len(), 8);
    for i in 0..4 {
        let first = &positions[i];
        let second = &positions[i + 4];
        assert_eq!(first.page_rect, second.page_rect);
        assert_eq!(first.screen_rect.x, second.screen_rect.x);
        assert_eq!(first.screen_rect.y + 80, second.screen_rect.y);
        assert_eq!(first.screen_rect.width, second.screen_rect.width);
        assert_eq!(first.screen_rect.height, second.screen_rect.height);
    }
}

#[test]
fn empty_string_yields_no_positions_and_no_error() {
    let font = BMFont::new(FONT_DEF, OrdinateOrientation::TopToBottom).unwrap();
    assert_eq!(collect(&font, "", true).len(), 0);
    assert_eq!(collect(&font, "", false).len(), 0);
}

#[test]
fn newline_only_input_yields_no_positions_and_no_error() {
    let font = BMFont::new(FONT_DEF, OrdinateOrientation::TopToBottom).unwrap();
    assert_eq!(collect(&font, "\n", true).len(), 0);
}

#[test]
fn missing_char_section_reported() {
    let def = "info face=\"f\" size=96\n\
common lineHeight=80 base=57\n\
page id=0 file=\"font.png\"\n\
chars count=0\n";
    let error = config_error(BMFont::new(def, OrdinateOrientation::TopToBottom));
    assert_eq!(error, ConfigParseError::MissingSection("char".to_string()));
}

#[test]
fn missing_info_section_reported() {
    let error = config_error(BMFont::new("", OrdinateOrientation::TopToBottom));
    assert_eq!(error, ConfigParseError::MissingSection("info".to_string()));
}

#[test]
fn missing_common_section_reported() {
    let error = config_error(BMFont::new(
        "info face=\"f\"\n",
        OrdinateOrientation::TopToBottom,
    ));
    assert_eq!(error, ConfigParseError::MissingSection("common".to_string()));
}

#[test]
fn missing_page_section_reported() {
    let error = config_error(BMFont::new(
        "info face=\"f\"\ncommon lineHeight=80 base=57\n",
        OrdinateOrientation::TopToBottom,
    ));
    assert_eq!(error, ConfigParseError::MissingSection("page".to_string()));
}

#[test]
fn rect_corner_accessors_round_trip() {
    let r = Rect {
        x: 221,
        y: 430,
        width: 44,
        height: 7,
    };
    assert_eq!(r.max_x(), 221 + 44 - 1);
    assert_eq!(r.max_y(), 430 + 7 - 1);
    let n = Rect {
        x: -10,
        y: -3,
        width: 4,
        height: 1,
    };
    assert_eq!(n.max_x(), -7);
    assert_eq!(n.max_y(), -3);
}

#[test]
fn pages_in_declaration_order_with_quotes_stripped() {
    let def = "info face=\"f\" size=96\n\
common lineHeight=80 base=57\n\
page id=0 file=\"alpha.png\"\n\
page id=1 file=\"beta.png\"\n\
chars count=1\n\
char id=95 x=221 y=430 width=44 height=7 xoffset=-1 yoffset=66 xadvance=43 page=0\n";
    let font = BMFont::new(def, OrdinateOrientation::TopToBottom).unwrap();
    let mut pages = font.pages();
    assert_eq!(pages.next(), Some("alpha.png".to_string()));
    assert_eq!(pages.next(), Some("beta.png".to_string()));
    assert_eq!(pages.next(), None);
    // a fresh walk restarts from the first page
    let mut again = font.pages();
    assert_eq!(again.next(), Some("alpha.png".to_string()));
}

#[test]
fn duplicate_glyph_id_keeps_first_declared_metrics() {
    let def = "info face=\"f\" size=96\n\
common lineHeight=80 base=57\n\
page id=0 file=\"font.png\"\n\
chars count=2\n\
char id=95 x=221 y=430 width=44 height=7 xoffset=-1 yoffset=66 xadvance=43 page=0\n\
char id=95 x=1 y=2 width=3 height=4 xoffset=5 yoffset=6 xadvance=7 page=0\n";
    let font = BMFont::new(def, OrdinateOrientation::TopToBottom).unwrap();
    let positions = collect(&font, "_", true);
    assert_eq!(positions.len(), 1);
    assert_eq!(
        positions[0].page_rect,
        Rect {
            x: 221,
            y: 430,
            width: 44,
            height: 7
        }
    );
    assert_eq!(positions[0].screen_rect.y, 66);
}

#[test]
fn duplicate_kerning_pair_resolves_to_first_declared() {
    let def = "info face=\"f\" size=96\n\
common lineHeight=80 base=57\n\
page id=0 file=\"font.png\"\n\
chars count=2\n\
char id=89 x=222 y=114 width=50 height=54 xoffset=0 yoffset=5 xadvance=48 page=0\n\
char id=111 x=2 y=372 width=37 height=41 xoffset=2 yoffset=18 xadvance=40 page=0\n\
kernings count=2\n\
kerning first=89 second=111 amount=-7\n\
kerning first=89 second=111 amount=-100\n";
    let font = BMFont::new(def, OrdinateOrientation::TopToBottom).unwrap();
    let run = font.find_kerning_values(89);
    assert_eq!(run.len(), 2);
    assert_eq!(run[0].value, -7);
    assert_eq!(run[1].value, -100);
    let positions = collect(&font, "Yo", true);
    // the first-declared amount, -7, wins the lookup
    assert_eq!(positions[1].screen_rect.x, 48 + 2 - 7);
}

#[test]
fn kerning_entries_sharing_first_id_keep_declaration_order() {
    let def = "info face=\"f\" size=96\n\
common lineHeight=80 base=57\n\
page id=0 file=\"font.png\"\n\
chars count=3\n\
char id=89 x=222 y=114 width=50 height=54 xoffset=0 yoffset=5 xadvance=48 page=0\n\
char id=111 x=2 y=372 width=37 height=41 xoffset=2 yoffset=18 xadvance=40 page=0\n\
char id=117 x=2 y=458 width=32 height=41 xoffset=5 yoffset=19 xadvance=38 page=0\n\
kernings count=3\n\
kerning first=89 second=117 amount=-3\n\
kerning first=89 second=111 amount=-7\n\
kerning first=117 second=111 amount=-1\n";
    let font = BMFont::new(def, OrdinateOrientation::TopToBottom).unwrap();
    let run = font.find_kerning_values(89);
    assert_eq!(run.len(), 2);
    assert_eq!(run[0].second_char_id, 117);
    assert_eq!(run[0].value, -3);
    assert_eq!(run[1].second_char_id, 111);
    assert_eq!(run[1].value, -7);
    assert_eq!(font.find_kerning_values(111).len(), 0);
}

#[test]
fn parse_twice_yields_identical_sequences() {
    let font = BMFont::new(FONT_DEF, OrdinateOrientation::BottomToTop).unwrap();
    let first = collect(&font, "You\nRust", true);
    let second = collect(&font, "You\nRust", true);
    assert_eq!(first, second);
}

#[test]
fn kerning_looks_only_one_glyph_back() {
    let font = BMFont::new(FONT_DEF, OrdinateOrientation::TopToBottom).unwrap();
    // the Y->o kerning pair must not fire across the interposed underscore
    let positions = collect(&font, "Y_o", true);
    assert_eq!(positions.len(), 3);
    assert_eq!(positions[0].screen_rect.x, 0);
    assert_eq!(positions[1].screen_rect.x, 48 - 1);
    assert_eq!(positions[2].screen_rect.x, 48 + 43 + 2);
}

#[test]
fn strict_and_permissive_agree_on_clean_input() {
    let font = BMFont::new(FONT_DEF, OrdinateOrientation::TopToBottom).unwrap();
    assert_eq!(collect(&font, "Rust", true), collect(&font, "Rust", false));
}

#[test]
fn strict_mode_reports_both_character_classes() {
    let font = BMFont::new(FONT_DEF, OrdinateOrientation::TopToBottom).unwrap();
    match font.parse("R\u{158}\u{1F0CC}\u{158}", true) {
        Err(error) => {
            assert_eq!(error.missing_characters, vec!['\u{158}', '\u{158}']);
            assert_eq!(error.unsupported_characters, vec!['\u{1F0CC}']);
        }
        Ok(_) => panic!("strict parse unexpectedly succeeded"),
    }
}

#[test]
fn permissive_mode_skips_unresolvable_characters() {
    let font = BMFont::new(FONT_DEF, OrdinateOrientation::TopToBottom).unwrap();
    let positions = collect(&font, "R\u{158}u", false);
    assert_eq!(positions.len(), 2);
    // the skipped character neither advances the cursor nor kerns
    assert_eq!(positions[1].screen_rect.x, 52 + 5);
}

#[test]
fn missing_component_reported() {
    let def = "info face=\"f\" size=96\n\
common lineHeight=80 base=57\n\
page id=0 file=\"font.png\"\n\
chars count=1\n\
char id=95 x=221 y=430\n";
    let error = config_error(BMFont::new(def, OrdinateOrientation::TopToBottom));
    assert_eq!(
        error,
        ConfigParseError::MissingComponent {
            section: "char".to_string(),
            component: "width".to_string(),
        }
    );
}

#[test]
fn invalid_component_reported() {
    let def = "info face=\"f\" size=96\n\
common lineHeight=80 base=57\n\
page idx=0 file=\"font.png\"\n\
chars count=0\n\
char id=95 x=221 y=430 width=44 height=7 xoffset=-1 yoffset=66 xadvance=43 page=0\n";
    let error = config_error(BMFont::new(def, OrdinateOrientation::TopToBottom));
    assert_eq!(
        error,
        ConfigParseError::InvalidComponent {
            section: "page".to_string(),
            expected_component: "id".to_string(),
            actual_component: "idx".to_string(),
        }
    );
}

#[test]
fn invalid_component_value_reported() {
    let def = "info face=\"f\" size=96\n\
common lineHeight=80 base=57\n\
page id=abc file=\"font.png\"\n\
chars count=0\n\
char id=95 x=221 y=430 width=44 height=7 xoffset=-1 yoffset=66 xadvance=43 page=0\n";
    let error = config_error(BMFont::new(def, OrdinateOrientation::TopToBottom));
    assert_eq!(
        error,
        ConfigParseError::InvalidComponentValue {
            section: "page".to_string(),
            component: "id".to_string(),
            value: "abc".to_string(),
        }
    );
}

#[test]
fn component_without_equals_sign_reported_as_empty_value() {
    let def = "info face=\"f\" size=96\n\
common lineHeight=80 base=57\n\
page id file=\"font.png\"\n\
chars count=0\n\
char id=95 x=221 y=430 width=44 height=7 xoffset=-1 yoffset=66 xadvance=43 page=0\n";
    let error = config_error(BMFont::new(def, OrdinateOrientation::TopToBottom));
    assert_eq!(
        error,
        ConfigParseError::InvalidComponentValue {
            section: "page".to_string(),
            component: "id".to_string(),
            value: "".to_string(),
        }
    );
}

#[test]
fn out_of_range_numeral_reported() {
    let def = "info face=\"f\" size=96\n\
common lineHeight=80 base=57\n\
page id=4294967296 file=\"font.png\"\n\
chars count=0\n\
char id=95 x=221 y=430 width=44 height=7 xoffset=-1 yoffset=66 xadvance=43 page=0\n";
    let error = config_error(BMFont::new(def, OrdinateOrientation::TopToBottom));
    assert_eq!(
        error,
        ConfigParseError::InvalidComponentValue {
            section: "page".to_string(),
            component: "id".to_string(),
            value: "4294967296".to_string(),
        }
    );
}

#[test]
fn negative_value_for_unsigned_component_reported() {
    let def = "info face=\"f\" size=96\n\
common lineHeight=80 base=57\n\
page id=0 file=\"font.png\"\n\
chars count=1\n\
char id=-5 x=221 y=430 width=44 height=7 xoffset=-1 yoffset=66 xadvance=43 page=0\n";
    let error = config_error(BMFont::new(def, OrdinateOrientation::TopToBottom));
    assert_eq!(
        error,
        ConfigParseError::InvalidComponentValue {
            section: "char".to_string(),
            component: "id".to_string(),
            value: "-5".to_string(),
        }
    );
}

#[test]
fn extract_component_value_returns_raw_value_text() {
    assert_eq!(
        extract_component_value(Some("file=\"font.png\""), "page", "file").unwrap(),
        "\"font.png\"".to_string()
    );
    assert_eq!(
        extract_component_value(Some("id=12=34"), "page", "id").unwrap(),
        "12=34".to_string()
    );
    assert_eq!(
        extract_component_value(None, "common", "base"),
        Err(ConfigParseError::MissingComponent {
            section: "common".to_string(),
            component: "base".to_string(),
        })
    );
}

#[test]
fn base_and_line_height_exposed() {
    let font = BMFont::new(FONT_DEF, OrdinateOrientation::TopToBottom).unwrap();
    assert_eq!(font.base_height(), 57);
    assert_eq!(font.line_height(), 80);
}

#[test]
fn windows_line_endings_accepted() {
    let def = "info face=\"f\" size=96\r\n\
common lineHeight=80 base=57\r\n\
page id=0 file=\"font.png\"\r\n\
chars count=1\r\n\
char id=95 x=221 y=430 width=44 height=7 xoffset=-1 yoffset=66 xadvance=43 page=0\r\n";
    let font = BMFont::new(def, OrdinateOrientation::TopToBottom).unwrap();
    assert_eq!(font.base_height(), 57);
    let positions = collect(&font, "_", true);
    assert_eq!(positions.len(), 1);
}

#[test]
fn kerning_section_optional() {
    let def = "info face=\"f\" size=96\n\
common lineHeight=80 base=57\n\
page id=0 file=\"font.png\"\n\
chars count=1\n\
char id=95 x=221 y=430 width=44 height=7 xoffset=-1 yoffset=66 xadvance=43 page=0";
    let font = BMFont::new(def, OrdinateOrientation::TopToBottom).unwrap();
    let positions = collect(&font, "__", true);
    assert_eq!(positions.len(), 2);
    assert_eq!(positions[1].screen_rect.x, 43 - 1);
}
