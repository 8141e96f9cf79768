//! The `page` record: one texture page of the font, named by its bitmap
//! file. The file name is stored with surrounding quote characters removed.

use vstd::prelude::*;

use crate::config_parse_error::{ConfigParseError, ConfigParseErrorV};
use crate::text::{split_ws, tokens};
use crate::utils::{
    extract_component_u32, extract_component_value, spec_extract, spec_extract_u32, tok_at,
    token_at,
};

verus! {

/// One texture page of the font.
#[derive(Clone, Debug)]
pub struct Page {
    pub id: u32,
    pub file: String,
}

/// The spec-level image of a [`Page`].
pub ghost struct PageV {
    pub id: u32,
    pub file: Seq<char>,
}

impl View for Page {
    type V = PageV;

    open spec fn view(&self) -> PageV {
        PageV { id: self.id, file: self.file@ }
    }
}

/// Length of the run of quote characters at the front of `s`.
pub open spec fn leading_quotes(s: Seq<char>) -> nat
    decreases s.len(),
{
    if s.len() > 0 && s[0] == '"' {
        1 + leading_quotes(s.drop_first())
    } else {
        0
    }
}

/// Length of the run of quote characters at the back of `s`.
pub open spec fn trailing_quotes(s: Seq<char>) -> nat
    decreases s.len(),
{
    if s.len() > 0 && s.last() == '"' {
        1 + trailing_quotes(s.drop_last())
    } else {
        0
    }
}

/// `s` with every leading and trailing quote character removed.
pub open spec fn trim_quotes(s: Seq<char>) -> Seq<char> {
    let a = leading_quotes(s) as int;
    let b = s.len() - trailing_quotes(s);
    if a < b {
        s.subrange(a, b)
    } else {
        Seq::empty()
    }
}

proof fn lemma_leading_quotes_is(s: Seq<char>, k: int)
    requires
        0 <= k <= s.len(),
        forall|m: int| 0 <= m < k ==> s[m] == '"',
        k < s.len() ==> s[k] != '"',
    ensures
        leading_quotes(s) == k,
    decreases k,
{
    if k > 0 {
        lemma_leading_quotes_is(s.drop_first(), k - 1);
    }
}

proof fn lemma_trailing_quotes_is(s: Seq<char>, k: int)
    requires
        0 <= k <= s.len(),
        forall|m: int| s.len() - k <= m < s.len() ==> s[m] == '"',
        k < s.len() ==> s[s.len() - k - 1] != '"',
    ensures
        trailing_quotes(s) == k,
    decreases k,
{
    if k > 0 {
        lemma_trailing_quotes_is(s.drop_last(), k - 1);
    }
}

/// `s` with every leading and trailing quote character removed, as an owned
/// string.
pub(crate) fn trim_quote_marks(s: &str) -> (r: String)
    ensures
        r@ == trim_quotes(s@),
{
    let n = s.unicode_len();
    let mut a: usize = 0;
    while a < n && s.get_char(a) == '"'
        invariant
            0 <= a <= n,
            n == s@.len(),
            forall|m: int| 0 <= m < a ==> s@[m] == '"',
        decreases n - a,
    {
        a += 1;
    }
    if a == n {
        proof {
            lemma_leading_quotes_is(s@, n as int);
            lemma_trailing_quotes_is(s@, n as int);
        }
        return String::new();
    }
    proof {
        lemma_leading_quotes_is(s@, a as int);
    }
    let mut b: usize = n;
    while b > a + 1 && s.get_char(b - 1) == '"'
        invariant
            a < b <= n,
            n == s@.len(),
            s@[a as int] != '"',
            forall|m: int| b <= m < n ==> s@[m] == '"',
        decreases b,
    {
        b -= 1;
    }
    proof {
        if s@[b - 1] == '"' {
            assert(b == a + 1);
            assert(false);
        }
        lemma_trailing_quotes_is(s@, n - b);
    }
    s.substring_char(a, b).to_owned()
}

/// The page record denoted by the line `l`: its `id` and `file` components,
/// in that order, the file name stripped of quotes.
pub open spec fn spec_page_line(l: Seq<char>) -> Result<PageV, ConfigParseErrorV> {
    let toks = split_ws(l);
    match spec_extract_u32(tok_at(toks, 1), "page"@, "id"@) {
        Err(e) => Err(e),
        Ok(id) => match spec_extract(tok_at(toks, 2), "page"@, "file"@) {
            Err(e) => Err(e),
            Ok(file) => Ok(PageV { id, file: trim_quotes(file) }),
        },
    }
}

impl DeepView for Page {
    type V = PageV;

    open spec fn deep_view(&self) -> PageV {
        self.view()
    }
}

/// The outcome of decoding a line of the `page` run: its record, or — when
/// the line starts with the section tag without its first token being
/// exactly the tag — the component mismatch that says so.
pub open spec fn spec_page_record(l: Seq<char>) -> Result<PageV, ConfigParseErrorV> {
    let toks = split_ws(l);
    if toks.len() > 0 && toks[0] == "page"@ {
        spec_page_line(l)
    } else {
        Err(
            ConfigParseErrorV::InvalidComponent {
                section: "page"@,
                expected_component: "page"@,
                actual_component: if toks.len() > 0 {
                    toks[0]
                } else {
                    Seq::empty()
                },
            },
        )
    }
}

/// Decodes one line of the `page` run, first checking the section tag.
pub(crate) fn parse_page_record(s: &str) -> (r: Result<Page, ConfigParseError>)
    ensures
        match r {
            Ok(p) => spec_page_record(s@) == Ok::<PageV, ConfigParseErrorV>(p@),
            Err(e) => spec_page_record(s@) == Err::<PageV, ConfigParseErrorV>(e@),
        },
{
    let toks = crate::text::tokens(s);
    if toks.len() > 0 {
        proof {
            assert(toks.deep_view()[0] == toks@[0].deep_view());
        }
        if crate::text::str_eq(toks[0].as_str(), "page") {
            return Page::new(s);
        }
        return Err(
            ConfigParseError::InvalidComponent {
                section: "page".to_owned(),
                expected_component: "page".to_owned(),
                actual_component: toks[0].clone(),
            },
        );
    }
    Err(
        ConfigParseError::InvalidComponent {
            section: "page".to_owned(),
            expected_component: "page".to_owned(),
            actual_component: String::new(),
        },
    )
}

impl Page {
    /// Decodes one `page` line. The caller must already have established
    /// that the line's first token is the section tag itself.
    pub fn new(s: &str) -> (r: Result<Page, ConfigParseError>)
        requires
            split_ws(s@).len() > 0,
            split_ws(s@)[0] == "page"@,
        ensures
            match r {
                Ok(p) => spec_page_line(s@) == Ok::<PageV, ConfigParseErrorV>(p@),
                Err(e) => spec_page_line(s@) == Err::<PageV, ConfigParseErrorV>(e@),
            },
    {
        let toks = tokens(s);
        let id = match extract_component_u32(token_at(&toks, 1), "page", "id") {
            Ok(v) => v,
            Err(e) => {
                return Err(e);
            },
        };
        let file_raw = match extract_component_value(token_at(&toks, 2), "page", "file") {
            Ok(v) => v,
            Err(e) => {
                return Err(e);
            },
        };
        let file = trim_quote_marks(file_raw.as_str());
        Ok(Page { id, file })
    }
}

} // verus!
