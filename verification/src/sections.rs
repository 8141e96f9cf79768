//! The section splitter: one pass over the lines of the definition text,
//! checking the fixed top-level order — `info`, `common`, a run of `page`
//! lines, a count marker, a run of `char` lines, and an optional marker
//! followed by a run of `kerning` lines — and slicing out the raw lines of
//! each repeated section.

use vstd::prelude::*;

use crate::config_parse_error::{ConfigParseError, ConfigParseErrorV};
use crate::error::{Error, ErrorV};
use crate::text::{lines_of, spec_lines, starts_with, str_starts_with};

verus! {

/// The raw lines of each repeated section, in their original order, plus
/// the verbatim `common` line.
#[derive(Clone, Debug)]
pub struct Sections {
    pub common_section: String,
    pub page_sections: Vec<String>,
    pub char_sections: Vec<String>,
    pub kerning_sections: Vec<String>,
}

/// The spec-level image of a [`Sections`].
pub ghost struct SectionsV {
    pub common_section: Seq<char>,
    pub page_sections: Seq<Seq<char>>,
    pub char_sections: Seq<Seq<char>>,
    pub kerning_sections: Seq<Seq<char>>,
}

impl View for Sections {
    type V = SectionsV;

    open spec fn view(&self) -> SectionsV {
        SectionsV {
            common_section: self.common_section@,
            page_sections: self.page_sections.deep_view(),
            char_sections: self.char_sections.deep_view(),
            kerning_sections: self.kerning_sections.deep_view(),
        }
    }
}

/// Index of the first line at or after `i` that starts with `p`, or the
/// number of lines if there is none.
pub open spec fn first_with_prefix(lines: Seq<Seq<char>>, i: nat, p: Seq<char>) -> nat
    decreases lines.len() - i,
{
    if i >= lines.len() {
        lines.len()
    } else if starts_with(lines[i as int], p) {
        i
    } else {
        first_with_prefix(lines, i + 1, p)
    }
}

/// Length of the run of lines starting with `p` that begins at `i`.
pub open spec fn run_with_prefix(lines: Seq<Seq<char>>, i: nat, p: Seq<char>) -> nat
    decreases lines.len() - i,
{
    if i >= lines.len() || !starts_with(lines[i as int], p) {
        0
    } else {
        1 + run_with_prefix(lines, i + 1, p)
    }
}

proof fn lemma_first_with_prefix_is(lines: Seq<Seq<char>>, i0: nat, p: Seq<char>, k: int)
    requires
        i0 <= k <= lines.len(),
        forall|m: int| i0 <= m < k ==> !starts_with(#[trigger] lines[m], p),
        k < lines.len() ==> starts_with(lines[k], p),
    ensures
        first_with_prefix(lines, i0, p) == k,
    decreases k - i0,
{
    if i0 < k {
        lemma_first_with_prefix_is(lines, i0 + 1, p, k);
    }
}

proof fn lemma_run_with_prefix_is(lines: Seq<Seq<char>>, i0: nat, p: Seq<char>, k: int)
    requires
        i0 <= k <= lines.len(),
        forall|m: int| i0 <= m < k ==> starts_with(#[trigger] lines[m], p),
        k < lines.len() ==> !starts_with(lines[k], p),
    ensures
        run_with_prefix(lines, i0, p) == k - i0,
    decreases k - i0,
{
    if i0 < k {
        lemma_run_with_prefix_is(lines, i0 + 1, p, k);
    }
}

/// The outcome of splitting the definition text into sections, as the
/// construction pipeline consumes them: the `common` line kept verbatim and
/// the three runs of raw section lines.
pub open spec fn spec_sections(text: Seq<char>) -> Result<SectionsV, ConfigParseErrorV> {
    let lines = spec_lines(text);
    if !(lines.len() > 0 && starts_with(lines[0], "info"@)) {
        Err(ConfigParseErrorV::MissingSection("info"@))
    } else if !(lines.len() > 1 && starts_with(lines[1], "common"@)) {
        Err(ConfigParseErrorV::MissingSection("common"@))
    } else {
        let p0 = first_with_prefix(lines, 2, "page"@) as int;
        if p0 >= lines.len() {
            Err(ConfigParseErrorV::MissingSection("page"@))
        } else {
            let np = run_with_prefix(lines, p0 as nat, "page"@) as int;
            let c0 = p0 + np + 1;
            let nc = run_with_prefix(lines, c0 as nat, "char"@) as int;
            if nc == 0 {
                Err(ConfigParseErrorV::MissingSection("char"@))
            } else {
                let k0 = c0 + nc + 1;
                let nk = run_with_prefix(lines, k0 as nat, "kerning"@) as int;
                Ok(
                    SectionsV {
                        common_section: lines[1],
                        page_sections: lines.subrange(p0, p0 + np),
                        char_sections: lines.subrange(c0, c0 + nc),
                        kerning_sections: if k0 <= lines.len() {
                            lines.subrange(k0, k0 + nk)
                        } else {
                            Seq::empty()
                        },
                    },
                )
            }
        }
    }
}

impl Sections {
    /// Splits the whole definition text into its sections, checking the
    /// fixed top-level ordering.
    pub fn new(source: &str) -> (r: Result<Sections, Error>)
        ensures
            match r {
                Ok(sections) => spec_sections(source@) == Ok::<SectionsV, ConfigParseErrorV>(
                    sections@,
                ),
                Err(e) => match e@ {
                    ErrorV::ConfigParseError(c) => spec_sections(source@) == Err::<
                        SectionsV,
                        ConfigParseErrorV,
                    >(c),
                    ErrorV::IOError(_) => false,
                },
            },
    {
        let lines = lines_of(source);
        let n = lines.len();
        let ghost lv = spec_lines(source@);
        if n == 0 || !str_starts_with(lines[0].as_str(), "info") {
            proof {
                if n > 0 {
                    assert(lv[0] == lines@[0].deep_view());
                }
            }
            return Err(
                Error::ConfigParseError(ConfigParseError::MissingSection("info".to_owned())),
            );
        }
        proof {
            assert(lv[0] == lines@[0].deep_view());
        }
        if n < 2 || !str_starts_with(lines[1].as_str(), "common") {
            proof {
                if n >= 2 {
                    assert(lv[1] == lines@[1].deep_view());
                }
            }
            return Err(
                Error::ConfigParseError(ConfigParseError::MissingSection("common".to_owned())),
            );
        }
        proof {
            assert(lv[1] == lines@[1].deep_view());
        }
        let common_section = lines[1].clone();

        // Skip forward to the first `page` line.
        let mut i: usize = 2;
        while i < n && !str_starts_with(lines[i].as_str(), "page")
            invariant
                2 <= i <= n,
                n == lines.len(),
                lv == lines.deep_view(),
                forall|m: int| 2 <= m < i ==> !starts_with(#[trigger] lv[m], "page"@),
            decreases n - i,
        {
            proof {
                assert(lv[i as int] == lines@[i as int].deep_view());
            }
            i += 1;
        }
        proof {
            if i < n {
                assert(lv[i as int] == lines@[i as int].deep_view());
            }
            lemma_first_with_prefix_is(lv, 2, "page"@, i as int);
        }
        if i == n {
            return Err(
                Error::ConfigParseError(ConfigParseError::MissingSection("page".to_owned())),
            );
        }

        // Collect the maximal run of `page` lines.
        let mut page_sections: Vec<String> = Vec::new();
        let mut j: usize = i;
        while j < n && str_starts_with(lines[j].as_str(), "page")
            invariant
                i <= j <= n,
                n == lines.len(),
                lv == lines.deep_view(),
                forall|m: int| i <= m < j ==> starts_with(#[trigger] lv[m], "page"@),
                page_sections.deep_view() == lv.subrange(i as int, j as int),
            decreases n - j,
        {
            proof {
                assert(lv[j as int] == lines@[j as int].deep_view());
            }
            let ghost dv0 = page_sections.deep_view();
            page_sections.push(lines[j].clone());
            proof {
                assert(page_sections.deep_view() =~~= dv0.push(lv[j as int]));
                assert(page_sections.deep_view() =~~= lv.subrange(i as int, j + 1));
            }
            j += 1;
        }
        proof {
            if j < n {
                assert(lv[j as int] == lines@[j as int].deep_view());
            }
            lemma_run_with_prefix_is(lv, i as nat, "page"@, j as int);
        }

        // One marker line (`chars count=N`), then the run of `char` lines.
        let mut char_sections: Vec<String> = Vec::new();
        let mut c: usize = if j < n {
            j + 1
        } else {
            n
        };
        let ghost c0 = j + 1;
        proof {
            if j == n {
                assert(run_with_prefix(lv, c0 as nat, "char"@) == 0);
            }
        }
        if j < n {
            while c < n && str_starts_with(lines[c].as_str(), "char")
                invariant
                    j + 1 <= c <= n,
                    n == lines.len(),
                    lv == lines.deep_view(),
                    forall|m: int| j + 1 <= m < c ==> starts_with(#[trigger] lv[m], "char"@),
                    char_sections.deep_view() == lv.subrange(j + 1, c as int),
                decreases n - c,
            {
                proof {
                    assert(lv[c as int] == lines@[c as int].deep_view());
                }
                let ghost dv0 = char_sections.deep_view();
                char_sections.push(lines[c].clone());
                proof {
                    assert(char_sections.deep_view() =~~= dv0.push(lv[c as int]));
                    assert(char_sections.deep_view() =~~= lv.subrange(j + 1, c + 1));
                }
                c += 1;
            }
            proof {
                if c < n {
                    assert(lv[c as int] == lines@[c as int].deep_view());
                }
                lemma_run_with_prefix_is(lv, (j + 1) as nat, "char"@, c as int);
            }
        }
        if char_sections.len() == 0 {
            return Err(
                Error::ConfigParseError(ConfigParseError::MissingSection("char".to_owned())),
            );
        }

        // Optional marker line, then the run of `kerning` lines.
        let mut kerning_sections: Vec<String> = Vec::new();
        let ghost k0 = c0 + char_sections.deep_view().len() + 1;
        if c < n {
            let mut k: usize = c + 1;
            proof {
                assert(k0 == k as int);
                assert(kerning_sections.deep_view() =~~= lv.subrange(k as int, k as int));
            }
            while k < n && str_starts_with(lines[k].as_str(), "kerning")
                invariant
                    c + 1 <= k <= n,
                    n == lines.len(),
                    lv == lines.deep_view(),
                    forall|m: int| c + 1 <= m < k ==> starts_with(#[trigger] lv[m], "kerning"@),
                    kerning_sections.deep_view() == lv.subrange(c + 1, k as int),
                decreases n - k,
            {
                proof {
                    assert(lv[k as int] == lines@[k as int].deep_view());
                }
                let ghost dv0 = kerning_sections.deep_view();
                kerning_sections.push(lines[k].clone());
                proof {
                    assert(kerning_sections.deep_view() =~~= dv0.push(lv[k as int]));
                    assert(kerning_sections.deep_view() =~~= lv.subrange(c + 1, k + 1));
                }
                k += 1;
            }
            proof {
                if k < n {
                    assert(lv[k as int] == lines@[k as int].deep_view());
                }
                lemma_run_with_prefix_is(lv, (c + 1) as nat, "kerning"@, k as int);
            }
        } else {
            proof {
                assert(run_with_prefix(lv, k0 as nat, "kerning"@) == 0);
                assert(kerning_sections.deep_view() =~~= Seq::<Seq<char>>::empty());
            }
        }

        let sections = Sections { common_section, page_sections, char_sections, kerning_sections };
        proof {
            assert(lv.len() > 0 && starts_with(lv[0], "info"@));
            assert(lv.len() > 1 && starts_with(lv[1], "common"@));
            let p0 = first_with_prefix(lv, 2, "page"@) as int;
            assert(p0 == i as int);
            assert(p0 < lv.len());
            let np = run_with_prefix(lv, p0 as nat, "page"@) as int;
            assert(np == j - i);
            let sc0 = p0 + np + 1;
            assert(sc0 == c0);
            let nc = run_with_prefix(lv, sc0 as nat, "char"@) as int;
            assert(nc == char_sections.deep_view().len());
            assert(nc > 0);
            let sk0 = sc0 + nc + 1;
            assert(sk0 == k0);
            let nk = run_with_prefix(lv, sk0 as nat, "kerning"@) as int;
            assert(sections@.common_section == lv[1]);
            assert(sections@.page_sections == lv.subrange(p0, p0 + np));
            assert(sections@.char_sections == lv.subrange(sc0, sc0 + nc));
            assert(sections@.kerning_sections == (if sk0 <= lv.len() {
                lv.subrange(sk0, sk0 + nk)
            } else {
                Seq::<Seq<char>>::empty()
            }));
            assert(spec_sections(source@) == Ok::<SectionsV, ConfigParseErrorV>(sections@));
        }
        Ok(sections)
    }
}

} // verus!
