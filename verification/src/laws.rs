//! The library's standing guarantees, proved once and for all: page order
//! is declaration order, the first-declared glyph record wins on duplicate
//! ids, kerning records sharing a key keep declaration order, and parsing
//! is deterministic.

use vstd::prelude::*;

use crate::char::{spec_char_record, Char};
use crate::config_parse_error::ConfigParseErrorV;
use crate::kerning_value::{spec_kerning_record, KerningValue};
use crate::page::{spec_page_record, PageV};
use crate::string_parse_error::StringParseErrorV;
use crate::tables::{
    chars_sorted, find_glyph, insert_glyph, insert_kerning, kerning_run, kerns_sorted,
    lemma_chars_sorted_drop_first, lemma_find_glyph_none, lemma_insert_glyph_sorted,
    lemma_insert_kerning_sorted, lemma_kerning_run_empty, lemma_kerns_sorted_drop_first,
};
use crate::{
    build_glyph_table, build_kerning_table, build_page_list, spec_parse, BMFontV, CharPosition,
};

verus! {

/// The glyph record a `char` line denotes, where it denotes one.
pub open spec fn glyph_record_of(l: Seq<char>) -> Char {
    spec_char_record(l)->Ok_0
}

/// The kerning record a `kerning` line denotes, where it denotes one.
pub open spec fn kerning_record_of(l: Seq<char>) -> KerningValue {
    spec_kerning_record(l)->Ok_0
}

/// The kerning records of the given lines, in declaration order.
pub open spec fn kerning_records(lines: Seq<Seq<char>>) -> Seq<KerningValue>
    decreases lines.len(),
{
    if lines.len() == 0 {
        Seq::empty()
    } else {
        kerning_records(lines.drop_last()).push(kerning_record_of(lines.last()))
    }
}

/// A page list builds only when every line decodes, and then holds one
/// record per line, in declaration order.
pub proof fn lemma_pages_in_declaration_order(lines: Seq<Seq<char>>, ps: Seq<PageV>)
    requires
        build_page_list(lines) == Ok::<Seq<PageV>, ConfigParseErrorV>(ps),
    ensures
        ps.len() == lines.len(),
        forall|i: int|
            0 <= i < lines.len() ==> spec_page_record(#[trigger] lines[i]) == Ok::<
                PageV,
                ConfigParseErrorV,
            >(ps[i]),
    decreases lines.len(),
{
    if lines.len() > 0 {
        let prev = lines.drop_last();
        let pp = build_page_list(prev)->Ok_0;
        lemma_pages_in_declaration_order(prev, pp);
        assert(forall|i: int| 0 <= i < prev.len() ==> prev[i] == lines[i]);
        assert(ps == pp.push(spec_page_record(lines.last())->Ok_0));
    }
}

/// A glyph table that builds is strictly sorted by id.
pub proof fn lemma_build_glyph_table_sorted(lines: Seq<Seq<char>>, tbl: Seq<Char>)
    requires
        build_glyph_table(lines) == Ok::<Seq<Char>, ConfigParseErrorV>(tbl),
    ensures
        chars_sorted(tbl),
    decreases lines.len(),
{
    if lines.len() > 0 {
        let prev = lines.drop_last();
        let tp = build_glyph_table(prev)->Ok_0;
        lemma_build_glyph_table_sorted(prev, tp);
        lemma_insert_glyph_sorted(tp, glyph_record_of(lines.last()));
    }
}

/// A kerning table that builds is sorted by first glyph id.
pub proof fn lemma_build_kerning_table_sorted(lines: Seq<Seq<char>>, tbl: Seq<KerningValue>)
    requires
        build_kerning_table(lines) == Ok::<Seq<KerningValue>, ConfigParseErrorV>(tbl),
    ensures
        kerns_sorted(tbl),
    decreases lines.len(),
{
    if lines.len() > 0 {
        let prev = lines.drop_last();
        let tp = build_kerning_table(prev)->Ok_0;
        lemma_build_kerning_table_sorted(prev, tp);
        lemma_insert_kerning_sorted(tp, kerning_record_of(lines.last()));
    }
}

/// How a lookup answers after one glyph insertion: what was found before is
/// still found; a fresh id finds the newcomer; everything else stays
/// absent.
proof fn lemma_insert_glyph_find(t: Seq<Char>, c: Char, id: u32)
    requires
        chars_sorted(t),
    ensures
        find_glyph(insert_glyph(t, c), id) == (if find_glyph(t, id) is Some {
            find_glyph(t, id)
        } else if c.id == id {
            Some(c)
        } else {
            None::<Char>
        }),
    decreases t.len(),
{
    reveal_with_fuel(find_glyph, 3);
    if t.len() == 0 {
        let r = insert_glyph(t, c);
        assert(r == seq![c]);
        assert(r.drop_first() =~= Seq::<Char>::empty());
    } else if t[0].id < c.id {
        let rest = t.drop_first();
        lemma_chars_sorted_drop_first(t);
        lemma_insert_glyph_find(rest, c, id);
        let r = insert_glyph(t, c);
        assert(r == seq![t[0]] + insert_glyph(rest, c));
        assert(r[0] == t[0]);
        assert(r.drop_first() =~= insert_glyph(rest, c));
    } else if t[0].id == c.id {
        if find_glyph(t, id) is None && c.id == id {
            assert(find_glyph(t, id) == Some(t[0]));
            assert(false);
        }
    } else {
        let r = insert_glyph(t, c);
        assert(r == seq![c] + t);
        assert(r[0] == c);
        assert(r.drop_first() =~= t);
        if id == c.id {
            assert forall|m: int| 0 <= m < t.len() implies (#[trigger] t[m].id) != id by {
                if m > 0 {
                    assert(t[0].id < t[m].id);
                }
            }
            lemma_find_glyph_none(t, id);
        }
    }
}

/// Every id a built glyph table answers was declared by one of its lines.
proof fn lemma_build_glyph_membership(lines: Seq<Seq<char>>, tbl: Seq<Char>, id: u32)
    requires
        build_glyph_table(lines) == Ok::<Seq<Char>, ConfigParseErrorV>(tbl),
        find_glyph(tbl, id) is Some,
    ensures
        exists|j: int| 0 <= j < lines.len() && glyph_record_of(#[trigger] lines[j]).id == id,
    decreases lines.len(),
{
    if lines.len() == 0 {
        assert(false);
    } else {
        let prev = lines.drop_last();
        let tp = build_glyph_table(prev)->Ok_0;
        let c = glyph_record_of(lines.last());
        lemma_build_glyph_table_sorted(prev, tp);
        lemma_insert_glyph_find(tp, c, id);
        if find_glyph(tp, id) is Some {
            lemma_build_glyph_membership(prev, tp, id);
            let j = choose|j: int|
                0 <= j < prev.len() && glyph_record_of(#[trigger] prev[j]).id == id;
            assert(lines[j] == prev[j]);
            assert(glyph_record_of(lines[j]).id == id);
        } else {
            assert(c.id == id);
            assert(glyph_record_of(lines[lines.len() - 1]).id == id);
        }
    }
}

/// For a glyph id declared more than once, only the first-declared metrics
/// are retained: if line `i` is the first line declaring its id, the built
/// table answers a lookup of that id with line `i`'s record.
pub proof fn lemma_first_declared_glyph_wins(lines: Seq<Seq<char>>, tbl: Seq<Char>, i: int)
    requires
        build_glyph_table(lines) == Ok::<Seq<Char>, ConfigParseErrorV>(tbl),
        0 <= i < lines.len(),
        forall|j: int|
            0 <= j < i ==> glyph_record_of(#[trigger] lines[j]).id != glyph_record_of(
                lines[i],
            ).id,
    ensures
        find_glyph(tbl, glyph_record_of(lines[i]).id) == Some(glyph_record_of(lines[i])),
    decreases lines.len(),
{
    let prev = lines.drop_last();
    let tp = build_glyph_table(prev)->Ok_0;
    let c = glyph_record_of(lines.last());
    let id = glyph_record_of(lines[i]).id;
    lemma_build_glyph_table_sorted(prev, tp);
    lemma_insert_glyph_find(tp, c, id);
    assert(forall|j: int| 0 <= j < prev.len() ==> prev[j] == lines[j]);
    if i < lines.len() - 1 {
        lemma_first_declared_glyph_wins(prev, tp, i);
    } else {
        if find_glyph(tp, id) is Some {
            lemma_build_glyph_membership(prev, tp, id);
            let j = choose|j: int|
                0 <= j < prev.len() && glyph_record_of(#[trigger] prev[j]).id == id;
            assert(glyph_record_of(lines[j]).id != id);
            assert(false);
        }
    }
}

/// How the run of a key changes when one kerning record is dropped into
/// its stable place: a matching record joins the end of its run, any other
/// run is untouched.
proof fn lemma_insert_kerning_run(t: Seq<KerningValue>, k: KerningValue, first: u32)
    requires
        kerns_sorted(t),
    ensures
        kerning_run(insert_kerning(t, k), first) == (if k.first_char_id == first {
            kerning_run(t, first).push(k)
        } else {
            kerning_run(t, first)
        }),
    decreases t.len(),
{
    reveal_with_fuel(kerning_run, 3);
    if t.len() == 0 {
        let r = insert_kerning(t, k);
        assert(r == seq![k]);
        assert(r.drop_first() =~= Seq::<KerningValue>::empty());
        if k.first_char_id == first {
            assert(seq![k] + Seq::<KerningValue>::empty() =~= kerning_run(t, first).push(k));
        }
    } else if t[0].first_char_id <= k.first_char_id {
        let rest = t.drop_first();
        lemma_kerns_sorted_drop_first(t);
        lemma_insert_kerning_run(rest, k, first);
        let r = insert_kerning(t, k);
        assert(r == seq![t[0]] + insert_kerning(rest, k));
        assert(r[0] == t[0]);
        assert(r.drop_first() =~= insert_kerning(rest, k));
        if t[0].first_char_id == first && k.first_char_id == first {
            assert(seq![t[0]] + kerning_run(rest, first).push(k) =~= (seq![t[0]] + kerning_run(
                rest,
                first,
            )).push(k));
        }
    } else {
        let r = insert_kerning(t, k);
        assert(r == seq![k] + t);
        assert(r[0] == k);
        assert(r.drop_first() =~= t);
        if k.first_char_id == first {
            assert forall|m: int| 0 <= m < t.len() implies (#[trigger] t[m].first_char_id)
                != first by {
                if m > 0 {
                    assert(t[0].first_char_id <= t[m].first_char_id);
                }
            }
            lemma_kerning_run_empty(t, first);
            assert(seq![k] + kerning_run(t, first) =~= kerning_run(t, first).push(k));
        }
    }
}

/// Appending a record to a declaration list extends the matching run at
/// the end, or leaves it alone.
proof fn lemma_kerning_run_push(rs: Seq<KerningValue>, k: KerningValue, first: u32)
    ensures
        kerning_run(rs.push(k), first) == (if k.first_char_id == first {
            kerning_run(rs, first).push(k)
        } else {
            kerning_run(rs, first)
        }),
    decreases rs.len(),
{
    reveal_with_fuel(kerning_run, 3);
    if rs.len() == 0 {
        let p = rs.push(k);
        assert(p[0] == k);
        assert(p.drop_first() =~= Seq::<KerningValue>::empty());
        if k.first_char_id == first {
            assert(seq![k] + Seq::<KerningValue>::empty() =~= kerning_run(rs, first).push(k));
        }
    } else {
        let p = rs.push(k);
        assert(p[0] == rs[0]);
        assert(p.drop_first() =~= rs.drop_first().push(k));
        lemma_kerning_run_push(rs.drop_first(), k, first);
        if rs[0].first_char_id == first && k.first_char_id == first {
            assert(seq![rs[0]] + kerning_run(rs.drop_first(), first).push(k) =~= (seq![rs[0]]
                + kerning_run(rs.drop_first(), first)).push(k));
        }
    }
}

/// Kerning records sharing a `first_char_id` stay in declaration order:
/// the built table's run of any key is exactly the run of that key among
/// the declared records, in declaration order.
pub proof fn lemma_kerning_declaration_order(
    lines: Seq<Seq<char>>,
    tbl: Seq<KerningValue>,
    first: u32,
)
    requires
        build_kerning_table(lines) == Ok::<Seq<KerningValue>, ConfigParseErrorV>(tbl),
    ensures
        kerning_run(tbl, first) == kerning_run(kerning_records(lines), first),
    decreases lines.len(),
{
    if lines.len() == 0 {
        assert(kerning_run(tbl, first) =~= kerning_run(kerning_records(lines), first));
    } else {
        let prev = lines.drop_last();
        let tp = build_kerning_table(prev)->Ok_0;
        let k = kerning_record_of(lines.last());
        lemma_build_kerning_table_sorted(prev, tp);
        lemma_kerning_declaration_order(prev, tp, first);
        lemma_insert_kerning_run(tp, k, first);
        lemma_kerning_run_push(kerning_records(prev), k, first);
    }
}

/// Parsing is deterministic: any two outcomes of parsing the same text
/// against the same font in the same mode are structurally identical.
pub proof fn lemma_parse_deterministic(
    f: BMFontV,
    text: Seq<char>,
    strict: bool,
    r1: Result<Seq<CharPosition>, StringParseErrorV>,
    r2: Result<Seq<CharPosition>, StringParseErrorV>,
)
    requires
        r1 == spec_parse(f, text, strict),
        r2 == spec_parse(f, text, strict),
    ensures
        r1 == r2,
{
}

} // verus!
