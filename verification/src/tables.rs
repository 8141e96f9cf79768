//! The font's two sorted lookup tables: the glyph table, kept strictly
//! sorted by glyph id with the first-declared record winning on duplicate
//! ids, and the kerning table, kept sorted by `first_char_id` with records
//! sharing a key staying in declaration order.

use vstd::prelude::*;

use crate::char::Char;
use crate::kerning_value::KerningValue;

verus! {

/// Strictly ascending glyph ids: sorted, and no id occurs twice.
pub open spec fn chars_sorted(cs: Seq<Char>) -> bool {
    forall|i: int, j: int|
        0 <= i < j < cs.len() ==> #[trigger] cs[i].id < #[trigger] cs[j].id
}

/// Kerning records ordered by their first glyph id; equal keys may repeat.
pub open spec fn kerns_sorted(ks: Seq<KerningValue>) -> bool {
    forall|i: int, j: int|
        0 <= i < j < ks.len() ==> #[trigger] ks[i].first_char_id <= #[trigger] ks[j].first_char_id
}

/// The first glyph in `cs` with the given id.
pub open spec fn find_glyph(cs: Seq<Char>, id: u32) -> Option<Char>
    decreases cs.len(),
{
    if cs.len() == 0 {
        None
    } else if cs[0].id == id {
        Some(cs[0])
    } else {
        find_glyph(cs.drop_first(), id)
    }
}

/// Where a freshly decoded glyph record lands: before the first entry with
/// a greater id, or nowhere if its id is already present — the table keeps
/// the first-declared metrics.
pub open spec fn insert_glyph(cs: Seq<Char>, c: Char) -> Seq<Char>
    decreases cs.len(),
{
    if cs.len() == 0 {
        seq![c]
    } else if cs[0].id < c.id {
        seq![cs[0]] + insert_glyph(cs.drop_first(), c)
    } else if cs[0].id == c.id {
        cs
    } else {
        seq![c] + cs
    }
}

/// Where a freshly decoded kerning record lands: after every entry whose
/// key is less than or equal to its own, so records sharing a key keep
/// their declaration order.
pub open spec fn insert_kerning(ks: Seq<KerningValue>, k: KerningValue) -> Seq<KerningValue>
    decreases ks.len(),
{
    if ks.len() == 0 {
        seq![k]
    } else if ks[0].first_char_id <= k.first_char_id {
        seq![ks[0]] + insert_kerning(ks.drop_first(), k)
    } else {
        seq![k] + ks
    }
}

/// All kerning records with the given first glyph id, in table order.
pub open spec fn kerning_run(ks: Seq<KerningValue>, first: u32) -> Seq<KerningValue>
    decreases ks.len(),
{
    if ks.len() == 0 {
        Seq::empty()
    } else {
        let rest = kerning_run(ks.drop_first(), first);
        if ks[0].first_char_id == first {
            seq![ks[0]] + rest
        } else {
            rest
        }
    }
}

/// The value of the first record in `run` whose second glyph id matches, or
/// zero when none does.
pub open spec fn first_kerning_amount(run: Seq<KerningValue>, second: u32) -> int
    decreases run.len(),
{
    if run.len() == 0 {
        0
    } else if run[0].second_char_id == second {
        run[0].value as int
    } else {
        first_kerning_amount(run.drop_first(), second)
    }
}

/// The adjustment applied when `second` follows `first`: the first matching
/// record in table order, or zero.
pub open spec fn kerning_between(ks: Seq<KerningValue>, first: u32, second: u32) -> int
    decreases ks.len(),
{
    if ks.len() == 0 {
        0
    } else if ks[0].first_char_id == first && ks[0].second_char_id == second {
        ks[0].value as int
    } else {
        kerning_between(ks.drop_first(), first, second)
    }
}

/// Looking for the first match inside the run of `first` is looking for the
/// first match in the whole table.
pub proof fn lemma_run_lookup_agrees(ks: Seq<KerningValue>, first: u32, second: u32)
    ensures
        first_kerning_amount(kerning_run(ks, first), second) == kerning_between(
            ks,
            first,
            second,
        ),
    decreases ks.len(),
{
    if ks.len() > 0 {
        lemma_run_lookup_agrees(ks.drop_first(), first, second);
        if ks[0].first_char_id == first {
            let rest = kerning_run(ks.drop_first(), first);
            assert((seq![ks[0]] + rest).drop_first() =~= rest);
        }
    }
}

pub proof fn lemma_chars_sorted_drop_first(cs: Seq<Char>)
    requires
        chars_sorted(cs),
        cs.len() > 0,
    ensures
        chars_sorted(cs.drop_first()),
{
    let t = cs.drop_first();
    assert(forall|i: int, j: int| 0 <= i < j < t.len() ==> t[i] == cs[i + 1] && t[j] == cs[j + 1]);
}

pub proof fn lemma_kerns_sorted_drop_first(ks: Seq<KerningValue>)
    requires
        kerns_sorted(ks),
        ks.len() > 0,
    ensures
        kerns_sorted(ks.drop_first()),
{
    let t = ks.drop_first();
    assert(forall|i: int, j: int| 0 <= i < j < t.len() ==> t[i] == ks[i + 1] && t[j] == ks[j + 1]);
}

pub proof fn lemma_find_glyph_at(cs: Seq<Char>, k: int)
    requires
        chars_sorted(cs),
        0 <= k < cs.len(),
    ensures
        find_glyph(cs, cs[k].id) == Some(cs[k]),
    decreases k,
{
    if k > 0 {
        let t = cs.drop_first();
        assert(chars_sorted(t)) by {
            assert(forall|i: int, j: int|
                0 <= i < j < t.len() ==> t[i] == cs[i + 1] && t[j] == cs[j + 1]);
        }
        lemma_find_glyph_at(t, k - 1);
    }
}

pub proof fn lemma_find_glyph_none(cs: Seq<Char>, id: u32)
    requires
        forall|m: int| 0 <= m < cs.len() ==> (#[trigger] cs[m].id) != id,
    ensures
        find_glyph(cs, id) is None,
    decreases cs.len(),
{
    if cs.len() > 0 {
        lemma_find_glyph_none(cs.drop_first(), id);
    }
}

/// Inserting a glyph whose id the sorted table already holds leaves the
/// table unchanged.
pub proof fn lemma_insert_glyph_present(cs: Seq<Char>, c: Char, k: int)
    requires
        chars_sorted(cs),
        0 <= k < cs.len(),
        cs[k].id == c.id,
    ensures
        insert_glyph(cs, c) == cs,
    decreases cs.len(),
{
    if cs.len() > 0 {
        if cs[0].id < c.id {
            assert(k > 0);
            let t = cs.drop_first();
            assert(chars_sorted(t)) by {
                assert(forall|i: int, j: int|
                    0 <= i < j < t.len() ==> t[i] == cs[i + 1] && t[j] == cs[j + 1]);
            }
            lemma_insert_glyph_present(t, c, k - 1);
            assert(seq![cs[0]] + t =~= cs);
        } else if cs[0].id > c.id {
            assert(cs[k].id >= cs[0].id);
            assert(false);
        }
    }
}

/// Inserting a glyph with a fresh id places it exactly at its sorted
/// position `k`.
pub proof fn lemma_insert_glyph_fresh(cs: Seq<Char>, c: Char, k: int)
    requires
        0 <= k <= cs.len(),
        forall|m: int| 0 <= m < k ==> (#[trigger] cs[m].id) < c.id,
        forall|m: int| k <= m < cs.len() ==> (#[trigger] cs[m].id) > c.id,
    ensures
        insert_glyph(cs, c) == cs.insert(k, c),
    decreases cs.len(),
{
    if cs.len() == 0 {
        assert(insert_glyph(cs, c) =~= cs.insert(0, c));
    } else if cs[0].id < c.id {
        assert(k > 0);
        let t = cs.drop_first();
        lemma_insert_glyph_fresh(t, c, k - 1);
        assert(seq![cs[0]] + t.insert(k - 1, c) =~= cs.insert(k, c));
    } else {
        assert(cs[0].id > c.id);
        assert(k == 0);
        assert(seq![c] + cs =~= cs.insert(0, c));
    }
}

/// Insertion keeps the glyph table strictly sorted.
pub proof fn lemma_insert_glyph_sorted(cs: Seq<Char>, c: Char)
    requires
        chars_sorted(cs),
    ensures
        chars_sorted(insert_glyph(cs, c)),
    decreases cs.len(),
{
    if cs.len() > 0 && cs[0].id < c.id {
        let t = cs.drop_first();
        assert(chars_sorted(t)) by {
            assert(forall|i: int, j: int|
                0 <= i < j < t.len() ==> t[i] == cs[i + 1] && t[j] == cs[j + 1]);
        }
        lemma_insert_glyph_sorted(t, c);
        let r = insert_glyph(cs, c);
        assert(forall|m: int|
            0 <= m < insert_glyph(t, c).len() ==> r[m + 1] == insert_glyph(t, c)[m]);
        assert forall|m: int| 0 <= m < insert_glyph(t, c).len() implies cs[0].id < (
        #[trigger] insert_glyph(t, c)[m]).id by {
            lemma_insert_glyph_ids(t, c, m);
        }
    }
}

/// Every entry of the table after an insertion is either the newcomer or an
/// entry that was already there.
pub proof fn lemma_insert_glyph_ids(cs: Seq<Char>, c: Char, m: int)
    requires
        0 <= m < insert_glyph(cs, c).len(),
    ensures
        insert_glyph(cs, c)[m] == c || exists|j: int|
            0 <= j < cs.len() && insert_glyph(cs, c)[m] == cs[j],
    decreases cs.len(),
{
    if cs.len() > 0 && cs[0].id < c.id {
        if m > 0 {
            lemma_insert_glyph_ids(cs.drop_first(), c, m - 1);
            if insert_glyph(cs.drop_first(), c)[m - 1] != c {
                let j = choose|j: int|
                    0 <= j < cs.drop_first().len() && insert_glyph(cs.drop_first(), c)[m - 1]
                        == cs.drop_first()[j];
                assert(insert_glyph(cs, c)[m] == cs[j + 1]);
            }
        }
    }
}

/// Inserting a kerning record at its stable position `k` — after every
/// entry with a key at most its own.
pub proof fn lemma_insert_kerning_at(ks: Seq<KerningValue>, k: KerningValue, pos: int)
    requires
        0 <= pos <= ks.len(),
        forall|m: int| 0 <= m < pos ==> (#[trigger] ks[m].first_char_id) <= k.first_char_id,
        forall|m: int| pos <= m < ks.len() ==> (#[trigger] ks[m].first_char_id) > k.first_char_id,
    ensures
        insert_kerning(ks, k) == ks.insert(pos, k),
    decreases ks.len(),
{
    if ks.len() == 0 {
        assert(insert_kerning(ks, k) =~= ks.insert(0, k));
    } else if ks[0].first_char_id <= k.first_char_id {
        assert(pos > 0);
        let t = ks.drop_first();
        lemma_insert_kerning_at(t, k, pos - 1);
        assert(seq![ks[0]] + t.insert(pos - 1, k) =~= ks.insert(pos, k));
    } else {
        assert(pos == 0);
        assert(seq![k] + ks =~= ks.insert(0, k));
    }
}

/// Insertion keeps the kerning table sorted by key.
pub proof fn lemma_insert_kerning_sorted(ks: Seq<KerningValue>, k: KerningValue)
    requires
        kerns_sorted(ks),
    ensures
        kerns_sorted(insert_kerning(ks, k)),
    decreases ks.len(),
{
    if ks.len() > 0 && ks[0].first_char_id <= k.first_char_id {
        let t = ks.drop_first();
        assert(kerns_sorted(t)) by {
            assert(forall|i: int, j: int|
                0 <= i < j < t.len() ==> t[i] == ks[i + 1] && t[j] == ks[j + 1]);
        }
        lemma_insert_kerning_sorted(t, k);
        let r = insert_kerning(ks, k);
        assert(forall|m: int|
            0 <= m < insert_kerning(t, k).len() ==> r[m + 1] == insert_kerning(t, k)[m]);
        assert forall|m: int| 0 <= m < insert_kerning(t, k).len() implies ks[0].first_char_id <= (
        #[trigger] insert_kerning(t, k)[m]).first_char_id by {
            lemma_insert_kerning_keys(t, k, m);
        }
    }
}

/// Every entry of the kerning table after an insertion is the newcomer or
/// an entry that was already there.
pub proof fn lemma_insert_kerning_keys(ks: Seq<KerningValue>, k: KerningValue, m: int)
    requires
        0 <= m < insert_kerning(ks, k).len(),
    ensures
        insert_kerning(ks, k)[m] == k || exists|j: int|
            0 <= j < ks.len() && insert_kerning(ks, k)[m] == ks[j],
    decreases ks.len(),
{
    if ks.len() > 0 && ks[0].first_char_id <= k.first_char_id {
        if m > 0 {
            lemma_insert_kerning_keys(ks.drop_first(), k, m - 1);
            if insert_kerning(ks.drop_first(), k)[m - 1] != k {
                let j = choose|j: int|
                    0 <= j < ks.drop_first().len() && insert_kerning(ks.drop_first(), k)[m - 1]
                        == ks.drop_first()[j];
                assert(insert_kerning(ks, k)[m] == ks[j + 1]);
            }
        }
    }
}

pub proof fn lemma_kerning_run_empty(ks: Seq<KerningValue>, first: u32)
    requires
        forall|m: int| 0 <= m < ks.len() ==> (#[trigger] ks[m].first_char_id) != first,
    ensures
        kerning_run(ks, first) == Seq::<KerningValue>::empty(),
    decreases ks.len(),
{
    if ks.len() > 0 {
        lemma_kerning_run_empty(ks.drop_first(), first);
    }
}

/// In a sorted table the run of a key is a contiguous slice.
pub proof fn lemma_kerning_run_subrange(ks: Seq<KerningValue>, first: u32, lo: int, hi: int)
    requires
        0 <= lo <= hi <= ks.len(),
        forall|m: int| 0 <= m < lo ==> (#[trigger] ks[m].first_char_id) < first,
        forall|m: int| lo <= m < hi ==> (#[trigger] ks[m].first_char_id) == first,
        forall|m: int| hi <= m < ks.len() ==> (#[trigger] ks[m].first_char_id) > first,
    ensures
        kerning_run(ks, first) == ks.subrange(lo, hi),
    decreases ks.len(),
{
    if ks.len() == 0 {
        assert(kerning_run(ks, first) =~= ks.subrange(0, 0));
    } else if ks[0].first_char_id < first {
        assert(lo > 0);
        let t = ks.drop_first();
        lemma_kerning_run_subrange(t, first, lo - 1, hi - 1);
        assert(t.subrange(lo - 1, hi - 1) =~= ks.subrange(lo, hi));
    } else if ks[0].first_char_id == first {
        assert(lo == 0);
        assert(hi > 0);
        let t = ks.drop_first();
        lemma_kerning_run_subrange(t, first, 0, hi - 1);
        assert(seq![ks[0]] + t.subrange(0, hi - 1) =~= ks.subrange(0, hi));
    } else {
        assert(lo == 0 && hi == 0);
        lemma_kerning_run_empty(ks, first);
        assert(kerning_run(ks, first) =~= ks.subrange(0, 0));
    }
}

/// Binary search over the sorted glyph table: the index of the glyph with
/// the given id, or the insertion point for a fresh one.
pub(crate) fn glyph_search(cs: &Vec<Char>, id: u32) -> (r: Result<usize, usize>)
    requires
        chars_sorted(cs@),
    ensures
        match r {
            Ok(k) => 0 <= k < cs@.len() && cs@[k as int].id == id,
            Err(k) => k <= cs@.len() && (forall|m: int|
                0 <= m < k ==> (#[trigger] cs@[m].id) < id) && (forall|m: int|
                k <= m < cs@.len() ==> (#[trigger] cs@[m].id) > id),
        },
{
    let mut lo: usize = 0;
    let mut hi: usize = cs.len();
    while lo < hi
        invariant
            0 <= lo <= hi <= cs@.len(),
            chars_sorted(cs@),
            forall|m: int| 0 <= m < lo ==> (#[trigger] cs@[m].id) < id,
            forall|m: int| hi <= m < cs@.len() ==> (#[trigger] cs@[m].id) > id,
        decreases hi - lo,
    {
        let mid = lo + (hi - lo) / 2;
        let v = cs[mid].id;
        if v == id {
            return Ok(mid);
        } else if v < id {
            proof {
                assert(forall|m: int| 0 <= m < mid ==> (#[trigger] cs@[m].id) <= cs@[mid as int].id);
            }
            lo = mid + 1;
        } else {
            proof {
                assert(forall|m: int|
                    mid < m < cs@.len() ==> cs@[mid as int].id <= (#[trigger] cs@[m].id));
            }
            hi = mid;
        }
    }
    Err(lo)
}

/// Looks a glyph up by id in the sorted table.
pub(crate) fn find_glyph_exec(cs: &Vec<Char>, id: u32) -> (r: Option<Char>)
    requires
        chars_sorted(cs@),
    ensures
        r == find_glyph(cs@, id),
{
    match glyph_search(cs, id) {
        Ok(k) => {
            proof {
                lemma_find_glyph_at(cs@, k as int);
            }
            Some(cs[k])
        },
        Err(k) => {
            proof {
                assert(forall|m: int| 0 <= m < cs@.len() ==> (#[trigger] cs@[m].id) != id);
                lemma_find_glyph_none(cs@, id);
            }
            None
        },
    }
}

/// The value of the first record in `run` whose second glyph id matches,
/// or zero.
pub(crate) fn first_amount(run: &Vec<KerningValue>, second: u32) -> (a: i32)
    ensures
        a as int == first_kerning_amount(run@, second),
{
    let n = run.len();
    let mut i: usize = 0;
    proof {
        assert(run@.skip(0) =~= run@);
    }
    while i < n
        invariant
            0 <= i <= n,
            n == run@.len(),
            first_kerning_amount(run@, second) == first_kerning_amount(
                run@.skip(i as int),
                second,
            ),
        decreases n - i,
    {
        proof {
            assert(run@.skip(i as int)[0] == run@[i as int]);
            assert(run@.skip(i as int).drop_first() =~= run@.skip(i + 1));
        }
        if run[i].second_char_id == second {
            return run[i].value;
        }
        i += 1;
    }
    proof {
        assert(run@.skip(n as int) =~= Seq::<KerningValue>::empty());
    }
    0
}

/// Binary search for the leftmost kerning entry whose key is at least
/// `first`.
pub(crate) fn kerning_lower_search(ks: &Vec<KerningValue>, first: u32) -> (r: usize)
    requires
        kerns_sorted(ks@),
    ensures
        r <= ks@.len(),
        forall|m: int| 0 <= m < r ==> (#[trigger] ks@[m].first_char_id) < first,
        forall|m: int| r <= m < ks@.len() ==> (#[trigger] ks@[m].first_char_id) >= first,
{
    let mut lo: usize = 0;
    let mut hi: usize = ks.len();
    while lo < hi
        invariant
            0 <= lo <= hi <= ks@.len(),
            kerns_sorted(ks@),
            forall|m: int| 0 <= m < lo ==> (#[trigger] ks@[m].first_char_id) < first,
            forall|m: int| hi <= m < ks@.len() ==> (#[trigger] ks@[m].first_char_id) >= first,
        decreases hi - lo,
    {
        let mid = lo + (hi - lo) / 2;
        if ks[mid].first_char_id < first {
            proof {
                assert(forall|m: int|
                    0 <= m < mid ==> (#[trigger] ks@[m].first_char_id) <= ks@[mid as int].first_char_id);
            }
            lo = mid + 1;
        } else {
            proof {
                assert(forall|m: int|
                    mid < m < ks@.len() ==> ks@[mid as int].first_char_id <= (
                    #[trigger] ks@[m].first_char_id));
            }
            hi = mid;
        }
    }
    lo
}

/// Binary search for the position just past every kerning entry whose key
/// is at most `first`: the stable insertion point.
pub(crate) fn kerning_upper_search(ks: &Vec<KerningValue>, first: u32) -> (r: usize)
    requires
        kerns_sorted(ks@),
    ensures
        r <= ks@.len(),
        forall|m: int| 0 <= m < r ==> (#[trigger] ks@[m].first_char_id) <= first,
        forall|m: int| r <= m < ks@.len() ==> (#[trigger] ks@[m].first_char_id) > first,
{
    let mut lo: usize = 0;
    let mut hi: usize = ks.len();
    while lo < hi
        invariant
            0 <= lo <= hi <= ks@.len(),
            kerns_sorted(ks@),
            forall|m: int| 0 <= m < lo ==> (#[trigger] ks@[m].first_char_id) <= first,
            forall|m: int| hi <= m < ks@.len() ==> (#[trigger] ks@[m].first_char_id) > first,
        decreases hi - lo,
    {
        let mid = lo + (hi - lo) / 2;
        if ks[mid].first_char_id <= first {
            proof {
                assert(forall|m: int|
                    0 <= m < mid ==> (#[trigger] ks@[m].first_char_id) <= ks@[mid as int].first_char_id);
            }
            lo = mid + 1;
        } else {
            proof {
                assert(forall|m: int|
                    mid < m < ks@.len() ==> ks@[mid as int].first_char_id <= (
                    #[trigger] ks@[m].first_char_id));
            }
            hi = mid;
        }
    }
    lo
}

} // verus!
