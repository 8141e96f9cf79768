//! Character-level text primitives: whitespace classification, splitting a
//! text into whitespace-separated tokens and into lines, and small string
//! comparisons. The spec functions here are the vocabulary in which the
//! record parsers and the section splitter state their contracts.

use vstd::prelude::*;

verus! {

/// The Unicode `White_Space` code points, the separators recognised when a
/// line is split into tokens.
pub open spec fn is_space_char(c: char) -> bool {
    let u = c as u32;
    u == 0x20 || (0x09 <= u && u <= 0x0D) || u == 0x85 || u == 0xA0 || u == 0x1680 || (0x2000
        <= u && u <= 0x200A) || u == 0x2028 || u == 0x2029 || u == 0x202F || u == 0x205F || u
        == 0x3000
}

pub fn is_space(c: char) -> (b: bool)
    ensures
        b == is_space_char(c),
{
    let u = c as u32;
    u == 0x20 || (0x09 <= u && u <= 0x0D) || u == 0x85 || u == 0xA0 || u == 0x1680 || (0x2000
        <= u && u <= 0x200A) || u == 0x2028 || u == 0x2029 || u == 0x202F || u == 0x205F || u
        == 0x3000
}

/// Index of the first occurrence of `c` in `s`, or `s.len()` if absent.
pub open spec fn pos_of(s: Seq<char>, c: char) -> nat
    decreases s.len(),
{
    if s.len() == 0 {
        0
    } else if s[0] == c {
        0
    } else {
        1 + pos_of(s.drop_first(), c)
    }
}

pub proof fn lemma_pos_of_is(s: Seq<char>, c: char, k: int)
    requires
        0 <= k <= s.len(),
        forall|m: int| 0 <= m < k ==> s[m] != c,
        k < s.len() ==> s[k] == c,
    ensures
        pos_of(s, c) == k,
    decreases k,
{
    if k > 0 {
        lemma_pos_of_is(s.drop_first(), c, k - 1);
    }
}

/// Length of the maximal prefix of `s` that contains no whitespace.
pub open spec fn word_len(s: Seq<char>) -> nat
    decreases s.len(),
{
    if s.len() == 0 || is_space_char(s[0]) {
        0
    } else {
        1 + word_len(s.drop_first())
    }
}

pub proof fn lemma_word_len_le(s: Seq<char>)
    ensures
        word_len(s) <= s.len(),
    decreases s.len(),
{
    if s.len() > 0 && !is_space_char(s[0]) {
        lemma_word_len_le(s.drop_first());
    }
}

pub proof fn lemma_word_len_is(s: Seq<char>, k: int)
    requires
        0 <= k <= s.len(),
        forall|m: int| 0 <= m < k ==> !is_space_char(s[m]),
        k < s.len() ==> is_space_char(s[k]),
    ensures
        word_len(s) == k,
    decreases k,
{
    if k > 0 {
        lemma_word_len_is(s.drop_first(), k - 1);
    }
}

/// The whitespace-separated tokens of `s`, in order, each one a maximal run
/// of non-whitespace characters. Runs of separators collapse and produce no
/// empty tokens.
pub open spec fn split_ws(s: Seq<char>) -> Seq<Seq<char>>
    decreases s.len(),
{
    if s.len() == 0 {
        Seq::empty()
    } else {
        let rest = split_ws(s.drop_first());
        if is_space_char(s[0]) {
            rest
        } else if s.len() >= 2 && !is_space_char(s[1]) {
            seq![seq![s[0]] + rest[0]] + rest.drop_first()
        } else {
            seq![seq![s[0]]] + rest
        }
    }
}

/// Skipping one leading separator does not change the token list.
pub proof fn lemma_split_ws_space(s: Seq<char>)
    requires
        s.len() > 0,
        is_space_char(s[0]),
    ensures
        split_ws(s) == split_ws(s.drop_first()),
{
}

/// At the start of a word, the token list is that word followed by the
/// tokens of the remainder.
pub proof fn lemma_split_ws_word(s: Seq<char>)
    requires
        s.len() > 0,
        !is_space_char(s[0]),
    ensures
        split_ws(s) == seq![s.take(word_len(s) as int)] + split_ws(s.skip(word_len(s) as int)),
    decreases s.len(),
{
    let wl = word_len(s) as int;
    let t = s.drop_first();
    let rest = split_ws(t);
    lemma_word_len_le(s);
    if s.len() >= 2 && !is_space_char(s[1]) {
        lemma_split_ws_word(t);
        let wl2 = word_len(t) as int;
        lemma_word_len_le(t);
        assert(wl == 1 + wl2);
        assert(rest == seq![t.take(wl2)] + split_ws(t.skip(wl2)));
        assert(rest[0] == t.take(wl2));
        assert(rest.drop_first() =~= split_ws(t.skip(wl2)));
        assert(seq![s[0]] + t.take(wl2) =~= s.take(wl));
        assert(t.skip(wl2) =~= s.skip(wl));
        assert(split_ws(s) =~= seq![s.take(wl)] + split_ws(s.skip(wl)));
    } else {
        assert(t.len() == 0 || is_space_char(t[0]));
        assert(word_len(t) == 0);
        assert(wl == 1);
        assert(s.take(1) =~= seq![s[0]]);
        assert(s.skip(1) =~= t);
        assert(split_ws(s) =~= seq![s.take(wl)] + split_ws(s.skip(wl)));
    }
}

/// The lines of `s` as cut at every newline character: one part per stretch
/// between newlines, including a (possibly empty) final part.
pub open spec fn split_nl(s: Seq<char>) -> Seq<Seq<char>>
    decreases s.len(),
{
    let k = pos_of(s, '\n') as int;
    if k >= s.len() {
        seq![s]
    } else {
        seq![s.take(k)] + split_nl(s.skip(k + 1))
    }
}

/// `l` with one trailing carriage return removed, as a line terminated by
/// `\r\n` appears once cut at the newline.
pub open spec fn strip_last_cr(l: Seq<char>) -> Seq<char> {
    if l.len() > 0 && l.last() == '\r' {
        l.drop_last()
    } else {
        l
    }
}

/// The lines of a document: parts cut at newlines, every part but the final
/// one stripped of a trailing carriage return, and a trailing empty part
/// (from a terminating newline, or from an empty document) dropped.
pub open spec fn spec_lines(s: Seq<char>) -> Seq<Seq<char>> {
    let p = split_nl(s);
    let q = Seq::new(p.len(), |i: int| if i < p.len() - 1 { strip_last_cr(p[i]) } else { p[i] });
    if q.len() > 0 && q.last().len() == 0 {
        q.drop_last()
    } else {
        q
    }
}

/// The lines the layout pass walks: parts cut at newlines, with only a
/// trailing empty part dropped. Carriage returns stay in the line here.
pub open spec fn layout_lines(s: Seq<char>) -> Seq<Seq<char>> {
    let p = split_nl(s);
    if p.len() > 0 && p.last().len() == 0 {
        p.drop_last()
    } else {
        p
    }
}

/// Whether `p` is a prefix of `l`.
pub open spec fn starts_with(l: Seq<char>, p: Seq<char>) -> bool {
    l.len() >= p.len() && l.take(p.len() as int) == p
}

pub fn str_starts_with(l: &str, p: &str) -> (b: bool)
    ensures
        b == starts_with(l@, p@),
{
    let ln = l.unicode_len();
    let pn = p.unicode_len();
    if ln < pn {
        return false;
    }
    let mut i: usize = 0;
    while i < pn
        invariant
            0 <= i <= pn,
            pn <= ln,
            ln == l@.len(),
            pn == p@.len(),
            forall|m: int| 0 <= m < i ==> l@[m] == p@[m],
        decreases pn - i,
    {
        if l.get_char(i) != p.get_char(i) {
            return false;
        }
        i += 1;
    }
    proof {
        assert(l@.take(p@.len() as int) =~= p@);
    }
    true
}

pub fn str_eq(a: &str, b: &str) -> (r: bool)
    ensures
        r == (a@ == b@),
{
    let an = a.unicode_len();
    let bn = b.unicode_len();
    if an != bn {
        return false;
    }
    let mut i: usize = 0;
    while i < an
        invariant
            0 <= i <= an,
            an == a@.len(),
            an == b@.len(),
            forall|m: int| 0 <= m < i ==> a@[m] == b@[m],
        decreases an - i,
    {
        if a.get_char(i) != b.get_char(i) {
            return false;
        }
        i += 1;
    }
    proof {
        assert(a@ =~= b@);
    }
    true
}

/// Index of the first occurrence of `c` in `s`, or the length of `s`.
pub fn find_char(s: &str, c: char) -> (r: usize)
    ensures
        r == pos_of(s@, c),
{
    let n = s.unicode_len();
    let mut i: usize = 0;
    while i < n
        invariant
            0 <= i <= n,
            n == s@.len(),
            forall|m: int| 0 <= m < i ==> s@[m] != c,
        decreases n - i,
    {
        if s.get_char(i) == c {
            proof {
                lemma_pos_of_is(s@, c, i as int);
            }
            return i;
        }
        i += 1;
    }
    proof {
        lemma_pos_of_is(s@, c, n as int);
    }
    n
}

/// The characters of `s`, in order, as a vector.
pub fn chars_of(s: &str) -> (v: Vec<char>)
    ensures
        v@ == s@,
{
    let n = s.unicode_len();
    let mut v: Vec<char> = Vec::new();
    let mut i: usize = 0;
    while i < n
        invariant
            0 <= i <= n,
            n == s@.len(),
            v@ == s@.take(i as int),
        decreases n - i,
    {
        v.push(s.get_char(i));
        proof {
            assert(v@ =~= s@.take(i + 1));
        }
        i += 1;
    }
    proof {
        assert(s@.take(n as int) =~= s@);
    }
    v
}

/// The whitespace-separated tokens of `s`, each carved out as an owned
/// string.
pub fn tokens(s: &str) -> (v: Vec<String>)
    ensures
        v.deep_view() == split_ws(s@),
{
    let n = s.unicode_len();
    let mut v: Vec<String> = Vec::new();
    let mut i: usize = 0;
    proof {
        assert(s@.skip(0) =~= s@);
        assert(v.deep_view() + split_ws(s@) =~~= split_ws(s@));
    }
    while i < n
        invariant
            0 <= i <= n,
            n == s@.len(),
            split_ws(s@) == v.deep_view() + split_ws(s@.skip(i as int)),
        decreases n - i,
    {
        if is_space(s.get_char(i)) {
            proof {
                let t = s@.skip(i as int);
                lemma_split_ws_space(t);
                assert(t.drop_first() =~= s@.skip(i + 1));
            }
            i += 1;
        } else {
            let start = i;
            let mut j = i + 1;
            while j < n && !is_space(s.get_char(j))
                invariant
                    start < j <= n,
                    n == s@.len(),
                    start < n,
                    forall|m: int| start <= m < j ==> !is_space_char(s@[m]),
                decreases n - j,
            {
                j += 1;
            }
            let word = s.substring_char(start, j).to_owned();
            proof {
                let t = s@.skip(start as int);
                lemma_word_len_is(t, j - start);
                lemma_split_ws_word(t);
                assert(t.take((j - start) as int) =~= s@.subrange(start as int, j as int));
                assert(t.skip((j - start) as int) =~= s@.skip(j as int));
                assert(word@ == s@.subrange(start as int, j as int));
            }
            v.push(word);
            proof {
                assert(v.deep_view() =~~= v.deep_view().drop_last().push(
                    s@.subrange(start as int, j as int),
                ));
                assert(split_ws(s@) =~~= v.deep_view() + split_ws(s@.skip(j as int)));
            }
            i = j;
        }
    }
    proof {
        assert(s@.skip(n as int) =~= Seq::<char>::empty());
        assert(split_ws(s@) =~~= v.deep_view());
    }
    v
}

/// The parts of `s` cut at every newline, including the (possibly empty)
/// final part.
pub fn split_raw_lines(s: &str) -> (v: Vec<String>)
    ensures
        v.deep_view() == split_nl(s@),
        v.len() >= 1,
{
    let n = s.unicode_len();
    let mut v: Vec<String> = Vec::new();
    let mut start: usize = 0;
    let mut i: usize = 0;
    proof {
        assert(s@.skip(0) =~= s@);
        assert(v.deep_view() + split_nl(s@) =~~= split_nl(s@));
    }
    while i < n
        invariant
            start <= i <= n,
            n == s@.len(),
            split_nl(s@) == v.deep_view() + split_nl(s@.skip(start as int)),
            forall|m: int| start <= m < i ==> s@[m] != '\n',
        decreases n - i,
    {
        if s.get_char(i) == '\n' {
            let line = s.substring_char(start, i).to_owned();
            proof {
                let t = s@.skip(start as int);
                lemma_pos_of_is(t, '\n', i - start);
                assert(t.take((i - start) as int) =~= s@.subrange(start as int, i as int));
                assert(t.skip(i - start + 1) =~= s@.skip(i + 1));
            }
            v.push(line);
            proof {
                assert(v.deep_view() =~~= v.deep_view().drop_last().push(
                    s@.subrange(start as int, i as int),
                ));
                assert(split_nl(s@) =~~= v.deep_view() + split_nl(s@.skip(i + 1)));
            }
            start = i + 1;
        }
        i += 1;
    }
    let line = s.substring_char(start, n).to_owned();
    proof {
        let t = s@.skip(start as int);
        lemma_pos_of_is(t, '\n', n - start);
        assert(t =~= s@.subrange(start as int, n as int));
    }
    v.push(line);
    proof {
        assert(v.deep_view() =~~= split_nl(s@));
    }
    v
}

/// The lines of `s`, as [`spec_lines`] describes them.
pub fn lines_of(s: &str) -> (v: Vec<String>)
    ensures
        v.deep_view() == spec_lines(s@),
{
    let raw = split_raw_lines(s);
    let m = raw.len();
    let ghost p = split_nl(s@);
    let ghost q = Seq::new(p.len(), |k: int| if k < p.len() - 1 { strip_last_cr(p[k]) } else { p[k] });
    let mut v: Vec<String> = Vec::new();
    let mut i: usize = 0;
    while i < m - 1
        invariant
            0 <= i <= m - 1,
            m == raw.len(),
            m >= 1,
            raw.deep_view() == p,
            v.deep_view() == q.take(i as int),
            q == Seq::new(p.len(), |k: int| if k < p.len() - 1 { strip_last_cr(p[k]) } else { p[k] }),
        decreases m - 1 - i,
    {
        let li = &raw[i];
        let ln = li.unicode_len();
        let ghost dv0 = v.deep_view();
        proof {
            assert(li@ == p[i as int]);
        }
        if ln > 0 && li.as_str().get_char(ln - 1) == '\r' {
            let stripped = li.as_str().substring_char(0, ln - 1).to_owned();
            proof {
                assert(li@.subrange(0, ln - 1) =~= strip_last_cr(p[i as int]));
            }
            v.push(stripped);
            proof {
                assert(v.deep_view() =~~= dv0.push(strip_last_cr(p[i as int])));
            }
        } else {
            v.push(li.clone());
            proof {
                assert(v.deep_view() =~~= dv0.push(q[i as int]));
            }
        }
        proof {
            assert(v.deep_view() =~~= q.take(i + 1));
        }
        i += 1;
    }
    let last = &raw[m - 1];
    let drop_last_part = last.unicode_len() == 0;
    let ghost dv0 = v.deep_view();
    if !drop_last_part {
        v.push(last.clone());
        proof {
            assert(v.deep_view() =~~= dv0.push(p[m - 1]));
            assert(v.deep_view() =~~= q);
            assert(q.last().len() != 0);
        }
    } else {
        proof {
            assert(v.deep_view() =~~= q.drop_last());
            assert(q.last().len() == 0);
        }
    }
    v
}

/// The lines the layout pass walks, each as a vector of characters: cut at
/// newlines, with a trailing empty part dropped.
pub fn layout_lines_of(s: &str) -> (v: Vec<Vec<char>>)
    ensures
        v.deep_view() == layout_lines(s@),
{
    let raw = split_raw_lines(s);
    let m = raw.len();
    let ghost p = split_nl(s@);
    let keep_last = raw[m - 1].unicode_len() != 0;
    let bound = if keep_last {
        m
    } else {
        m - 1
    };
    let mut v: Vec<Vec<char>> = Vec::new();
    let mut i: usize = 0;
    while i < bound
        invariant
            0 <= i <= bound,
            bound <= m,
            m == raw.len(),
            raw.deep_view() == p,
            v.deep_view() == p.take(i as int),
        decreases bound - i,
    {
        let cs = chars_of(raw[i].as_str());
        let ghost dv0 = v.deep_view();
        proof {
            assert(cs@ == p[i as int]);
            assert(cs.deep_view() =~~= cs@);
        }
        v.push(cs);
        proof {
            assert(v.deep_view() =~~= dv0.push(p[i as int]));
            assert(v.deep_view() =~~= p.take(i + 1));
        }
        i += 1;
    }
    proof {
        if keep_last {
            assert(v.deep_view() =~~= p);
        } else {
            assert(v.deep_view() =~~= p.drop_last());
        }
    }
    v
}

} // verus!
