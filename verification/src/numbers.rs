//! Decimal numerals: the textual form of the `u32` and `i32` component
//! values, and verified parsers for them. A numeral is an optional sign
//! followed by one or more decimal digits, with no other characters, and its
//! value must fit the target type.

use vstd::prelude::*;

verus! {

pub open spec fn is_digit_char(c: char) -> bool {
    48 <= c as u32 && c as u32 <= 57
}

pub open spec fn digit_val(c: char) -> int {
    c as u32 - 48
}

pub open spec fn all_digits(s: Seq<char>) -> bool {
    forall|i: int| 0 <= i < s.len() ==> is_digit_char(#[trigger] s[i])
}

/// The number denoted by a string of decimal digits, most significant first.
pub open spec fn digits_val(s: Seq<char>) -> int
    decreases s.len(),
{
    if s.len() == 0 {
        0
    } else {
        digits_val(s.drop_last()) * 10 + digit_val(s.last())
    }
}

proof fn lemma_digits_val_nonneg(s: Seq<char>)
    requires
        all_digits(s),
    ensures
        digits_val(s) >= 0,
    decreases s.len(),
{
    if s.len() > 0 {
        lemma_digits_val_nonneg(s.drop_last());
    }
}

/// A prefix of a digit string denotes no more than the whole string.
proof fn lemma_digits_val_take_le(s: Seq<char>, i: int)
    requires
        all_digits(s),
        0 <= i <= s.len(),
    ensures
        digits_val(s.take(i)) <= digits_val(s),
    decreases s.len() - i,
{
    if i < s.len() {
        lemma_digits_val_take_le(s, i + 1);
        let t = s.take(i + 1);
        assert(t.drop_last() =~= s.take(i));
        assert(all_digits(s.take(i))) by {
            assert(forall|m: int| 0 <= m < i ==> s.take(i)[m] == s[m]);
        }
        lemma_digits_val_nonneg(s.take(i));
        assert(digits_val(t) == digits_val(s.take(i)) * 10 + digit_val(s[i]));
    } else {
        assert(s.take(i) =~= s);
    }
}

/// The digit part of an unsigned numeral: everything after an optional
/// leading plus sign.
pub open spec fn unsigned_body(s: Seq<char>) -> Seq<char> {
    if s.len() > 0 && s[0] == '+' {
        s.drop_first()
    } else {
        s
    }
}

pub open spec fn is_u32_numeral(s: Seq<char>) -> bool {
    let d = unsigned_body(s);
    d.len() > 0 && all_digits(d) && digits_val(d) <= u32::MAX
}

pub open spec fn u32_numeral_val(s: Seq<char>) -> int {
    digits_val(unsigned_body(s))
}

/// The digit part of a signed numeral: everything after an optional leading
/// plus or minus sign.
pub open spec fn signed_body(s: Seq<char>) -> Seq<char> {
    if s.len() > 0 && (s[0] == '+' || s[0] == '-') {
        s.drop_first()
    } else {
        s
    }
}

pub open spec fn numeral_is_negative(s: Seq<char>) -> bool {
    s.len() > 0 && s[0] == '-'
}

pub open spec fn is_i32_numeral(s: Seq<char>) -> bool {
    let d = signed_body(s);
    d.len() > 0 && all_digits(d) && (if numeral_is_negative(s) {
        digits_val(d) <= 0x8000_0000
    } else {
        digits_val(d) <= 0x7FFF_FFFF
    })
}

pub open spec fn i32_numeral_val(s: Seq<char>) -> int {
    if numeral_is_negative(s) {
        -digits_val(signed_body(s))
    } else {
        digits_val(signed_body(s))
    }
}

/// Parses the accumulated digit run `s[start..]`, whose denoted value must
/// stay at or below `limit`. Shared core of the two numeral parsers.
fn parse_digits(s: &str, start: usize, limit: u64) -> (r: Option<u64>)
    requires
        start <= s@.len(),
        limit <= 0xFFFF_FFFF,
    ensures
        ({
            let d = s@.skip(start as int);
            match r {
                Some(v) => d.len() > 0 && all_digits(d) && digits_val(d) <= limit && v
                    == digits_val(d),
                None => !(d.len() > 0 && all_digits(d) && digits_val(d) <= limit),
            }
        }),
{
    let n = s.unicode_len();
    let ghost d = s@.skip(start as int);
    if start == n {
        return None;
    }
    let mut acc: u64 = 0;
    let mut i: usize = start;
    while i < n
        invariant
            start <= i <= n,
            n == s@.len(),
            d == s@.skip(start as int),
            all_digits(d.take(i - start)),
            acc == digits_val(d.take(i - start)),
            acc <= limit,
            limit <= 0xFFFF_FFFF,
        decreases n - i,
    {
        let c = s.get_char(i);
        let u = c as u32;
        if u < 48 || u > 57 {
            proof {
                assert(d[i - start] == s@[i as int]);
                assert(!is_digit_char(d[i - start]));
            }
            return None;
        }
        let dv = (u - 48) as u64;
        let acc2: u64 = acc * 10 + dv;
        proof {
            let k = i - start;
            let t = d.take(k + 1);
            assert(t.drop_last() =~= d.take(k));
            assert(t.last() == d[k]);
            assert(d[k] == s@[i as int]);
            assert(digits_val(t) == acc * 10 + dv);
            assert(all_digits(t)) by {
                assert(forall|m: int| 0 <= m < k ==> t[m] == d.take(k)[m]);
            }
        }
        if acc2 > limit {
            proof {
                if all_digits(d) {
                    lemma_digits_val_take_le(d, i - start + 1);
                }
            }
            return None;
        }
        acc = acc2;
        i += 1;
    }
    proof {
        assert(d.take(n - start) =~= d);
    }
    Some(acc)
}

/// Parses `s` exactly as `u32`'s own decimal parser does: an optional `+`
/// sign, then decimal digits whose value fits in a `u32`.
pub fn parse_u32_numeral(s: &str) -> (r: Option<u32>)
    ensures
        match r {
            Some(v) => is_u32_numeral(s@) && v == u32_numeral_val(s@),
            None => !is_u32_numeral(s@),
        },
{
    let n = s.unicode_len();
    let start: usize = if n > 0 && s.get_char(0) == '+' {
        1
    } else {
        0
    };
    proof {
        assert(unsigned_body(s@) =~= s@.skip(start as int));
    }
    match parse_digits(s, start, 0xFFFF_FFFF) {
        Some(v) => Some(v as u32),
        None => None,
    }
}

/// Parses `s` exactly as `i32`'s own decimal parser does: an optional `+` or
/// `-` sign, then decimal digits whose signed value fits in an `i32`.
pub fn parse_i32_numeral(s: &str) -> (r: Option<i32>)
    ensures
        match r {
            Some(v) => is_i32_numeral(s@) && v == i32_numeral_val(s@),
            None => !is_i32_numeral(s@),
        },
{
    let n = s.unicode_len();
    let mut negative = false;
    let mut start: usize = 0;
    if n > 0 {
        let c0 = s.get_char(0);
        if c0 == '+' {
            start = 1;
        } else if c0 == '-' {
            negative = true;
            start = 1;
        }
    }
    proof {
        assert(signed_body(s@) =~= s@.skip(start as int));
        assert(negative == numeral_is_negative(s@));
    }
    let limit: u64 = if negative {
        0x8000_0000
    } else {
        0x7FFF_FFFF
    };
    match parse_digits(s, start, limit) {
        Some(v) => {
            if negative {
                Some((-(v as i64)) as i32)
            } else {
                Some(v as i32)
            }
        },
        None => None,
    }
}

} // verus!
