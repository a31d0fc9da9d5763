//! Verified character-level string helpers: equality, prefix handling,
//! character search, and decimal parsing of unsigned integers.

use vstd::prelude::*;

verus! {

// --- equality and prefixes --------------------------------------------------

/// Whether the character sequence `s` starts with the prefix `p`.
pub open spec fn spec_starts_with(s: Seq<char>, p: Seq<char>) -> bool {
    p.len() <= s.len() && s.subrange(0, p.len() as int) == p
}

/// Character-by-character equality of two string slices.
pub fn str_eq(a: &str, b: &str) -> (r: bool)
    ensures
        r == (a@ == b@),
{
    let alen = a.unicode_len();
    let blen = b.unicode_len();
    if alen != blen {
        assert(a@ != b@) by {
            assert(a@.len() != b@.len());
        }
        return false;
    }
    let mut i: usize = 0;
    while i < alen
        invariant
            alen == a@.len(),
            alen == b@.len(),
            i <= alen,
            forall|j: int| 0 <= j < i ==> a@[j] == b@[j],
        decreases alen - i,
    {
        if a.get_char(i) != b.get_char(i) {
            return false;
        }
        i = i + 1;
    }
    assert(a@ =~= b@);
    true
}

/// Whether `s` starts with `p`, decided character by character.
pub fn starts_with(s: &str, p: &str) -> (r: bool)
    ensures
        r == spec_starts_with(s@, p@),
{
    let slen = s.unicode_len();
    let plen = p.unicode_len();
    if plen > slen {
        return false;
    }
    let mut i: usize = 0;
    while i < plen
        invariant
            slen == s@.len(),
            plen == p@.len(),
            plen <= slen,
            i <= plen,
            forall|j: int| 0 <= j < i ==> s@[j] == p@[j],
        decreases plen - i,
    {
        if s.get_char(i) != p.get_char(i) {
            assert(!spec_starts_with(s@, p@)) by {
                assert(s@.subrange(0, p@.len() as int)[i as int] != p@[i as int]);
            }
            return false;
        }
        i = i + 1;
    }
    assert(s@.subrange(0, p@.len() as int) =~= p@);
    true
}

/// Removes the prefix `p` from `s`, or reports that `s` does not start
/// with `p`.
pub fn strip_prefix(s: &str, p: &str) -> (r: Option<String>)
    ensures
        match r {
            Some(t) => spec_starts_with(s@, p@) && t@ == s@.skip(p@.len() as int),
            None => !spec_starts_with(s@, p@),
        },
{
    if starts_with(s, p) {
        let suffix = s.substring_char(p.unicode_len(), s.unicode_len());
        Some(suffix.to_owned())
    } else {
        None
    }
}

// --- character search -------------------------------------------------------

/// Position of the first occurrence of `c` in `s`, if any.
pub open spec fn spec_find_char(s: Seq<char>, c: char) -> Option<int>
    decreases s.len(),
{
    if s.len() == 0 {
        None
    } else if s[0] == c {
        Some(0)
    } else {
        match spec_find_char(s.drop_first(), c) {
            Some(i) => Some(i + 1),
            None => None,
        }
    }
}

/// `spec_find_char` returns exactly the first index holding `c`.
pub proof fn lemma_find_char_characterization(s: Seq<char>, c: char)
    ensures
        match spec_find_char(s, c) {
            Some(i) => 0 <= i < s.len() && s[i] == c && (forall|j: int| 0 <= j < i ==> s[j] != c),
            None => forall|j: int| 0 <= j < s.len() ==> s[j] != c,
        },
    decreases s.len(),
{
    if s.len() > 0 && s[0] != c {
        let rest = s.drop_first();
        lemma_find_char_characterization(rest, c);
        assert(forall|j: int| 0 < j < s.len() ==> s[j] == #[trigger] rest[j - 1]);
        match spec_find_char(rest, c) {
            Some(i) => {
                assert(spec_find_char(s, c) == Some(i + 1));
                assert(s[i + 1] == rest[i]);
                assert forall|j: int| 0 <= j < i + 1 implies s[j] != c by {
                    if j > 0 {
                        assert(s[j] == rest[j - 1]);
                    }
                }
            },
            None => {
                assert forall|j: int| 0 <= j < s.len() implies s[j] != c by {
                    if j > 0 {
                        assert(s[j] == rest[j - 1]);
                    }
                }
            },
        }
    }
}

/// Finds the first occurrence of the character `c` in `s`.
pub fn find_char(s: &str, c: char) -> (r: Option<usize>)
    ensures
        match r {
            Some(i) => spec_find_char(s@, c) == Some(i as int),
            None => spec_find_char(s@, c) is None,
        },
{
    proof {
        lemma_find_char_characterization(s@, c);
    }
    let n = s.unicode_len();
    let mut i: usize = 0;
    while i < n
        invariant
            n == s@.len(),
            i <= n,
            forall|j: int| 0 <= j < i ==> s@[j] != c,
        decreases n - i,
    {
        if s.get_char(i) == c {
            proof {
                lemma_find_char_characterization(s@, c);
                if spec_find_char(s@, c) is None {
                    assert(false);
                }
                let k = spec_find_char(s@, c)->Some_0;
                assert(k == i as int) by {
                    if k < i as int {
                        assert(s@[k] != c);
                    }
                    if k > i as int {
                        assert(s@[i as int] != c);
                    }
                }
            }
            return Some(i);
        }
        i = i + 1;
    }
    proof {
        lemma_find_char_characterization(s@, c);
        match spec_find_char(s@, c) {
            Some(k) => {
                assert(s@[k] == c);
                assert(false);
            },
            None => {},
        }
    }
    None
}

// --- leading-character trimming ---------------------------------------------

/// `s` with every leading occurrence of `c` removed.
pub open spec fn spec_trim_leading(s: Seq<char>, c: char) -> Seq<char>
    decreases s.len(),
{
    if s.len() > 0 && s[0] == c {
        spec_trim_leading(s.drop_first(), c)
    } else {
        s
    }
}

proof fn lemma_trim_leading_skip(s: Seq<char>, c: char, j: int)
    requires
        0 <= j <= s.len(),
        forall|k: int| 0 <= k < j ==> s[k] == c,
        j == s.len() || s[j] != c,
    ensures
        spec_trim_leading(s, c) == s.skip(j),
    decreases j,
{
    if j == 0 {
        assert(s.skip(0) =~= s);
    } else {
        lemma_trim_leading_skip(s.drop_first(), c, j - 1);
        assert(s.drop_first().skip(j - 1) =~= s.skip(j));
    }
}

/// Removes every leading occurrence of `c` from `s`.
pub fn trim_leading<'a>(s: &'a str, c: char) -> (r: &'a str)
    ensures
        r@ == spec_trim_leading(s@, c),
{
    let n = s.unicode_len();
    let mut j: usize = 0;
    while j < n && s.get_char(j) == c
        invariant
            n == s@.len(),
            j <= n,
            forall|k: int| 0 <= k < j ==> s@[k] == c,
        decreases n - j,
    {
        j = j + 1;
    }
    proof {
        lemma_trim_leading_skip(s@, c, j as int);
    }
    let r = s.substring_char(j, n);
    assert(r@ =~= s@.skip(j as int));
    r
}

// --- decimal unsigned integers ------------------------------------------------

/// Whether `c` is a decimal digit.
pub open spec fn spec_is_digit(c: char) -> bool {
    48 <= c as u32 && c as u32 <= 57
}

/// Numeric value of the digit `c`.
pub open spec fn spec_digit_val(c: char) -> int {
    c as u32 - 48
}

/// Whether every character of `s` is a decimal digit.
pub open spec fn spec_all_digits(s: Seq<char>) -> bool {
    forall|i: int| 0 <= i < s.len() ==> spec_is_digit(#[trigger] s[i])
}

/// Numeric value of a sequence of decimal digits, most significant first.
pub open spec fn spec_digits_value(s: Seq<char>) -> int
    decreases s.len(),
{
    if s.len() == 0 {
        0
    } else {
        spec_digits_value(s.drop_last()) * 10 + spec_digit_val(s.last())
    }
}

/// The digit portion of a decimal literal: everything after one optional
/// leading `'+'`.
pub open spec fn spec_uint_digits(s: Seq<char>) -> Seq<char> {
    if s.len() > 0 && s[0] == '+' {
        s.drop_first()
    } else {
        s
    }
}

/// Value of `s` read as a decimal unsigned integer the way the standard
/// library reads one: an optional leading `'+'`, then at least one decimal
/// digit; anything else is rejected. The value itself is unbounded here;
/// width bounds are applied by the callers.
pub open spec fn spec_parse_uint(s: Seq<char>) -> Option<int> {
    let d = spec_uint_digits(s);
    if d.len() > 0 && spec_all_digits(d) {
        Some(spec_digits_value(d))
    } else {
        None
    }
}

proof fn lemma_mul10_bounds(acc: int, dv: int, m: int)
    by (nonlinear_arith)
    requires
        0 <= dv <= 9,
        0 <= acc,
        dv <= m,
    ensures
        acc > (m - dv) / 10 ==> acc * 10 + dv > m,
        acc <= (m - dv) / 10 ==> acc * 10 + dv <= m,
{
}

/// Parses `s` as a decimal unsigned integer no greater than `max`, exactly
/// when `spec_parse_uint` accepts `s` with a value within that bound.
pub fn parse_uint(s: &str, max: u64) -> (r: Option<u64>)
    ensures
        match r {
            Some(u) => spec_parse_uint(s@) == Some(u as int) && u <= max,
            None => match spec_parse_uint(s@) {
                Some(v) => v > max as int,
                None => true,
            },
        },
{
    let n = s.unicode_len();
    let start: usize = if n > 0 && s.get_char(0) == '+' {
        1
    } else {
        0
    };
    let ghost d = spec_uint_digits(s@);
    proof {
        assert(d =~= s@.skip(start as int));
    }
    if start >= n {
        assert(d.len() == 0);
        return None;
    }
    let mut i: usize = start;
    let mut acc: u64 = 0;
    let mut over: bool = false;
    while i < n
        invariant
            n == s@.len(),
            start <= i <= n,
            start < n,
            d == spec_uint_digits(s@),
            d =~= s@.skip(start as int),
            forall|j: int| 0 <= j < i - start ==> spec_is_digit(#[trigger] d[j]),
            !over ==> acc as int == spec_digits_value(d.take(i - start)),
            over ==> spec_digits_value(d.take(i - start)) > u64::MAX as int,
        decreases n - i,
    {
        let c = s.get_char(i);
        let code = c as u32;
        proof {
            assert(d[i - start] == s@[i as int]);
        }
        if code < 48 || code > 57 {
            assert(!spec_is_digit(d[i - start]));
            assert(spec_parse_uint(s@) is None);
            return None;
        }
        let dv = (code - 48) as u64;
        let ghost prefix = d.take(i - start);
        proof {
            assert(d.take(i + 1 - start).drop_last() =~= prefix);
            assert(d.take(i + 1 - start).last() == d[i - start]);
            assert(spec_digits_value(d.take(i + 1 - start)) == spec_digits_value(prefix) * 10
                + spec_digit_val(d[i - start]));
        }
        if over {
            proof {
                lemma_mul10_bounds(spec_digits_value(prefix), dv as int, u64::MAX as int);
                assert(spec_digits_value(prefix) * 10 + dv as int > u64::MAX as int) by {
                    assert(spec_digits_value(prefix) > u64::MAX as int);
                    assert(spec_digits_value(prefix) * 10 >= spec_digits_value(prefix)) by (nonlinear_arith)
                        requires spec_digits_value(prefix) >= 0;
                }
            }
        } else if acc > (u64::MAX - dv) / 10 {
            proof {
                lemma_mul10_bounds(acc as int, dv as int, u64::MAX as int);
            }
            over = true;
        } else {
            proof {
                lemma_mul10_bounds(acc as int, dv as int, u64::MAX as int);
            }
            acc = acc * 10 + dv;
        }
        i = i + 1;
    }
    proof {
        assert(d.take(i - start) =~= d);
        assert(spec_parse_uint(s@) == Some(spec_digits_value(d)));
    }
    if over {
        return None;
    }
    if acc <= max {
        Some(acc)
    } else {
        None
    }
}

} // verus!
