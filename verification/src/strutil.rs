//! Small verified string utilities used across the library: prefix and
//! suffix tests, digit runs, and decimal parsing of content lengths.

use vstd::prelude::*;

verus! {

/// `p` is a prefix of `s`.
pub open spec fn spec_starts_with(s: Seq<char>, p: Seq<char>) -> bool {
    p.len() <= s.len() && s.subrange(0, p.len() as int) == p
}

/// `p` is a suffix of `s`.
pub open spec fn spec_ends_with(s: Seq<char>, p: Seq<char>) -> bool {
    p.len() <= s.len() && s.subrange(s.len() - p.len(), s.len() as int) == p
}

/// Whether `c` is a decimal digit.
pub open spec fn is_digit(c: char) -> bool {
    '0' <= c && c <= '9'
}

/// The value of the decimal digit `c`.
pub open spec fn digit_val(c: char) -> int {
    c as int - '0' as int
}

/// Every character of `s` is a decimal digit.
pub open spec fn all_digits(s: Seq<char>) -> bool {
    forall|i: int| 0 <= i < s.len() ==> is_digit(#[trigger] s[i])
}

/// The number denoted by the digit string `s` (0 when `s` is empty).
pub open spec fn digits_val(s: Seq<char>) -> int
    decreases s.len(),
{
    if s.len() == 0 {
        0
    } else {
        digits_val(s.drop_last()) * 10 + digit_val(s.last())
    }
}

/// A digit string denotes a non-negative number.
pub proof fn lemma_digits_val_nonneg(s: Seq<char>)
    requires
        all_digits(s),
    ensures
        digits_val(s) >= 0,
    decreases s.len(),
{
    if s.len() > 0 {
        assert(all_digits(s.drop_last())) by {
            assert(forall|i: int|
                0 <= i < s.len() - 1 ==> is_digit(#[trigger] s.drop_last()[i]) == is_digit(s[i]));
        }
        lemma_digits_val_nonneg(s.drop_last());
    }
}

/// Extending a digit string on the right can only increase its value.
pub proof fn lemma_digits_val_prefix_le(s: Seq<char>, n: int)
    requires
        all_digits(s),
        0 <= n <= s.len(),
    ensures
        digits_val(s.subrange(0, n)) <= digits_val(s),
    decreases s.len() - n,
{
    if n < s.len() {
        let t = s.subrange(0, n + 1);
        assert(t.drop_last() =~= s.subrange(0, n));
        assert(all_digits(t));
        lemma_digits_val_nonneg(s.subrange(0, n));
        assert(digits_val(t) == digits_val(s.subrange(0, n)) * 10 + digit_val(t.last()));
        assert(digits_val(s.subrange(0, n)) * 10 >= digits_val(s.subrange(0, n))) by (nonlinear_arith)
            requires digits_val(s.subrange(0, n)) >= 0;
        lemma_digits_val_prefix_le(s, n + 1);
    } else {
        assert(s.subrange(0, n) =~= s);
    }
}

/// Whether `s` starts with the prefix `prefix`, compared character by
/// character.
pub fn str_starts_with(s: &str, prefix: &str) -> (r: bool)
    ensures
        r == spec_starts_with(s@, prefix@),
{
    let n: usize = prefix.unicode_len();
    let m: usize = s.unicode_len();
    if n > m {
        return false;
    }
    let mut i: usize = 0;
    while i < n
        invariant
            i <= n <= m,
            n == prefix@.len(),
            m == s@.len(),
            forall|j: int| 0 <= j < i ==> s@[j] == prefix@[j],
        decreases n - i,
    {
        if s.get_char(i) != prefix.get_char(i) {
            proof {
                assert(s@.subrange(0, n as int)[i as int] == s@[i as int]);
            }
            return false;
        }
        i += 1;
    }
    proof {
        assert(s@.subrange(0, n as int) =~= prefix@);
    }
    true
}

/// Whether `s` ends with the suffix `suffix`, compared character by
/// character.
pub fn str_ends_with(s: &str, suffix: &str) -> (r: bool)
    ensures
        r == spec_ends_with(s@, suffix@),
{
    let n: usize = suffix.unicode_len();
    let m: usize = s.unicode_len();
    if n > m {
        return false;
    }
    let off: usize = m - n;
    let mut i: usize = 0;
    while i < n
        invariant
            i <= n <= m,
            n == suffix@.len(),
            m == s@.len(),
            off == m - n,
            forall|j: int| 0 <= j < i ==> s@[off + j] == suffix@[j],
        decreases n - i,
    {
        if s.get_char(off + i) != suffix.get_char(i) {
            proof {
                assert(s@.subrange(off as int, m as int)[i as int] == s@[off + i]);
            }
            return false;
        }
        i += 1;
    }
    proof {
        assert(s@.subrange(off as int, m as int) =~= suffix@);
    }
    true
}

/// Whether `s` and `t` hold the same characters.
pub fn str_eq(s: &str, t: &str) -> (r: bool)
    ensures
        r == (s@ == t@),
{
    let m: usize = s.unicode_len();
    let n: usize = t.unicode_len();
    if m != n {
        return false;
    }
    let b = str_starts_with(s, t);
    proof {
        if b {
            assert(s@.subrange(0, n as int) =~= s@);
        } else {
            if s@ == t@ {
                assert(s@.subrange(0, n as int) =~= t@);
            }
        }
    }
    b
}

/// The digit part of a content-length header value: an optional single
/// leading `+` sign is tolerated, as the decimal parser of the standard
/// library tolerates it.
pub open spec fn content_len_digits(s: Seq<char>) -> Seq<char> {
    if s.len() > 0 && s[0] == '+' {
        s.drop_first()
    } else {
        s
    }
}

/// A content-length header value is valid when its digit part is a
/// non-empty string of decimal digits whose value fits in a `u64`.
pub open spec fn is_valid_content_len(s: Seq<char>) -> bool {
    let d = content_len_digits(s);
    d.len() > 0 && all_digits(d) && digits_val(d) <= u64::MAX
}

/// Parses a decimal `u64` from `s`, tolerating one leading `+` sign.
/// Returns `None` when `s` is empty, contains a non-digit, or denotes a
/// value that does not fit in a `u64`.
pub fn parse_u64(s: &str) -> (r: Option<u64>)
    ensures
        r is Some <==> is_valid_content_len(s@),
        r matches Some(v) ==> v == digits_val(content_len_digits(s@)),
{
    let m: usize = s.unicode_len();
    let start: usize = if m > 0 && s.get_char(0) == '+' {
        1
    } else {
        0
    };
    let ghost d = content_len_digits(s@);
    proof {
        assert(d =~= s@.subrange(start as int, m as int));
    }
    if start >= m {
        return None;
    }
    let mut acc: u64 = 0;
    let mut i: usize = start;
    while i < m
        invariant
            start <= i <= m,
            m == s@.len(),
            start < m,
            d == content_len_digits(s@),
            d == s@.subrange(start as int, m as int),
            all_digits(d.subrange(0, i - start)),
            acc == digits_val(d.subrange(0, i - start)),
        decreases m - i,
    {
        let c = s.get_char(i);
        if c < '0' || c > '9' {
            proof {
                assert(0 <= i - start < d.len());
                assert(d[i - start] == s@[i as int]);
                assert(!is_digit(d[i - start]));
                assert(!all_digits(d));
            }
            return None;
        }
        let dv: u64 = (c as u32 - '0' as u32) as u64;
        let ghost prefix = d.subrange(0, i - start);
        let ghost prefix1 = d.subrange(0, i + 1 - start);
        proof {
            assert(prefix1.drop_last() =~= prefix);
            assert(d[i - start] == s@[i as int]);
            assert(prefix1.last() == d[i - start]);
            assert(is_digit(d[i - start]));
            assert(all_digits(prefix1)) by {
                assert(forall|j: int|
                    0 <= j < prefix1.len() - 1 ==> #[trigger] prefix1[j] == prefix[j]);
            }
            assert(digit_val(d[i - start]) == dv as int);
            assert(digits_val(prefix1) == digits_val(prefix) * 10 + digit_val(d[i - start]));
        }
        let step = match acc.checked_mul(10) {
            Some(t) => t.checked_add(dv),
            None => None,
        };
        match step {
            Some(next) => {
                acc = next;
            },
            None => {
                // The digits seen so far already overflow; the whole digit
                // string can only denote a larger value.
                proof {
                    assert(digits_val(prefix1) > u64::MAX);
                    if all_digits(d) {
                        lemma_digits_val_prefix_le(d, i + 1 - start);
                        assert(digits_val(d) > u64::MAX);
                    }
                    assert(!is_valid_content_len(s@));
                }
                return None;
            },
        }
        i += 1;
    }
    proof {
        assert(d.subrange(0, m - start) =~= d);
    }
    Some(acc)
}

} // verus!
