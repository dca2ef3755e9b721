//! The schema version named by a migration, such as
//! `m20250307_104412_window_proxy_manager` for version 20250307104412.
use vstd::prelude::*;
use crate::text::{chars_of, split_chars, split_on};

verus! {

pub open spec fn is_digit(c: char) -> bool {
    '0' <= c && c <= '9'
}

pub open spec fn all_digits(s: Seq<char>) -> bool {
    forall|i: int| 0 <= i < s.len() ==> is_digit(#[trigger] s[i])
}

/// The value of a string of decimal digits.
pub open spec fn digits_value(s: Seq<char>) -> int
    decreases s.len(),
{
    if s.len() == 0 {
        0
    } else {
        10 * digits_value(s.drop_last()) + (s.last() as int - '0' as int)
    }
}

/// `i64::from_str`: an optional `+` or `-`, then at least one decimal digit,
/// with a value that fits in an `i64`.
pub open spec fn parse_i64_spec(s: Seq<char>) -> Option<int> {
    let signed = s.len() > 0 && (s[0] == '+' || s[0] == '-');
    let digits = if signed {
        s.drop_first()
    } else {
        s
    };
    let v = if signed && s[0] == '-' {
        -digits_value(digits)
    } else {
        digits_value(digits)
    };
    if digits.len() > 0 && all_digits(digits) && i64::MIN <= v <= i64::MAX {
        Some(v)
    } else {
        None
    }
}

proof fn lemma_digits_value_nonneg(s: Seq<char>)
    requires
        all_digits(s),
    ensures
        digits_value(s) >= 0,
    decreases s.len(),
{
    if s.len() > 0 {
        assert(all_digits(s.drop_last())) by {
            assert forall|i: int| 0 <= i < s.drop_last().len() implies is_digit(#[trigger] s.drop_last()[i]) by {
                assert(s.drop_last()[i] == s[i]);
            }
        }
        lemma_digits_value_nonneg(s.drop_last());
        assert(is_digit(s[s.len() - 1]));
    }
}

proof fn lemma_digits_value_grows(s: Seq<char>, k: int)
    requires
        all_digits(s),
        0 <= k <= s.len(),
    ensures
        digits_value(s) >= digits_value(s.subrange(0, k)),
    decreases s.len() - k,
{
    if k < s.len() {
        lemma_digits_value_grows(s, k + 1);
        let t = s.subrange(0, k + 1);
        assert(t.drop_last() =~= s.subrange(0, k));
        assert(is_digit(t.last()));
        assert(all_digits(s.subrange(0, k))) by {
            assert forall|i: int| 0 <= i < k implies is_digit(#[trigger] s.subrange(0, k)[i]) by {
                assert(s.subrange(0, k)[i] == s[i]);
            }
        }
        lemma_digits_value_nonneg(s.subrange(0, k));
    } else {
        assert(s.subrange(0, k) =~= s);
    }
}

/// Parses a decimal `i64` as `str::parse::<i64>` does.
pub fn parse_i64(v: &[char]) -> (r: Option<i64>)
    ensures
        match r {
            Some(n) => parse_i64_spec(v@) == Some(n as int),
            None => parse_i64_spec(v@) is None,
        },
{
    let n = v.len();
    let signed = n > 0 && (v[0] == '+' || v[0] == '-');
    let negative = signed && v[0] == '-';
    let start: usize = if signed { 1 } else { 0 };
    let ghost digits = if signed { v@.drop_first() } else { v@ };
    assert(digits =~= v@.subrange(start as int, n as int));
    if start >= n {
        return None;
    }
    let mut acc: i128 = 0;
    let mut i: usize = start;
    let limit: i128 = 0x8000_0000_0000_0000;
    while i < n
        invariant
            n == v@.len(),
            start <= i <= n,
            digits == v@.subrange(start as int, n as int),
            digits == (if v@.len() > 0 && (v@[0] == '+' || v@[0] == '-') {
                v@.drop_first()
            } else {
                v@
            }),
            start == (if v@.len() > 0 && (v@[0] == '+' || v@[0] == '-') {
                1usize
            } else {
                0usize
            }),
            negative == (v@.len() > 0 && v@[0] == '-'),
            all_digits(v@.subrange(start as int, i as int)),
            acc == digits_value(v@.subrange(start as int, i as int)),
            0 <= acc <= limit,
            limit == 0x8000_0000_0000_0000,
        decreases n - i,
    {
        let c = v[i];
        let ghost pre = v@.subrange(start as int, i as int);
        let ghost cur = v@.subrange(start as int, i + 1);
        assert(cur.drop_last() =~= pre);
        assert(cur.last() == c);
        if !('0' <= c && c <= '9') {
            assert(!all_digits(digits)) by {
                assert(digits[i - start] == c);
            }
            return None;
        }
        let d: i128 = (c as u32 - 48) as i128;
        assert(all_digits(cur)) by {
            assert forall|k: int| 0 <= k < cur.len() implies is_digit(#[trigger] cur[k]) by {
                if k < pre.len() {
                    assert(cur[k] == pre[k]);
                }
            }
        }
        acc = 10 * acc + d;
        i = i + 1;
        if acc > limit {
            proof {
                if all_digits(digits) {
                    lemma_digits_value_grows(digits, i - start);
                    assert(digits.subrange(0, i - start) =~= v@.subrange(start as int, i as int));
                }
            }
            return None;
        }
    }
    assert(v@.subrange(start as int, n as int) == digits);
    if negative {
        Some((-acc) as i64)
    } else if acc == limit {
        None
    } else {
        Some(acc as i64)
    }
}

/// The version a migration name gives: the name must start with `m`; the
/// first two `_`-separated pieces after it, joined, are read as an `i64`.
pub open spec fn migration_version_spec(name: Seq<char>) -> Option<int> {
    if name.len() > 0 && name[0] == 'm' {
        let parts = split_on(name.drop_first(), '_');
        if parts.len() >= 2 {
            parse_i64_spec(parts[0] + parts[1])
        } else {
            None
        }
    } else {
        None
    }
}

/// The version a migration name gives, if any.
pub fn migration_version(name: &str) -> (r: Option<i64>)
    ensures
        match r {
            Some(n) => migration_version_spec(name@) == Some(n as int),
            None => migration_version_spec(name@) is None,
        },
{
    let v = chars_of(name);
    if v.len() == 0 || v[0] != 'm' {
        return None;
    }
    let mut rest: Vec<char> = Vec::new();
    let mut i: usize = 1;
    while i < v.len()
        invariant
            1 <= i <= v@.len(),
            rest@ == v@.subrange(1, i as int),
        decreases v@.len() - i,
    {
        rest.push(v[i]);
        i = i + 1;
        assert(rest@ =~= v@.subrange(1, i as int));
    }
    assert(rest@ =~= v@.drop_first());
    let parts = split_chars(rest.as_slice(), '_');
    if parts.len() < 2 {
        return None;
    }
    let mut joined: Vec<char> = Vec::new();
    let mut k: usize = 0;
    while k < parts[0].len()
        invariant
            parts@.len() >= 2,
            k <= parts@[0]@.len(),
            joined@ == parts@[0]@.subrange(0, k as int),
        decreases parts@[0]@.len() - k,
    {
        joined.push(parts[0][k]);
        k = k + 1;
        assert(joined@ =~= parts@[0]@.subrange(0, k as int));
    }
    assert(joined@ =~= parts@[0]@);
    let mut k: usize = 0;
    while k < parts[1].len()
        invariant
            parts@.len() >= 2,
            k <= parts@[1]@.len(),
            joined@ == parts@[0]@ + parts@[1]@.subrange(0, k as int),
        decreases parts@[1]@.len() - k,
    {
        joined.push(parts[1][k]);
        k = k + 1;
        assert(joined@ =~= parts@[0]@ + parts@[1]@.subrange(0, k as int));
    }
    assert(joined@ =~= parts@[0]@ + parts@[1]@);
    parse_i64(joined.as_slice())
}

} // verus!
