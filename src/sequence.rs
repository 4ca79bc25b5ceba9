//! Integer columns that share state across rows: incrementing sequences and
//! the `(lower-upper)` range modifier.

use vstd::prelude::*;
use crate::error::DataError;
use crate::text::{
    chars_of, is_digit, is_digit_char, parse_i32_of, parsed_i32, skip_spaces, skip_spaces_from,
};

verus! {

/// `n` consecutive integers starting at `start`.
pub open spec fn incr_seq(start: int, n: nat) -> Seq<i32> {
    Seq::new(n, |k: int| (start + k) as i32)
}

/// Exactly `size` integers `start, start + 1, ...` (none when `size <= 0`).
/// A declared end that undershoots or overshoots does not change the result.
pub fn build_incremental_int(size: i32, start: i32, _end: i32) -> (r: Vec<i32>)
    requires
        size <= 0 || start + size <= i32::MAX + 1,
    ensures
        r@ == incr_seq(start as int, if size > 0 { size as nat } else { 0 }),
{
    let mut r: Vec<i32> = Vec::new();
    if size <= 0 {
        assert(r@ =~= incr_seq(start as int, 0));
        return r;
    }
    let mut k: i32 = 0;
    while k < size
        invariant
            0 <= k <= size,
            start + size <= i32::MAX + 1,
            r@ =~= incr_seq(start as int, k as nat),
        decreases size - k,
    {
        r.push(start + k);
        k += 1;
    }
    r
}

/// Index of the first non-digit at or after `i`.
pub open spec fn digits_end(s: Seq<char>, i: int) -> int
    decreases s.len() - i,
{
    if 0 <= i < s.len() && is_digit(s[i]) {
        digits_end(s, i + 1)
    } else {
        i
    }
}

/// End of an optionally negative run of digits starting at `i`, if there is one.
pub open spec fn signed_end(s: Seq<char>, i: int) -> Option<int> {
    let d = if 0 <= i < s.len() && s[i] == '-' { i + 1 } else { i };
    let e = digits_end(s, d);
    if e > d {
        Some(e)
    } else {
        None
    }
}

/// Bounds of the two numbers of `(lower - upper)` written at `p`, spaces
/// allowed around the middle dash.
pub open spec fn range_match_at(s: Seq<char>, p: int) -> Option<(int, int, int, int)> {
    if 0 <= p < s.len() && s[p] == '(' {
        match signed_end(s, p + 1) {
            Some(a) => {
                let b = skip_spaces(s, a);
                if b < s.len() && s[b] == '-' {
                    let c = skip_spaces(s, b + 1);
                    match signed_end(s, c) {
                        Some(d) => if d < s.len() && s[d] == ')' {
                            Some((p + 1, a, c, d))
                        } else {
                            None
                        },
                        None => None,
                    }
                } else {
                    None
                }
            },
            None => None,
        }
    } else {
        None
    }
}

/// The leftmost range written at or after `p`.
pub open spec fn first_range_match(s: Seq<char>, p: int) -> Option<(int, int, int, int)>
    decreases s.len() - p,
{
    if 0 <= p < s.len() {
        match range_match_at(s, p) {
            Some(m) => Some(m),
            None => first_range_match(s, p + 1),
        }
    } else {
        None
    }
}

/// The bounds of the leftmost range in `s`, when both fit in an `i32`.
pub open spec fn range_spec(s: Seq<char>) -> Option<(i32, i32)> {
    match first_range_match(s, 0) {
        Some((a, b, c, d)) => match (parsed_i32(s.subrange(a, b)), parsed_i32(s.subrange(c, d))) {
            (Some(l), Some(u)) => Some((l, u)),
            _ => None,
        },
        None => None,
    }
}

fn digits_end_from(v: &Vec<char>, i: usize) -> (r: usize)
    requires
        i <= v@.len(),
    ensures
        r == digits_end(v@, i as int),
        i <= r <= v@.len(),
{
    let mut j = i;
    while j < v.len() && is_digit_char(v[j])
        invariant
            i <= j <= v@.len(),
            digits_end(v@, i as int) == digits_end(v@, j as int),
        decreases v@.len() - j,
    {
        j += 1;
    }
    j
}

pub fn signed_end_from(v: &Vec<char>, i: usize) -> (r: Option<usize>)
    requires
        i <= v@.len(),
    ensures
        match signed_end(v@, i as int) {
            Some(e) => r == Some(e as usize) && i < e <= v@.len(),
            None => r is None,
        },
{
    let d = if i < v.len() && v[i] == '-' { i + 1 } else { i };
    let e = digits_end_from(v, d);
    if e > d {
        Some(e)
    } else {
        None
    }
}

fn range_match_from(v: &Vec<char>, p: usize) -> (r: Option<(usize, usize, usize, usize)>)
    requires
        p < v@.len(),
    ensures
        match range_match_at(v@, p as int) {
            Some((a, b, c, d)) => r == Some((a as usize, b as usize, c as usize, d as usize))
                && a <= b <= c <= d <= v@.len(),
            None => r is None,
        },
{
    let n = v.len();
    assert(v@.subrange(0, n as int) =~= v@);
    if v[p] != '(' {
        return None;
    }
    let a = match signed_end_from(v, p + 1) {
        Some(a) => a,
        None => return None,
    };
    let b = skip_spaces_from(v, a, n);
    if !(b < n && v[b] == '-') {
        return None;
    }
    let c = skip_spaces_from(v, b + 1, n);
    let d = match signed_end_from(v, c) {
        Some(d) => d,
        None => return None,
    };
    if d < n && v[d] == ')' {
        Some((p + 1, a, c, d))
    } else {
        None
    }
}

/// The bounds of the leftmost `(lower-upper)` in `range_str`, either bound
/// possibly negative and spaces allowed around the middle dash.
pub fn parse_range_string(range_str: &str) -> (r: Result<(i32, i32), DataError>)
    ensures
        match range_spec(range_str@) {
            Some(b) => r == Ok::<(i32, i32), DataError>(b),
            None => r == Err::<(i32, i32), DataError>(DataError::RangeParse),
        },
{
    let v = chars_of(range_str);
    let n = v.len();
    let mut p: usize = 0;
    while p < n
        invariant
            n == v@.len(),
            v@ == range_str@,
            p <= n,
            first_range_match(v@, 0) == first_range_match(v@, p as int),
        decreases n - p,
    {
        match range_match_from(&v, p) {
            Some((a, b, c, d)) => {
                let lower = parse_i32_of(&v, a, b);
                let upper = parse_i32_of(&v, c, d);
                return match (lower, upper) {
                    (Some(l), Some(u)) => Ok((l, u)),
                    _ => Err(DataError::RangeParse),
                };
            },
            None => {},
        }
        p += 1;
    }
    Err(DataError::RangeParse)
}

} // verus!
