//! Byte-level text helpers: ASCII case folding, substring search, and exact
//! decimal parsing, each with a specification that pins the result.

use vstd::prelude::*;

verus! {

/// ASCII lower-casing of a single byte: `'A'..'Z'` map to `'a'..'z'`.
pub open spec fn lower_byte(b: u8) -> u8 {
    if 65 <= b && b <= 90 {
        (b + 32) as u8
    } else {
        b
    }
}

/// ASCII lower-casing of a byte sequence.
pub open spec fn lower_bytes(s: Seq<u8>) -> Seq<u8> {
    s.map_values(|b: u8| lower_byte(b))
}

/// Lower-cases the ASCII letters of `s`, leaving every other byte unchanged.
pub fn to_lower(s: &[u8]) -> (r: Vec<u8>)
    ensures
        r@ == lower_bytes(s@),
{
    let mut out: Vec<u8> = Vec::new();
    let mut i: usize = 0;
    while i < s.len()
        invariant
            i <= s@.len(),
            out@.len() == i,
            forall|j: int| 0 <= j < i ==> out@[j] == lower_byte(s@[j]),
        decreases s@.len() - i,
    {
        let b: u8 = s[i];
        if 65 <= b && b <= 90 {
            out.push(b + 32);
        } else {
            out.push(b);
        }
        i += 1;
    }
    proof {
        assert(out@ =~= lower_bytes(s@));
    }
    out
}

/// The needle `n` occurs in `h` starting at index `i`.
pub open spec fn occurs_at(h: Seq<u8>, n: Seq<u8>, i: int) -> bool {
    &&& 0 <= i
    &&& i + n.len() <= h.len()
    &&& h.subrange(i, i + n.len() as int) == n
}

/// The needle `n` occurs somewhere in `h`.
pub open spec fn contains_bytes_spec(h: Seq<u8>, n: Seq<u8>) -> bool {
    exists|i: int| occurs_at(h, n, i)
}

fn occurs_at_exec(h: &[u8], n: &[u8], i: usize) -> (r: bool)
    requires
        i + n@.len() <= h@.len(),
    ensures
        r == occurs_at(h@, n@, i as int),
{
    let hlen: usize = h.len();
    let mut j: usize = 0;
    while j < n.len()
        invariant
            j <= n@.len(),
            i + n@.len() <= h@.len(),
            h@.len() == hlen,
            forall|k: int| 0 <= k < j ==> h@[i + k] == n@[k],
        decreases n@.len() - j,
    {
        if h[i + j] != n[j] {
            proof {
                assert(h@.subrange(i as int, i + n@.len() as int)[j as int] == h@[i + j]);
            }
            return false;
        }
        j += 1;
    }
    proof {
        assert(h@.subrange(i as int, i + n@.len() as int) =~= n@);
    }
    true
}

/// Substring search: whether `n` occurs anywhere in `h`.
pub fn contains_bytes(h: &[u8], n: &[u8]) -> (r: bool)
    ensures
        r == contains_bytes_spec(h@, n@),
{
    if n.len() > h.len() {
        return false;
    }
    if n.len() == 0 {
        proof {
            assert(occurs_at(h@, n@, 0)) by {
                assert(h@.subrange(0, 0) =~= n@);
            }
        }
        return true;
    }
    let bound: usize = h.len() - n.len();
    let mut i: usize = 0;
    while i <= bound
        invariant
            1 <= n@.len() <= h@.len(),
            h@.len() <= usize::MAX,
            bound == h@.len() - n@.len(),
            i <= bound + 1,
            forall|k: int| 0 <= k < i ==> !occurs_at(h@, n@, k),
        decreases bound + 1 - i,
    {
        if occurs_at_exec(h, n, i) {
            return true;
        }
        i += 1;
    }
    false
}

/// A decimal digit byte.
pub open spec fn is_digit(b: u8) -> bool {
    48 <= b && b <= 57
}

/// The numeric value of the digit run `s[from..to]`, most significant first.
pub open spec fn digits_value(s: Seq<u8>, from: int, to: int) -> int
    decreases to - from,
{
    if to <= from {
        0
    } else {
        digits_value(s, from, to - 1) * 10 + (s[to - 1] - 48)
    }
}

/// The numeric value of the digit run `s[from..to]`, except that once the
/// accumulated prefix reaches `cap` the remaining digits are ignored.
pub open spec fn digits_value_sat(s: Seq<u8>, from: int, to: int, cap: int) -> int
    decreases to - from,
{
    if to <= from {
        0
    } else {
        let prev = digits_value_sat(s, from, to - 1, cap);
        if prev >= cap {
            prev
        } else {
            prev * 10 + (s[to - 1] - 48)
        }
    }
}

/// Every byte of `s[from..to]` is a decimal digit.
pub open spec fn all_digits(s: Seq<u8>, from: int, to: int) -> bool {
    forall|k: int| from <= k < to ==> is_digit(#[trigger] s[k])
}

/// The saturating digit value agrees with the exact one below the cap, stays
/// at or above the cap whenever the exact value does, and is bounded.
pub proof fn lemma_digits_value_sat(s: Seq<u8>, from: int, to: int, cap: int)
    requires
        1 <= cap,
        from <= to,
        all_digits(s, from, to),
    ensures
        0 <= digits_value_sat(s, from, to, cap),
        digits_value_sat(s, from, to, cap) < cap * 10,
        digits_value(s, from, to) < cap ==> digits_value_sat(s, from, to, cap) == digits_value(
            s,
            from,
            to,
        ),
        digits_value(s, from, to) >= cap ==> digits_value_sat(s, from, to, cap) >= cap,
        0 <= digits_value(s, from, to),
    decreases to - from,
{
    if to <= from {
    } else {
        lemma_digits_value_sat(s, from, to - 1, cap);
        let prev = digits_value_sat(s, from, to - 1, cap);
        let prev_exact = digits_value(s, from, to - 1);
        assert(is_digit(s[to - 1]));
        if prev_exact < cap {
            assert(prev == prev_exact);
        }
        assert(digits_value(s, from, to) >= digits_value(s, from, to - 1)) by {
            assert(digits_value(s, from, to) == prev_exact * 10 + (s[to - 1] - 48));
            assert(prev_exact * 10 >= prev_exact) by (nonlinear_arith)
                requires prev_exact >= 0;
        }
        if prev < cap {
            assert(prev * 10 + (s[to - 1] - 48) < cap * 10) by (nonlinear_arith)
                requires prev <= cap - 1, 0 <= s[to - 1] - 48 <= 9;
        }
    }
}

/// The shape that integer parsing accepts: an optional sign byte followed by
/// at least one digit, and nothing else.
pub open spec fn int_text_shape(s: Seq<u8>) -> bool {
    &&& s.len() >= 1
    &&& {
        let start: int = if s[0] == 43 || s[0] == 45 {
            1
        } else {
            0
        };
        s.len() > start && all_digits(s, start, s.len() as int)
    }
}

/// The signed value of integer text, unbounded.
pub open spec fn int_text_value(s: Seq<u8>) -> int {
    let start: int = if s[0] == 43 || s[0] == 45 {
        1
    } else {
        0
    };
    let mag = digits_value(s, start, s.len() as int);
    if s[0] == 45 {
        -mag
    } else {
        mag
    }
}

/// A 32-bit parse of integer text: defined exactly when the text has the
/// sign-and-digits shape and its value fits the type.
pub open spec fn parse_i32_spec(s: Seq<u8>) -> Option<int> {
    if int_text_shape(s) && -2147483648 <= int_text_value(s) <= 2147483647 {
        Some(int_text_value(s))
    } else {
        None
    }
}

/// Parses signed 32-bit integer text, rejecting malformed shapes and values
/// out of range.
pub fn parse_i32(s: &Vec<u8>) -> (r: Option<i32>)
    ensures
        r is Some <==> parse_i32_spec(s@) is Some,
        r matches Some(v) ==> parse_i32_spec(s@) == Some(v as int),
{
    let n: usize = s.len();
    if n == 0 {
        return None;
    }
    let first: u8 = s[0];
    let neg: bool = first == 45;
    let start: usize = if first == 43 || first == 45 {
        1
    } else {
        0
    };
    if start >= n {
        return None;
    }
    let mut mag: i64 = 0;
    let mut k: usize = start;
    while k < n
        invariant
            start <= k <= n,
            n == s@.len(),
            1 <= n,
            start == (if s@[0] == 43 || s@[0] == 45 {
                1int
            } else {
                0int
            }),
            all_digits(s@, start as int, k as int),
            mag == digits_value_sat(s@, start as int, k as int, 3_000_000_000),
            0 <= mag < 30_000_000_000,
        decreases n - k,
    {
        let b: u8 = s[k];
        if !(48 <= b && b <= 57) {
            proof {
                assert(!is_digit(s@[k as int]));
            }
            return None;
        }
        if mag < 3_000_000_000 {
            mag = mag * 10 + ((b - 48) as i64);
        }
        k += 1;
    }
    proof {
        lemma_digits_value_sat(s@, start as int, n as int, 3_000_000_000);
    }
    if neg {
        if mag <= 2147483648 {
            Some((-mag) as i32)
        } else {
            None
        }
    } else {
        if mag <= 2147483647 {
            Some(mag as i32)
        } else {
            None
        }
    }
}

} // verus!
