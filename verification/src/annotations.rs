//! Extraction of win-probability annotations from free-text move comments.
//!
//! A comment is lower-cased and scanned for two bracketed evaluation
//! patterns: a decimal engine score (an optional minus sign, digits, and an
//! optional fractional part) and a forced-mate marker (a hash, an optional
//! minus sign, and digits). The first occurrence of each contributes one
//! probability, the decimal score through the logistic squashing and the
//! mate marker as a degenerate zero or one. A mate count that does not fit
//! a 32-bit integer is a parse failure for the whole comment.

use crate::text::{
    all_digits, digits_value, digits_value_sat, is_digit, lemma_digits_value_sat, lower_bytes,
    to_lower,
};
use crate::winprob::{sigmoid_micros, sigmoid_micros_spec};
use vstd::prelude::*;

verus! {

/// Extraction failed for this comment: a recognized marker held numeric text
/// out of range.
#[derive(Clone, Copy, Debug, PartialEq, Eq, Structural)]
pub struct AnnotationError {}

/// A white-space byte, as the evaluation patterns allow between tag and
/// number: space, tab, line feed, vertical tab, form feed or carriage return.
pub open spec fn is_ws(b: u8) -> bool {
    b == 32 || b == 9 || b == 10 || b == 11 || b == 12 || b == 13
}

/// The six bytes of the evaluation tag `[%eval`.
pub open spec fn eval_tag() -> Seq<u8> {
    seq![91u8, 37u8, 101u8, 118u8, 97u8, 108u8]
}

/// The first index at or after `k` that is past the end of `s` or holds a
/// non-digit.
pub open spec fn digit_run_end(s: Seq<u8>, k: int) -> int
    decreases s.len() - k when 0 <= k <= s.len()
{
    if k >= s.len() || !is_digit(s[k]) {
        k
    } else {
        digit_run_end(s, k + 1)
    }
}

/// The evaluation tag followed by one white-space byte starts at `i`.
pub open spec fn tag_at(s: Seq<u8>, i: int) -> bool {
    &&& 0 <= i
    &&& i + 7 <= s.len()
    &&& s.subrange(i, i + 6) == eval_tag()
    &&& is_ws(s[i + 6])
}

/// Whether the decimal evaluation starting at tag position `i` is negated.
pub open spec fn float_sign(s: Seq<u8>, i: int) -> bool {
    i + 7 < s.len() && s[i + 7] == 45
}

/// The index of the first digit of the decimal evaluation at tag position
/// `i`.
pub open spec fn float_d0(s: Seq<u8>, i: int) -> int {
    if float_sign(s, i) {
        i + 8
    } else {
        i + 7
    }
}

/// Whether the decimal evaluation at `i` carries a fractional part.
pub open spec fn float_has_frac(s: Seq<u8>, i: int) -> bool {
    let dend = digit_run_end(s, float_d0(s, i));
    dend < s.len() && s[dend] == 46 && dend + 1 < s.len() && is_digit(s[dend + 1])
}

/// A full decimal-evaluation pattern starts at `i`: the tag, white space, an
/// optional minus sign, digits, an optional dot-and-digits fraction, and the
/// closing bracket.
pub open spec fn float_match_at(s: Seq<u8>, i: int) -> bool {
    &&& tag_at(s, i)
    &&& float_d0(s, i) < s.len()
    &&& is_digit(s[float_d0(s, i)])
    &&& {
        let dend = digit_run_end(s, float_d0(s, i));
        if float_has_frac(s, i) {
            let fend = digit_run_end(s, dend + 1);
            fend < s.len() && s[fend] == 93
        } else {
            dend < s.len() && s[dend] == 93
        }
    }
}

/// The fractional digits `s[f0 .. fend]` read as milli-pawns: the first
/// three digits, padded with zeros when fewer are present; further digits
/// are truncated.
pub open spec fn frac_millis(s: Seq<u8>, f0: int, fend: int) -> int {
    if fend - f0 >= 3 {
        digits_value(s, f0, f0 + 3)
    } else if fend - f0 == 2 {
        digits_value(s, f0, f0 + 2) * 10
    } else {
        digits_value(s, f0, f0 + 1) * 100
    }
}

/// The value of the decimal evaluation at tag position `i`, in milli-pawns.
/// The whole-pawn part saturates once it reaches a hundred thousand pawns,
/// far past where the squashing is flat.
pub open spec fn float_millis_at(s: Seq<u8>, i: int) -> int {
    let d0 = float_d0(s, i);
    let dend = digit_run_end(s, d0);
    let whole = digits_value_sat(s, d0, dend, 100_000);
    let frac = if float_has_frac(s, i) {
        frac_millis(s, dend + 1, digit_run_end(s, dend + 1))
    } else {
        0
    };
    if float_sign(s, i) {
        -(whole * 1000 + frac)
    } else {
        whole * 1000 + frac
    }
}

/// Whether the forced-mate marker at tag position `i` is negated.
pub open spec fn mate_sign(s: Seq<u8>, i: int) -> bool {
    i + 8 < s.len() && s[i + 8] == 45
}

/// The index of the first digit of the forced-mate count at tag position
/// `i`.
pub open spec fn mate_d0(s: Seq<u8>, i: int) -> int {
    if mate_sign(s, i) {
        i + 9
    } else {
        i + 8
    }
}

/// A full forced-mate pattern starts at `i`: the tag, white space, a hash,
/// an optional minus sign, digits, and the closing bracket.
pub open spec fn mate_match_at(s: Seq<u8>, i: int) -> bool {
    &&& tag_at(s, i)
    &&& i + 7 < s.len()
    &&& s[i + 7] == 35
    &&& mate_d0(s, i) < s.len()
    &&& is_digit(s[mate_d0(s, i)])
    &&& {
        let dend = digit_run_end(s, mate_d0(s, i));
        dend < s.len() && s[dend] == 93
    }
}

/// The signed forced-mate count at tag position `i`, as unbounded text.
pub open spec fn mate_value_at(s: Seq<u8>, i: int) -> int {
    let d0 = mate_d0(s, i);
    let mag = digits_value(s, d0, digit_run_end(s, d0));
    if mate_sign(s, i) {
        -mag
    } else {
        mag
    }
}

/// Whether the forced-mate count at `i` fits a 32-bit signed integer.
pub open spec fn mate_parsable_at(s: Seq<u8>, i: int) -> bool {
    -2147483648 <= mate_value_at(s, i) <= 2147483647
}

/// The position of the leftmost decimal-evaluation match at or after `i`.
pub open spec fn first_float_from(s: Seq<u8>, i: int) -> Option<int>
    decreases s.len() - i when 0 <= i
{
    if i >= s.len() {
        None
    } else if float_match_at(s, i) {
        Some(i)
    } else {
        first_float_from(s, i + 1)
    }
}

/// The position of the leftmost forced-mate match at or after `i`.
pub open spec fn first_mate_from(s: Seq<u8>, i: int) -> Option<int>
    decreases s.len() - i when 0 <= i
{
    if i >= s.len() {
        None
    } else if mate_match_at(s, i) {
        Some(i)
    } else {
        first_mate_from(s, i + 1)
    }
}

/// What extracting one raw comment yields: the win probabilities, in
/// micro-units and in evaluation-then-mate order, of the first decimal
/// evaluation and the first forced-mate marker; or a failure when a matching
/// mate marker's count overflows.
pub open spec fn extraction_spec(raw: Seq<u8>) -> Result<Seq<int>, ()> {
    let s = lower_bytes(raw);
    let evals: Seq<int> = match first_float_from(s, 0) {
        None => seq![],
        Some(i) => seq![sigmoid_micros_spec(float_millis_at(s, i))],
    };
    match first_mate_from(s, 0) {
        None => Ok(evals),
        Some(i) => if mate_parsable_at(s, i) {
            Ok(
                evals.push(
                    if mate_value_at(s, i) > 0 {
                        1_000_000int
                    } else {
                        0int
                    },
                ),
            )
        } else {
            Err(())
        },
    }
}

fn digit_run_end_exec(s: &Vec<u8>, k: usize) -> (e: usize)
    requires
        k <= s@.len(),
    ensures
        e == digit_run_end(s@, k as int),
        k <= e <= s@.len(),
        all_digits(s@, k as int, e as int),
{
    let mut e: usize = k;
    while e < s.len() && 48 <= s[e] && s[e] <= 57
        invariant
            k <= e <= s@.len(),
            digit_run_end(s@, k as int) == digit_run_end(s@, e as int),
            all_digits(s@, k as int, e as int),
        decreases s@.len() - e,
    {
        e += 1;
    }
    e
}

fn tag_at_exec(s: &Vec<u8>, i: usize) -> (r: bool)
    requires
        i < s@.len(),
    ensures
        r == tag_at(s@, i as int),
{
    if s.len() - i < 7 {
        return false;
    }
    let tag_mismatch: bool = s[i] != 91 || s[i + 1] != 37 || s[i + 2] != 101 || s[i + 3] != 118
        || s[i + 4] != 97 || s[i + 5] != 108;
    if tag_mismatch {
        proof {
            let sub = s@.subrange(i as int, i + 6);
            assert(forall|j: int| 0 <= j < 6 ==> sub[j] == s@[i + j]);
            assert(sub != eval_tag());
        }
        return false;
    }
    let w: u8 = s[i + 6];
    let ws: bool = w == 32 || w == 9 || w == 10 || w == 11 || w == 12 || w == 13;
    proof {
        if ws {
            assert(s@.subrange(i as int, i + 6) =~= eval_tag());
        }
    }
    ws
}

fn digits_sat_exec(s: &Vec<u8>, from: usize, to: usize, cap: i64) -> (v: i64)
    requires
        from <= to <= s@.len(),
        all_digits(s@, from as int, to as int),
        1 <= cap <= 3_000_000_000,
    ensures
        v == digits_value_sat(s@, from as int, to as int, cap as int),
        0 <= v < cap * 10,
{
    proof {
        assert(digits_value_sat(s@, from as int, from as int, cap as int) == 0);
        assert(0int < cap * 10) by (nonlinear_arith)
            requires
                cap >= 1,
        ;
    }
    let mut v: i64 = 0;
    let mut k: usize = from;
    while k < to
        invariant
            from <= k <= to <= s@.len(),
            all_digits(s@, from as int, to as int),
            1 <= cap <= 3_000_000_000,
            v == digits_value_sat(s@, from as int, k as int, cap as int),
            0 <= v < cap * 10,
        decreases to - k,
    {
        assert(is_digit(s@[k as int]));
        if v < cap {
            let d: i64 = (s[k] - 48) as i64;
            proof {
                assert(v * 10 <= (cap - 1) * 10 && (cap - 1) * 10 + 9 < cap * 10)
                    by (nonlinear_arith)
                    requires
                        0 <= v <= cap - 1,
                        cap >= 1,
                ;
            }
            v = v * 10 + d;
        }
        k += 1;
    }
    v
}

fn frac_millis_exec(s: &Vec<u8>, f0: usize, fend: usize) -> (v: i64)
    requires
        f0 < fend <= s@.len(),
        all_digits(s@, f0 as int, fend as int),
    ensures
        v == frac_millis(s@, f0 as int, fend as int),
        0 <= v <= 999,
{
    proof {
        assert(digits_value(s@, f0 as int, f0 as int) == 0);
    }
    let d0: i64 = (s[f0] - 48) as i64;
    if fend - f0 == 1 {
        d0 * 100
    } else {
        let d1: i64 = (s[f0 + 1] - 48) as i64;
        proof {
            assert(digits_value(s@, f0 as int, f0 + 2) == digits_value(s@, f0 as int, f0 + 1) * 10
                + (s@[f0 + 1] - 48));
        }
        if fend - f0 == 2 {
            (d0 * 10 + d1) * 10
        } else {
            let d2: i64 = (s[f0 + 2] - 48) as i64;
            proof {
                assert(digits_value(s@, f0 as int, f0 + 3) == digits_value(s@, f0 as int, f0 + 2)
                    * 10 + (s@[f0 + 2] - 48));
            }
            (d0 * 10 + d1) * 10 + d2
        }
    }
}

fn try_float_at(s: &Vec<u8>, i: usize) -> (r: Option<i64>)
    requires
        i < s@.len(),
    ensures
        r is Some <==> float_match_at(s@, i as int),
        r matches Some(m) ==> m == float_millis_at(s@, i as int),
        r matches Some(m) ==> -100_000_000_000 <= m <= 100_000_000_000,
{
    let slen: usize = s.len();
    if !tag_at_exec(s, i) {
        return None;
    }
    let mut j: usize = i + 7;
    let neg: bool = j < s.len() && s[j] == 45;
    if neg {
        j += 1;
    }
    proof {
        assert(j == float_d0(s@, i as int));
    }
    if j >= s.len() {
        return None;
    }
    let b0: u8 = s[j];
    if !(48 <= b0 && b0 <= 57) {
        return None;
    }
    let dend: usize = digit_run_end_exec(s, j);
    let whole: i64 = digits_sat_exec(s, j, dend, 100_000);
    let has_frac: bool = dend < s.len() && s[dend] == 46 && dend + 1 < s.len() && 48 <= s[dend + 1]
        && s[dend + 1] <= 57;
    proof {
        assert(has_frac == float_has_frac(s@, i as int));
    }
    if has_frac {
        let fend: usize = digit_run_end_exec(s, dend + 1);
        if fend < s.len() && s[fend] == 93 {
            let frac: i64 = frac_millis_exec(s, dend + 1, fend);
            let mag: i64 = whole * 1000 + frac;
            if neg {
                Some(-mag)
            } else {
                Some(mag)
            }
        } else {
            None
        }
    } else {
        if dend < s.len() && s[dend] == 93 {
            let mag: i64 = whole * 1000;
            if neg {
                Some(-mag)
            } else {
                Some(mag)
            }
        } else {
            None
        }
    }
}

fn try_mate_at(s: &Vec<u8>, i: usize) -> (r: Option<Option<i32>>)
    requires
        i < s@.len(),
    ensures
        r is Some <==> mate_match_at(s@, i as int),
        r matches Some(inner) ==> (inner is Some <==> mate_match_at(s@, i as int)
            && mate_parsable_at(s@, i as int)),
        r matches Some(inner) ==> (inner matches Some(n) ==> n == mate_value_at(s@, i as int)),
{
    let slen: usize = s.len();
    if !tag_at_exec(s, i) {
        return None;
    }
    if i + 7 >= slen || s[i + 7] != 35 {
        return None;
    }
    let neg: bool = i + 8 < s.len() && s[i + 8] == 45;
    let d0: usize = if neg {
        i + 9
    } else {
        i + 8
    };
    proof {
        assert(neg == mate_sign(s@, i as int));
        assert(d0 == mate_d0(s@, i as int));
    }
    if d0 >= s.len() {
        return None;
    }
    let b0: u8 = s[d0];
    if !(48 <= b0 && b0 <= 57) {
        return None;
    }
    let dend: usize = digit_run_end_exec(s, d0);
    if !(dend < s.len() && s[dend] == 93) {
        return None;
    }
    let mag: i64 = digits_sat_exec(s, d0, dend, 3_000_000_000);
    proof {
        lemma_digits_value_sat(s@, d0 as int, dend as int, 3_000_000_000);
    }
    if neg {
        if mag <= 2147483648 {
            Some(Some((-mag) as i32))
        } else {
            Some(None)
        }
    } else {
        if mag <= 2147483647 {
            Some(Some(mag as i32))
        } else {
            Some(None)
        }
    }
}

fn find_first_float(s: &Vec<u8>) -> (r: Option<i64>)
    ensures
        r is Some <==> first_float_from(s@, 0) is Some,
        r matches Some(m) ==> first_float_from(s@, 0) matches Some(i) && m == float_millis_at(
            s@,
            i,
        ),
        r matches Some(m) ==> -100_000_000_000 <= m <= 100_000_000_000,
{
    let mut i: usize = 0;
    while i < s.len()
        invariant
            i <= s@.len(),
            first_float_from(s@, 0) == first_float_from(s@, i as int),
        decreases s@.len() - i,
    {
        match try_float_at(s, i) {
            Some(m) => {
                proof {
                    assert(first_float_from(s@, i as int) == Some(i as int));
                }
                return Some(m);
            },
            None => {
            },
        }
        i += 1;
    }
    None
}

fn find_first_mate(s: &Vec<u8>) -> (r: Option<Option<i32>>)
    ensures
        r is Some <==> first_mate_from(s@, 0) is Some,
        r matches Some(inner) ==> first_mate_from(s@, 0) matches Some(i) && (inner is Some
            <==> mate_parsable_at(s@, i)),
        r matches Some(inner) ==> (inner matches Some(n) ==> first_mate_from(s@, 0) matches Some(
            i,
        ) && n == mate_value_at(s@, i)),
{
    let mut i: usize = 0;
    while i < s.len()
        invariant
            i <= s@.len(),
            first_mate_from(s@, 0) == first_mate_from(s@, i as int),
        decreases s@.len() - i,
    {
        match try_mate_at(s, i) {
            Some(inner) => {
                proof {
                    assert(first_mate_from(s@, i as int) == Some(i as int));
                }
                return Some(inner);
            },
            None => {
            },
        }
        i += 1;
    }
    None
}

/// Extracts the win probabilities, in micro-units, announced by one raw
/// comment: the squashed first decimal evaluation, then the degenerate
/// probability of the first forced-mate marker. Fails exactly when a mate
/// marker matches but its count overflows a 32-bit integer.
pub fn extract_win_chances(comment: &[u8]) -> (r: Result<Vec<u32>, AnnotationError>)
    ensures
        match r {
            Ok(v) => extraction_spec(comment@) == Ok::<Seq<int>, ()>(
                v@.map_values(|x: u32| x as int),
            ) && v@.len() <= 2 && (forall|k: int|
                0 <= k < v@.len() ==> #[trigger] v@[k] <= 1_000_000),
            Err(_) => extraction_spec(comment@) is Err,
        },
{
    let lowered: Vec<u8> = to_lower(comment);
    let mut out: Vec<u32> = Vec::new();
    match find_first_float(&lowered) {
        Some(millis) => {
            out.push(sigmoid_micros(millis));
        },
        None => {
        },
    }
    match find_first_mate(&lowered) {
        None => {
        },
        Some(inner) => match inner {
            Some(n) => {
                if n > 0 {
                    out.push(1_000_000);
                } else {
                    out.push(0);
                }
            },
            None => {
                return Err(AnnotationError {  });
            },
        },
    }
    proof {
        let spec_r = extraction_spec(comment@);
        if spec_r is Ok {
            assert(out@.map_values(|x: u32| x as int) =~= spec_r->Ok_0);
        }
    }
    Ok(out)
}

} // verus!
