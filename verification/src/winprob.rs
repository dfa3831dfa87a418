//! Win probability in fixed point.
//!
//! An engine evaluation of `m` milli-pawns is squashed into a win probability
//! by the logistic `1 / (1 + exp(-m / 1000))`. Probabilities are carried as
//! integers in micro-units (`0 ..= 1_000_000`); `exp` is evaluated in the
//! same fixed point by one multiplication per milli-pawn with the constant
//! `floor(1_000_000 * exp(-1/1000))`, which makes it monotone by
//! construction. Evaluations beyond twenty pawns in magnitude saturate,
//! where the logistic is already flat.

use vstd::arithmetic::div_mod::{
    lemma_div_is_ordered, lemma_div_is_ordered_by_denominator, lemma_div_multiples_vanish,
    lemma_div_pos_is_pos,
};
use vstd::prelude::*;

verus! {

/// A probability of one in this library's fixed-point scale.
pub const PROB_ONE: u32 = 1_000_000;

/// One milli-pawn of evaluation scales the exponential by this factor, in
/// micro-units: `floor(1_000_000 * exp(-1/1000))`.
pub const EXP_STEP_MICROS: u64 = 999_000;

/// `1_000_000 * exp(-x / 1000)` for an evaluation magnitude of `x`
/// milli-pawns: one decay step per milli-pawn, in micro-units.
pub open spec fn exp_neg_micros(x: int) -> int
    decreases (if x > 0 {
        x
    } else {
        0
    }),
{
    if x <= 0 {
        1_000_000
    } else {
        exp_neg_micros(x - 1) * 999_000 / 1_000_000
    }
}

/// Evaluations are clamped to plus or minus twenty pawns before squashing.
pub open spec fn clamp_millis(m: int) -> int {
    if m > 20_000 {
        20_000
    } else if m < -20_000 {
        -20_000
    } else {
        m
    }
}

/// The logistic for a non-negative clamped magnitude `x` in milli-pawns.
pub open spec fn sigmoid_pos_micros(x: int) -> int {
    1_000_000_000_000int / (1_000_000 + exp_neg_micros(x))
}

/// Win probability in micro-units for an evaluation of `m` milli-pawns:
/// the logistic `1 / (1 + exp(-m / 1000))` in fixed point, antisymmetric
/// around the midpoint by construction.
pub open spec fn sigmoid_micros_spec(m: int) -> int {
    if m >= 0 {
        sigmoid_pos_micros(clamp_millis(m))
    } else {
        1_000_000 - sigmoid_pos_micros(-clamp_millis(m))
    }
}

proof fn lemma_exp_neg_bounds(x: int)
    ensures
        0 <= exp_neg_micros(x) <= 1_000_000,
        x <= 0 ==> exp_neg_micros(x) == 1_000_000,
    decreases (if x > 0 {
        x
    } else {
        0
    }),
{
    if x > 0 {
        lemma_exp_neg_bounds(x - 1);
        let e = exp_neg_micros(x - 1);
        assert(0 <= e * 999_000 <= 1_000_000 * 999_000) by (nonlinear_arith)
            requires
                0 <= e <= 1_000_000,
        ;
        lemma_div_pos_is_pos(e * 999_000, 1_000_000);
        lemma_div_is_ordered(e * 999_000, 1_000_000int * 999_000, 1_000_000);
        lemma_div_multiples_vanish(999_000, 1_000_000);
    }
}

/// One more milli-pawn of magnitude never raises the exponential.
proof fn lemma_exp_neg_step(x: int)
    requires
        0 <= x,
    ensures
        exp_neg_micros(x + 1) <= exp_neg_micros(x),
{
    lemma_exp_neg_bounds(x);
    let e = exp_neg_micros(x);
    assert(e * 999_000 <= e * 1_000_000) by (nonlinear_arith)
        requires
            0 <= e,
    ;
    lemma_div_is_ordered(e * 999_000, e * 1_000_000, 1_000_000);
    lemma_div_multiples_vanish(e, 1_000_000);
}

/// The exponential is monotone non-increasing in the magnitude.
proof fn lemma_exp_neg_monotone(x: int, y: int)
    requires
        0 <= x <= y,
    ensures
        exp_neg_micros(y) <= exp_neg_micros(x),
    decreases y - x,
{
    if x < y {
        lemma_exp_neg_monotone(x, y - 1);
        lemma_exp_neg_step(y - 1);
    }
}

proof fn lemma_sigmoid_pos_bounds(x: int)
    requires
        0 <= x,
    ensures
        500_000 <= sigmoid_pos_micros(x) <= 1_000_000,
        x == 0 ==> sigmoid_pos_micros(x) == 500_000,
{
    lemma_exp_neg_bounds(x);
    let d = 1_000_000 + exp_neg_micros(x);
    lemma_div_is_ordered_by_denominator(1_000_000_000_000, 1_000_000, d);
    lemma_div_is_ordered_by_denominator(1_000_000_000_000, d, 2_000_000);
    lemma_div_multiples_vanish(1_000_000, 1_000_000);
    assert(1_000_000_000_000int / 1_000_000 == 1_000_000);
    lemma_div_multiples_vanish(500_000, 2_000_000);
    assert(1_000_000_000_000int / 2_000_000 == 500_000);
}

proof fn lemma_sigmoid_pos_monotone(x: int, y: int)
    requires
        0 <= x <= y,
    ensures
        sigmoid_pos_micros(x) <= sigmoid_pos_micros(y),
{
    lemma_exp_neg_monotone(x, y);
    lemma_exp_neg_bounds(x);
    lemma_exp_neg_bounds(y);
    lemma_div_is_ordered_by_denominator(
        1_000_000_000_000,
        1_000_000 + exp_neg_micros(y),
        1_000_000 + exp_neg_micros(x),
    );
}

/// Every win probability lies between zero and one.
pub proof fn lemma_sigmoid_bounds(m: int)
    ensures
        0 <= sigmoid_micros_spec(m) <= 1_000_000,
{
    if m >= 0 {
        lemma_sigmoid_pos_bounds(clamp_millis(m));
    } else {
        lemma_sigmoid_pos_bounds(-clamp_millis(m));
    }
}

/// An even evaluation squashes to a probability of exactly one half.
pub proof fn lemma_sigmoid_midpoint()
    ensures
        sigmoid_micros_spec(0) == 500_000,
{
    lemma_sigmoid_pos_bounds(0);
}

/// The squashing is symmetric around the even evaluation.
pub proof fn lemma_sigmoid_antisymmetric(m: int)
    ensures
        sigmoid_micros_spec(m) + sigmoid_micros_spec(-m) == 1_000_000,
{
    if m == 0 {
        lemma_sigmoid_midpoint();
    } else if m > 0 {
        assert(clamp_millis(-m) == -clamp_millis(m));
    } else {
        assert(clamp_millis(-m) == -clamp_millis(m));
    }
}

/// The squashing is monotone: a better evaluation never gets a lower win
/// probability.
pub proof fn lemma_sigmoid_monotone(a: int, b: int)
    requires
        a <= b,
    ensures
        sigmoid_micros_spec(a) <= sigmoid_micros_spec(b),
{
    if a >= 0 {
        lemma_sigmoid_pos_monotone(clamp_millis(a), clamp_millis(b));
    } else if b < 0 {
        lemma_sigmoid_pos_monotone(-clamp_millis(b), -clamp_millis(a));
    } else {
        lemma_sigmoid_pos_bounds(-clamp_millis(a));
        lemma_sigmoid_pos_bounds(clamp_millis(b));
    }
}

fn exp_neg_exec(x: u64) -> (r: u64)
    requires
        x <= 20_000,
    ensures
        r as int == exp_neg_micros(x as int),
        r <= 1_000_000,
{
    let mut e: u64 = 1_000_000;
    let mut k: u64 = 0;
    while k < x
        invariant
            k <= x,
            e as int == exp_neg_micros(k as int),
            e <= 1_000_000,
        decreases x - k,
    {
        proof {
            let ei = e as int;
            assert(0 <= ei * 999_000 <= 1_000_000 * 999_000) by (nonlinear_arith)
                requires
                    0 <= ei <= 1_000_000,
            ;
            lemma_div_pos_is_pos(ei * 999_000, 1_000_000);
            lemma_div_is_ordered(ei * 999_000, 1_000_000int * 999_000, 1_000_000);
            lemma_div_multiples_vanish(999_000, 1_000_000);
        }
        e = e * EXP_STEP_MICROS / 1_000_000;
        k += 1;
        proof {
            assert(e as int == exp_neg_micros(k as int));
        }
    }
    e
}

/// Squashes an evaluation of `m` milli-pawns into a win probability in
/// micro-units.
pub fn sigmoid_micros(m: i64) -> (r: u32)
    ensures
        r as int == sigmoid_micros_spec(m as int),
        r <= PROB_ONE,
{
    let clamped: i64 = if m > 20_000 {
        20_000
    } else if m < -20_000 {
        -20_000
    } else {
        m
    };
    let mag: u64 = if clamped < 0 {
        (-clamped) as u64
    } else {
        clamped as u64
    };
    let e: u64 = exp_neg_exec(mag);
    proof {
        lemma_exp_neg_bounds(mag as int);
        lemma_div_pos_is_pos(1_000_000_000_000, 1_000_000 + e as int);
        lemma_div_is_ordered_by_denominator(1_000_000_000_000, 1_000_000, 1_000_000 + e as int);
        lemma_div_is_ordered_by_denominator(1_000_000_000_000, 1_000_000 + e as int, 2_000_000);
        lemma_div_multiples_vanish(1_000_000, 1_000_000);
        assert(1_000_000_000_000int / 1_000_000 == 1_000_000);
        lemma_div_multiples_vanish(500_000, 2_000_000);
        assert(1_000_000_000_000int / 2_000_000 == 500_000);
    }
    let p: u64 = 1_000_000_000_000u64 / (1_000_000u64 + e);
    if clamped < 0 {
        (1_000_000u64 - p) as u32
    } else {
        p as u32
    }
}

} // verus!
