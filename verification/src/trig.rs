//! Integer approximations of sine and cosine on a Q16 phase circle.
//!
//! Angles are measured in 1/65536ths of a turn; results are Q15 values
//! in [-32768, 32768]. The half-turn sine uses a rational (Bhaskara-style)
//! approximation whose fixed-point form is exact at 0, a quarter turn and
//! a half turn, and symmetric about the quarter turn. Cosine and full-turn
//! sine are derived from it by quadrant reflection.

use vstd::prelude::*;
use vstd::arithmetic::div_mod::*;

verus! {

use crate::HALF_TURN;
use crate::QUARTER_TURN;
use crate::Q15_ONE;
use crate::TURN;

/// Q15 sine of a phase `h` in [0, HALF_TURN] (that is, an angle in [0, pi]).
pub open spec fn spec_sin_half(h: int) -> int {
    (32768 * 16 * (h * (32768 - h))) / (5 * 32768 * 32768 - 4 * (h * (32768 - h)))
}

/// Q15 cosine of a phase `p` in [0, TURN), derived from the half-turn sine
/// by quadrant reflection: cos(x) = sin(x + pi/2).
pub open spec fn spec_cos_phase(p: int) -> int {
    if p <= 16384 {
        spec_sin_half(p + 16384)
    } else if p <= 49152 {
        -spec_sin_half(p - 16384)
    } else {
        spec_sin_half(81920 - p)
    }
}

/// Q15 sine of a phase `p` in [0, TURN).
pub open spec fn spec_sin_phase(p: int) -> int {
    if p <= 32768 {
        spec_sin_half(p)
    } else {
        -spec_sin_half(p - 32768)
    }
}

/// The half-turn sine approximation, exact against `spec_sin_half`.
pub fn sin_half(h: i64) -> (r: i64)
    requires
        0 <= h <= HALF_TURN,
    ensures
        r == spec_sin_half(h as int),
        0 <= r <= Q15_ONE,
{
    proof {
        assert((h as int) * (32768 - h as int) <= 16384 * 16384) by (nonlinear_arith)
            requires 0 <= h as int <= 32768;
        assert((h as int) * (32768 - h as int) >= 0) by (nonlinear_arith)
            requires 0 <= h as int <= 32768;
    }
    let arc: i64 = h * (HALF_TURN - h);
    let num: i64 = Q15_ONE * 16 * arc;
    let den: i64 = 5 * Q15_ONE * Q15_ONE - 4 * arc;
    proof {
        assert(den >= 0x1_0000_0000);
        assert(num <= 32768 * den);
        lemma_div_pos_is_pos(num as int, den as int);
        lemma_div_is_ordered(num as int, 32768 * den, den as int);
        lemma_div_by_multiple(32768, den as int);
    }
    num / den
}

/// Cosine over the full phase circle, exact against `spec_cos_phase`.
pub fn cos_phase(p: i64) -> (r: i64)
    requires
        0 <= p < TURN,
    ensures
        r == spec_cos_phase(p as int),
        -Q15_ONE <= r <= Q15_ONE,
{
    if p <= QUARTER_TURN {
        sin_half(p + QUARTER_TURN)
    } else if p <= 49152 {
        -sin_half(p - QUARTER_TURN)
    } else {
        sin_half(81920 - p)
    }
}

/// Sine over the full phase circle, exact against `spec_sin_phase`.
pub fn sin_phase(p: i64) -> (r: i64)
    requires
        0 <= p < TURN,
    ensures
        r == spec_sin_phase(p as int),
        -Q15_ONE <= r <= Q15_ONE,
{
    if p <= HALF_TURN {
        sin_half(p)
    } else {
        -sin_half(p - HALF_TURN)
    }
}

/// The cosine approximation is exact at phase zero, where it returns
/// the Q15 representation of 1.0.
pub proof fn lemma_cos_zero()
    ensures
        spec_cos_phase(0) == 32768,
{
    assert(16384 * (32768 - 16384) == 0x1000_0000);
    assert(32768 * 16 * 0x1000_0000 == 0x8000_0000_0000);
    assert(5 * 32768 * 32768 - 4 * 0x1000_0000 == 0x1_0000_0000);
    assert(0x8000_0000_0000int / 0x1_0000_0000int == 32768) by {
        lemma_div_by_multiple(32768, 0x1_0000_0000);
    }
    assert(spec_sin_half(16384) == 32768);
}

} // verus!
