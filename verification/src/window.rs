//! The analysis window: a raised-cosine (Hann-style) taper in Q15.
//!
//! The coefficient vector is computed once at engine construction. The
//! first half comes from the integer cosine approximation; the second
//! half mirrors the first, so the window is symmetric by construction,
//! and the approximation is exact at phase zero, so both edge
//! coefficients are exactly zero.

use vstd::prelude::*;
use vstd::arithmetic::div_mod::*;

verus! {

use crate::trig::spec_cos_phase;
use crate::trig::cos_phase;
use crate::trig::lemma_cos_zero;
use crate::Q15_ONE;
use crate::FRAME_SIZE;

/// Phase (in 1/65536ths of a turn) swept by window index `i`: the full
/// turn is divided over the 255 intervals between the 256 samples.
pub open spec fn spec_window_phase(i: int) -> int {
    (i * 65536) / 255
}

/// Raised-cosine coefficient for an index in the first half of the
/// window: `(1 - cos(2*pi*i/255)) / 2` in Q15.
pub open spec fn spec_half_coeff(i: int) -> int {
    (32768 - spec_cos_phase(spec_window_phase(i))) / 2
}

/// The Q15 analysis-window coefficient at index `i`; the second half
/// mirrors the first.
pub open spec fn spec_window_coeff(i: int) -> int {
    if i < 128 {
        spec_half_coeff(i)
    } else {
        spec_half_coeff(255 - i)
    }
}

/// Both edge coefficients of the window are exactly zero.
pub proof fn lemma_window_edges()
    ensures
        spec_window_coeff(0) == 0,
        spec_window_coeff(255) == 0,
{
    lemma_div_of0(255);
    assert(spec_window_phase(0) == 0);
    lemma_cos_zero();
    lemma_div_of0(2);
    assert(spec_half_coeff(0) == 0);
}

/// The window is symmetric: the coefficient at `i` equals the one at
/// `255 - i`.
pub proof fn lemma_window_symmetric(i: int)
    requires
        0 <= i < 256,
    ensures
        spec_window_coeff(i) == spec_window_coeff(255 - i),
{
}

/// Builds the 256-entry analysis window, pinned to `spec_window_coeff`.
pub fn build_window() -> (w: Vec<i64>)
    ensures
        w@.len() == 256,
        forall|i: int| 0 <= i < 256 ==> #[trigger] w@[i] == spec_window_coeff(i),
        forall|i: int| 0 <= i < 256 ==> 0 <= #[trigger] w@[i] <= 32768,
{
    let mut w: Vec<i64> = Vec::new();
    let mut i: usize = 0;
    while i < 128
        invariant
            i <= 128,
            w@.len() == i,
            forall|j: int| 0 <= j < i ==> #[trigger] w@[j] == spec_half_coeff(j),
            forall|j: int| 0 <= j < i ==> 0 <= #[trigger] w@[j] <= 32768,
        decreases 128 - i,
    {
        let num: i64 = (i as i64) * 65536;
        proof {
            lemma_div_pos_is_pos(num as int, 255);
            lemma_div_is_ordered(num as int, 8323072, 255);
            lemma_fundamental_div_mod_converse_div(8323072, 255, 32639, 127);
        }
        let p: i64 = num / 255;
        let c: i64 = cos_phase(p);
        proof {
            lemma_div_pos_is_pos(32768 - c as int, 2);
            lemma_div_is_ordered(32768 - c as int, 65536, 2);
            lemma_fundamental_div_mod_converse_div(65536, 2, 32768, 0);
        }
        let coeff: i64 = (Q15_ONE - c) / 2;
        w.push(coeff);
        i = i + 1;
    }
    while i < FRAME_SIZE
        invariant
            128 <= i <= 256,
            w@.len() == i,
            forall|j: int| 0 <= j < 128 ==> #[trigger] w@[j] == spec_half_coeff(j),
            forall|j: int| 128 <= j < i ==> #[trigger] w@[j] == spec_half_coeff(255 - j),
            forall|j: int| 0 <= j < i ==> 0 <= #[trigger] w@[j] <= 32768,
        decreases 256 - i,
    {
        let v: i64 = w[255 - i];
        w.push(v);
        i = i + 1;
    }
    w
}

} // verus!
