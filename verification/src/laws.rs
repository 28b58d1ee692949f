//! The engine's laws, stated and proved over the same spec functions that
//! the executable contracts use: the window's boundary and symmetry, the
//! exactness of a unit gain mask, the saturation of out-of-range gains,
//! and that an all-zero mask or an all-zero frame silences the output.

use vstd::prelude::*;
use vstd::arithmetic::div_mod::*;

verus! {

use crate::filter::QWiseFilter;
use crate::filter::spec_clamp_gain;
use crate::filter::spec_gained;
use crate::spectral::lemma_div_trunc_exact;
use crate::spectral::lemma_sum_zero;
use crate::spectral::negs;
use crate::spectral::tf_re;
use crate::spectral::tf_term_re;
use crate::spectral::tf_term_im;
use crate::spectral::zeros;
use crate::window::lemma_window_edges;
use crate::window::lemma_window_symmetric;
use crate::window::spec_window_coeff;

/// The analysis window's first coefficient is exactly zero, and the
/// window is symmetric: the coefficient at `i` equals the one at
/// `255 - i`.
pub proof fn lemma_window_boundary(f: QWiseFilter)
    requires
        f.wf(),
    ensures
        f.window_seq()[0] == 0,
        forall|i: int| 0 <= i < 256 ==> #[trigger] f.window_seq()[i] == f.window_seq()[255 - i],
{
    lemma_window_edges();
    assert(f.window_seq()[0] == spec_window_coeff(0));
    assert forall|i: int| 0 <= i < 256 implies #[trigger] f.window_seq()[i]
        == f.window_seq()[255 - i] by {
        lemma_window_symmetric(i);
        assert(f.window_seq()[i] == spec_window_coeff(i));
        assert(f.window_seq()[255 - i] == spec_window_coeff(255 - i));
    }
}

/// Construction is deterministic: any two well-formed engines carry the
/// same window coefficients and the same twiddle table, so repeated runs
/// are bit-reproducible.
pub proof fn lemma_deterministic_construction(f1: QWiseFilter, f2: QWiseFilter)
    requires
        f1.wf(),
        f2.wf(),
    ensures
        f1.window_seq() == f2.window_seq(),
        f1.twr_seq() == f2.twr_seq(),
        f1.twi_seq() == f2.twi_seq(),
{
    assert(f1.window_seq() =~= f2.window_seq());
    assert(f1.twr_seq() =~= f2.twr_seq());
    assert(f1.twi_seq() =~= f2.twi_seq());
}

/// A mask whose every value clamps to the Q15 unit leaves the spectral
/// buffer unchanged: multiplying by the unit and rescaling is
/// the identity, with no rounding residue.
pub proof fn lemma_unit_mask_gain_identity(b: Seq<int>, g: Seq<int>)
    requires
        b.len() == 256,
        g.len() == 256,
        forall|k: int| 0 <= k < 256 ==> #[trigger] g[k] >= 32768,
    ensures
        spec_gained(b, g) == b,
{
    assert forall|k: int| 0 <= k < 256 implies #[trigger] spec_gained(b, g)[k] == b[k] by {
        assert(spec_clamp_gain(g[k]) == 32768);
        lemma_div_trunc_exact(b[k], 32768);
    }
    assert(spec_gained(b, g) =~= b);
}

/// With a unit mask, the gain stage drops out of the round trip: the
/// output frame is exactly the inverse transform of the forward
/// transform of the windowed frame, untouched bin by bin.
pub proof fn lemma_unit_mask_round_trip(f: QWiseFilter, x: Seq<int>, g: Seq<int>)
    requires
        g.len() == 256,
        forall|k: int| 0 <= k < 256 ==> #[trigger] g[k] >= 32768,
    ensures
        f.spec_frame_out(x, g) == f.spec_inv_out(f.spec_fwd_re(x), f.spec_fwd_im(x)),
{
    lemma_unit_mask_gain_identity(f.spec_fwd_re(x), g);
    lemma_unit_mask_gain_identity(f.spec_fwd_im(x), g);
}

/// Gain values saturate: two masks whose clamped values agree bin by bin
/// produce identical output frames. In particular a gain above the unit
/// behaves exactly as the unit, and a negative gain exactly as zero.
pub proof fn lemma_clamp_saturation(f: QWiseFilter, x: Seq<int>, g1: Seq<int>, g2: Seq<int>)
    requires
        g1.len() == 256,
        g2.len() == 256,
        forall|k: int| 0 <= k < 256 ==>
            #[trigger] spec_clamp_gain(g1[k]) == spec_clamp_gain(g2[k]),
    ensures
        f.spec_frame_out(x, g1) == f.spec_frame_out(x, g2),
{
    assert(spec_gained(f.spec_fwd_re(x), g1) =~= spec_gained(f.spec_fwd_re(x), g2));
    assert(spec_gained(f.spec_fwd_im(x), g1) =~= spec_gained(f.spec_fwd_im(x), g2));
}

/// A spectral buffer that is zero in every component reconstructs to a
/// frame that is exactly zero in every sample.
proof fn lemma_zero_spectrum_inverse(f: QWiseFilter, yr: Seq<int>, yi: Seq<int>)
    requires
        f.wf(),
        yr.len() == 256,
        yi.len() == 256,
        forall|k: int| 0 <= k < 256 ==> #[trigger] yr[k] == 0,
        forall|k: int| 0 <= k < 256 ==> #[trigger] yi[k] == 0,
    ensures
        forall|i: int| 0 <= i < 256 ==> #[trigger] f.spec_inv_out(yr, yi)[i] == 0,
{
    assert forall|i: int| 0 <= i < 256 implies #[trigger] f.spec_inv_out(yr, yi)[i] == 0 by {
        let terms = Seq::new(256, |j: int| tf_term_re(yr, negs(yi), f.twr_seq(), f.twi_seq(), i, j));
        assert forall|j: int| 0 <= j < 256 implies #[trigger] terms[j] == 0 by {
            assert(negs(yi)[j] == 0);
            assert(yr[j] == 0);
        }
        lemma_sum_zero(terms);
        lemma_div_of0(32768);
        assert(tf_re(yr, negs(yi), f.twr_seq(), f.twi_seq(), i) == 0);
        lemma_div_of0(256);
    }
}

/// An all-zero gain mask silences the frame: every output sample is
/// exactly zero, whatever the input frame holds.
pub proof fn lemma_zero_mask_silences(f: QWiseFilter, x: Seq<int>, g: Seq<int>)
    requires
        f.wf(),
        g.len() == 256,
        forall|k: int| 0 <= k < 256 ==> #[trigger] g[k] <= 0,
    ensures
        forall|i: int| 0 <= i < 256 ==> #[trigger] f.spec_frame_out(x, g)[i] == 0,
{
    let yr = spec_gained(f.spec_fwd_re(x), g);
    let yi = spec_gained(f.spec_fwd_im(x), g);
    assert forall|k: int| 0 <= k < 256 implies #[trigger] yr[k] == 0 by {
        assert(spec_clamp_gain(g[k]) == 0);
        lemma_div_of0(32768);
        assert(f.spec_fwd_re(x)[k] * 0 == 0);
    }
    assert forall|k: int| 0 <= k < 256 implies #[trigger] yi[k] == 0 by {
        assert(spec_clamp_gain(g[k]) == 0);
        lemma_div_of0(32768);
        assert(f.spec_fwd_im(x)[k] * 0 == 0);
    }
    lemma_zero_spectrum_inverse(f, yr, yi);
}

/// Silence in, silence out: an all-zero input frame reconstructs to an
/// all-zero output frame under every gain mask, because the transform of
/// zero is zero and a clamped gain cannot create signal.
pub proof fn lemma_zero_input_silence(f: QWiseFilter, x: Seq<int>, g: Seq<int>)
    requires
        f.wf(),
        x.len() == 256,
        g.len() == 256,
        forall|i: int| 0 <= i < 256 ==> #[trigger] x[i] == 0,
    ensures
        forall|i: int| 0 <= i < 256 ==> #[trigger] f.spec_frame_out(x, g)[i] == 0,
{
    let w = f.spec_windowed(x);
    assert forall|i: int| 0 <= i < 256 implies #[trigger] w[i] == 0 by {
        assert(x[i] * f.window_seq()[i] == 0);
        lemma_div_of0(32768);
    }
    let xr = f.spec_fwd_re(x);
    let xi = f.spec_fwd_im(x);
    assert forall|k: int| 0 <= k < 256 implies #[trigger] xr[k] == 0 by {
        let tre = Seq::new(256, |j: int| tf_term_re(w, zeros(), f.twr_seq(), f.twi_seq(), k, j));
        assert forall|j: int| 0 <= j < 256 implies #[trigger] tre[j] == 0 by {
            assert(w[j] == 0);
            assert(zeros()[j] == 0);
        }
        lemma_sum_zero(tre);
        lemma_div_of0(32768);
    }
    assert forall|k: int| 0 <= k < 256 implies #[trigger] xi[k] == 0 by {
        let tim = Seq::new(256, |j: int| tf_term_im(w, zeros(), f.twr_seq(), f.twi_seq(), k, j));
        assert forall|j: int| 0 <= j < 256 implies #[trigger] tim[j] == 0 by {
            assert(w[j] == 0);
            assert(zeros()[j] == 0);
        }
        lemma_sum_zero(tim);
        lemma_div_of0(32768);
    }
    let yr = spec_gained(xr, g);
    let yi = spec_gained(xi, g);
    assert forall|k: int| 0 <= k < 256 implies #[trigger] yr[k] == 0 by {
        assert(xr[k] == 0);
        assert(xr[k] * spec_clamp_gain(g[k]) == 0) by (nonlinear_arith)
            requires xr[k] == 0;
        lemma_div_of0(32768);
    }
    assert forall|k: int| 0 <= k < 256 implies #[trigger] yi[k] == 0 by {
        assert(xi[k] == 0);
        assert(xi[k] * spec_clamp_gain(g[k]) == 0) by (nonlinear_arith)
            requires xi[k] == 0;
        lemma_div_of0(32768);
    }
    lemma_zero_spectrum_inverse(f, yr, yi);
}

} // verus!
