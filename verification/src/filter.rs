//! The spectral filtering engine: window application, forward transform,
//! clamped gain application, inverse transform, and the per-frame
//! round trip that composes them.
//!
//! The engine owns the immutable window coefficients and twiddle table,
//! both built once at construction and pinned by `wf` to their spec
//! formulas. Every operation's result is stated exactly, down to each
//! truncating Q15 rescale.

use vstd::prelude::*;
use vstd::arithmetic::div_mod::*;

verus! {

use crate::spectral::Cpx;
use crate::spectral::div_trunc;
use crate::spectral::div_trunc_i64;
use crate::spectral::lemma_div_trunc_bound;
use crate::spectral::ints;
use crate::spectral::res;
use crate::spectral::ims;
use crate::spectral::negs;
use crate::spectral::zeros;
use crate::spectral::tf_re;
use crate::spectral::tf_im;
use crate::spectral::transform;
use crate::trig::spec_cos_phase;
use crate::trig::spec_sin_phase;
use crate::trig::cos_phase;
use crate::trig::sin_phase;
use crate::window::spec_window_coeff;
use crate::window::build_window;
use crate::FRAME_SIZE;
use crate::Q15_ONE;

/// A per-frame gain mask, one Q15 gain per frequency bin, as supplied by
/// an external classifier stand-in. The engine clamps each gain to
/// [0, Q15_ONE] before use, so the map itself is unconstrained.
pub struct AiPrediction {
    gain_map: Vec<i64>,
}

impl AiPrediction {
    /// The gain values, one per bin.
    pub closed spec fn gains(&self) -> Seq<int> {
        ints(self.gain_map@)
    }

    /// A well-formed prediction carries exactly one gain per bin.
    pub open spec fn wf(&self) -> bool {
        self.gains().len() == 256
    }

    /// Wraps a gain map; accepted exactly when it has one value per bin.
    pub fn new(gain_map: Vec<i64>) -> (r: Option<AiPrediction>)
        ensures
            r is Some <==> gain_map@.len() == 256,
            r is Some ==> r.unwrap().wf() && r.unwrap().gains() == ints(gain_map@),
    {
        if gain_map.len() == FRAME_SIZE {
            Some(AiPrediction { gain_map })
        } else {
            None
        }
    }

    /// Reads the gain for one bin.
    pub fn gain_at(&self, i: usize) -> (g: i64)
        requires
            self.wf(),
            i < 256,
        ensures
            g == self.gains()[i as int],
    {
        self.gain_map[i]
    }
}

/// A gain clamped to [0, Q15_ONE]: out-of-range mask values saturate,
/// they are never rejected.
pub open spec fn spec_clamp_gain(g: int) -> int {
    if g < 0 {
        0
    } else if g > 32768 {
        32768
    } else {
        g
    }
}

/// Clamps one gain value to [0, Q15_ONE].
pub fn clamp_gain(g: i64) -> (r: i64)
    ensures
        r == spec_clamp_gain(g as int),
{
    if g < 0 {
        0
    } else if g > Q15_ONE {
        Q15_ONE
    } else {
        g
    }
}

/// A spectral buffer attenuated by a clamped gain mask, componentwise in
/// Q15: `div_trunc(b[k] * clamp(g[k]), Q15_ONE)`.
pub open spec fn spec_gained(b: Seq<int>, g: Seq<int>) -> Seq<int> {
    Seq::new(256, |k: int| div_trunc(b[k] * spec_clamp_gain(g[k]), 32768))
}

/// The spectral filtering engine. Owns the analysis window and the
/// twiddle table; stateless across frames.
pub struct QWiseFilter {
    window: Vec<i64>,
    twid_re: Vec<i64>,
    twid_im: Vec<i64>,
}

impl QWiseFilter {
    /// The analysis-window coefficients.
    pub closed spec fn window_seq(&self) -> Seq<int> {
        ints(self.window@)
    }

    /// The real parts of the twiddle table: `cos(2*pi*t/256)` in Q15.
    pub closed spec fn twr_seq(&self) -> Seq<int> {
        ints(self.twid_re@)
    }

    /// The imaginary parts of the twiddle table: `-sin(2*pi*t/256)` in Q15.
    pub closed spec fn twi_seq(&self) -> Seq<int> {
        ints(self.twid_im@)
    }

    /// Well-formedness: window and twiddles have one entry per bin, are
    /// pinned to their defining formulas, and are bounded by the Q15 unit.
    pub open spec fn wf(&self) -> bool {
        &&& self.window_seq().len() == 256
        &&& self.twr_seq().len() == 256
        &&& self.twi_seq().len() == 256
        &&& forall|i: int| 0 <= i < 256 ==> #[trigger] self.window_seq()[i] == spec_window_coeff(i)
        &&& forall|i: int| 0 <= i < 256 ==> 0 <= #[trigger] self.window_seq()[i] <= 32768
        &&& forall|t: int| 0 <= t < 256 ==> #[trigger] self.twr_seq()[t] == spec_cos_phase(256 * t)
        &&& forall|t: int| 0 <= t < 256 ==> #[trigger] self.twi_seq()[t] == -spec_sin_phase(256 * t)
        &&& forall|t: int| 0 <= t < 256 ==> -32768 <= #[trigger] self.twr_seq()[t] <= 32768
        &&& forall|t: int| 0 <= t < 256 ==> -32768 <= #[trigger] self.twi_seq()[t] <= 32768
    }

    /// A raw frame tapered by the window, componentwise in Q15.
    pub open spec fn spec_windowed(&self, x: Seq<int>) -> Seq<int> {
        Seq::new(256, |i: int| div_trunc(x[i] * self.window_seq()[i], 32768))
    }

    /// Real parts of the forward transform of the windowed frame.
    pub open spec fn spec_fwd_re(&self, x: Seq<int>) -> Seq<int> {
        Seq::new(
            256,
            |k: int| tf_re(self.spec_windowed(x), zeros(), self.twr_seq(), self.twi_seq(), k),
        )
    }

    /// Imaginary parts of the forward transform of the windowed frame.
    pub open spec fn spec_fwd_im(&self, x: Seq<int>) -> Seq<int> {
        Seq::new(
            256,
            |k: int| tf_im(self.spec_windowed(x), zeros(), self.twr_seq(), self.twi_seq(), k),
        )
    }

    /// The reconstructed real frame from a spectral buffer: conjugate,
    /// run the forward-style transform again, conjugate, divide by the
    /// frame size, and keep the real part.
    pub open spec fn spec_inv_out(&self, yr: Seq<int>, yi: Seq<int>) -> Seq<int> {
        Seq::new(
            256,
            |k: int| div_trunc(tf_re(yr, negs(yi), self.twr_seq(), self.twi_seq(), k), 256),
        )
    }

    /// The whole per-frame round trip: window, forward transform, clamped
    /// gain mask, inverse transform.
    pub open spec fn spec_frame_out(&self, x: Seq<int>, g: Seq<int>) -> Seq<int> {
        self.spec_inv_out(spec_gained(self.spec_fwd_re(x), g), spec_gained(self.spec_fwd_im(x), g))
    }

    /// Builds the engine: the analysis window and the twiddle table,
    /// computed once, deterministically.
    pub fn new() -> (f: QWiseFilter)
        ensures
            f.wf(),
    {
        let window = build_window();
        let mut twid_re: Vec<i64> = Vec::new();
        let mut twid_im: Vec<i64> = Vec::new();
        let mut t: usize = 0;
        while t < FRAME_SIZE
            invariant
                t <= 256,
                twid_re@.len() == t,
                twid_im@.len() == t,
                forall|u: int| 0 <= u < t ==> #[trigger] twid_re@[u] == spec_cos_phase(256 * u),
                forall|u: int| 0 <= u < t ==> #[trigger] twid_im@[u] == -spec_sin_phase(256 * u),
                forall|u: int| 0 <= u < t ==> -32768 <= #[trigger] twid_re@[u] <= 32768,
                forall|u: int| 0 <= u < t ==> -32768 <= #[trigger] twid_im@[u] <= 32768,
            decreases 256 - t,
        {
            let p: i64 = 256 * (t as i64);
            let c: i64 = cos_phase(p);
            let s: i64 = sin_phase(p);
            twid_re.push(c);
            twid_im.push(-s);
            t = t + 1;
        }
        let f = QWiseFilter { window, twid_re, twid_im };
        proof {
            assert forall|i: int| 0 <= i < 256 implies #[trigger] f.window_seq()[i]
                == spec_window_coeff(i) by {
                assert(f.window@[i] == spec_window_coeff(i));
            }
            assert forall|u: int| 0 <= u < 256 implies #[trigger] f.twr_seq()[u]
                == spec_cos_phase(256 * u) by {
                assert(f.twid_re@[u] == spec_cos_phase(256 * u));
            }
            assert forall|u: int| 0 <= u < 256 implies #[trigger] f.twi_seq()[u]
                == -spec_sin_phase(256 * u) by {
                assert(f.twid_im@[u] == -spec_sin_phase(256 * u));
            }
        }
        f
    }

    /// Reads one window coefficient.
    pub fn window_coeff(&self, i: usize) -> (r: i64)
        requires
            self.wf(),
            i < 256,
        ensures
            r == self.window_seq()[i as int],
    {
        self.window[i]
    }

    /// Tapers a raw frame by the analysis window. Pure and deterministic:
    /// each sample is multiplied by the coefficient at its index.
    pub fn apply(&self, frame: &Vec<i64>) -> (w: Vec<i64>)
        requires
            self.wf(),
            frame@.len() == 256,
            forall|i: int| 0 <= i < 256 ==> -32768 <= #[trigger] frame@[i] <= 32768,
        ensures
            w@.len() == 256,
            forall|i: int| 0 <= i < 256 ==>
                #[trigger] w@[i] == self.spec_windowed(ints(frame@))[i],
            forall|i: int| 0 <= i < 256 ==> -32768 <= #[trigger] w@[i] <= 32768,
    {
        let mut w: Vec<i64> = Vec::new();
        let mut i: usize = 0;
        while i < FRAME_SIZE
            invariant
                self.wf(),
                frame@.len() == 256,
                forall|j: int| 0 <= j < 256 ==> -32768 <= #[trigger] frame@[j] <= 32768,
                i <= 256,
                w@.len() == i,
                forall|j: int| 0 <= j < i ==>
                    #[trigger] w@[j] == self.spec_windowed(ints(frame@))[j],
                forall|j: int| 0 <= j < i ==> -32768 <= #[trigger] w@[j] <= 32768,
            decreases 256 - i,
        {
            let x: i64 = frame[i];
            let c: i64 = self.window[i];
            proof {
                assert(self.window@[i as int] == self.window_seq()[i as int]);
                assert(-0x4000_0000 <= x as int * c as int <= 0x4000_0000) by (nonlinear_arith)
                    requires -32768 <= x as int <= 32768, 0 <= c as int <= 32768;
                lemma_div_trunc_bound(x as int * c as int, 32768, 0x4000_0000);
                lemma_fundamental_div_mod_converse_div(0x4000_0000, 32768, 32768, 0);
            }
            let prod: i64 = x * c;
            let v: i64 = div_trunc_i64(prod, Q15_ONE);
            w.push(v);
            i = i + 1;
        }
        w
    }

    /// Lifts a windowed real frame into the complex domain and applies
    /// the forward transform. No normalization on the forward pass.
    pub fn forward(&self, windowed: &Vec<i64>) -> (out: Vec<Cpx>)
        requires
            self.wf(),
            windowed@.len() == 256,
            forall|i: int| 0 <= i < 256 ==> -32768 <= #[trigger] windowed@[i] <= 32768,
        ensures
            out@.len() == 256,
            forall|k: int| 0 <= k < 256 ==> #[trigger] out@[k].re
                == tf_re(ints(windowed@), zeros(), self.twr_seq(), self.twi_seq(), k),
            forall|k: int| 0 <= k < 256 ==> #[trigger] out@[k].im
                == tf_im(ints(windowed@), zeros(), self.twr_seq(), self.twi_seq(), k),
            forall|k: int| 0 <= k < 256 ==> -16777216 <= #[trigger] out@[k].re <= 16777216,
            forall|k: int| 0 <= k < 256 ==> -16777216 <= #[trigger] out@[k].im <= 16777216,
    {
        let mut buf: Vec<Cpx> = Vec::new();
        let mut i: usize = 0;
        while i < FRAME_SIZE
            invariant
                windowed@.len() == 256,
                forall|j: int| 0 <= j < 256 ==> -32768 <= #[trigger] windowed@[j] <= 32768,
                i <= 256,
                buf@.len() == i,
                forall|j: int| 0 <= j < i ==> #[trigger] buf@[j].re == windowed@[j],
                forall|j: int| 0 <= j < i ==> #[trigger] buf@[j].im == 0,
            decreases 256 - i,
        {
            buf.push(Cpx { re: windowed[i], im: 0 });
            i = i + 1;
        }
        proof {
            assert(res(buf@) =~= ints(windowed@));
            assert(ims(buf@) =~= zeros());
            assert(ints(self.twid_re@) == self.twr_seq());
            assert(ints(self.twid_im@) == self.twi_seq());
            assert forall|t: int| 0 <= t < 256 implies -32768 <= #[trigger] self.twid_re@[t]
                <= 32768 by {
                assert(self.twr_seq()[t] == self.twid_re@[t]);
            }
            assert forall|t: int| 0 <= t < 256 implies -32768 <= #[trigger] self.twid_im@[t]
                <= 32768 by {
                assert(self.twi_seq()[t] == self.twid_im@[t]);
            }
        }
        let out = transform(&self.twid_re, &self.twid_im, &buf, Ghost(32768));
        out
    }

    /// Attenuates each bin of a spectral buffer by the clamped gain for
    /// that bin. This is the only point where the external mask enters.
    pub fn apply_gain(&self, buf: &Vec<Cpx>, ai: &AiPrediction) -> (out: Vec<Cpx>)
        requires
            ai.wf(),
            buf@.len() == 256,
            forall|k: int| 0 <= k < 256 ==> -16777216 <= #[trigger] buf@[k].re <= 16777216,
            forall|k: int| 0 <= k < 256 ==> -16777216 <= #[trigger] buf@[k].im <= 16777216,
        ensures
            out@.len() == 256,
            forall|k: int| 0 <= k < 256 ==>
                #[trigger] out@[k].re == spec_gained(res(buf@), ai.gains())[k],
            forall|k: int| 0 <= k < 256 ==>
                #[trigger] out@[k].im == spec_gained(ims(buf@), ai.gains())[k],
            forall|k: int| 0 <= k < 256 ==> -16777216 <= #[trigger] out@[k].re <= 16777216,
            forall|k: int| 0 <= k < 256 ==> -16777216 <= #[trigger] out@[k].im <= 16777216,
    {
        let mut out: Vec<Cpx> = Vec::new();
        let mut k: usize = 0;
        while k < FRAME_SIZE
            invariant
                ai.wf(),
                buf@.len() == 256,
                forall|j: int| 0 <= j < 256 ==> -16777216 <= #[trigger] buf@[j].re <= 16777216,
                forall|j: int| 0 <= j < 256 ==> -16777216 <= #[trigger] buf@[j].im <= 16777216,
                k <= 256,
                out@.len() == k,
                forall|j: int| 0 <= j < k ==>
                    #[trigger] out@[j].re == spec_gained(res(buf@), ai.gains())[j],
                forall|j: int| 0 <= j < k ==>
                    #[trigger] out@[j].im == spec_gained(ims(buf@), ai.gains())[j],
                forall|j: int| 0 <= j < k ==> -16777216 <= #[trigger] out@[j].re <= 16777216,
                forall|j: int| 0 <= j < k ==> -16777216 <= #[trigger] out@[j].im <= 16777216,
            decreases 256 - k,
        {
            let g: i64 = clamp_gain(ai.gain_at(k));
            let cr: i64 = buf[k].re;
            let ci: i64 = buf[k].im;
            proof {
                assert(-0x80_0000_0000 <= cr as int * g as int <= 0x80_0000_0000)
                    by (nonlinear_arith)
                    requires -16777216 <= cr as int <= 16777216, 0 <= g as int <= 32768;
                assert(-0x80_0000_0000 <= ci as int * g as int <= 0x80_0000_0000)
                    by (nonlinear_arith)
                    requires -16777216 <= ci as int <= 16777216, 0 <= g as int <= 32768;
                lemma_div_trunc_bound(cr as int * g as int, 32768, 0x80_0000_0000);
                lemma_div_trunc_bound(ci as int * g as int, 32768, 0x80_0000_0000);
                lemma_fundamental_div_mod_converse_div(0x80_0000_0000, 32768, 16777216, 0);
            }
            let vr: i64 = div_trunc_i64(cr * g, Q15_ONE);
            let vi: i64 = div_trunc_i64(ci * g, Q15_ONE);
            out.push(Cpx { re: vr, im: vi });
            k = k + 1;
        }
        out
    }

    /// Inverse transform via conjugation: conjugate every value, apply
    /// the forward-style transform, conjugate again, divide by the frame
    /// size, and keep the real part of each output sample.
    pub fn inverse(&self, buf: &Vec<Cpx>) -> (out: Vec<i64>)
        requires
            self.wf(),
            buf@.len() == 256,
            forall|k: int| 0 <= k < 256 ==> -16777216 <= #[trigger] buf@[k].re <= 16777216,
            forall|k: int| 0 <= k < 256 ==> -16777216 <= #[trigger] buf@[k].im <= 16777216,
        ensures
            out@.len() == 256,
            forall|k: int| 0 <= k < 256 ==>
                #[trigger] out@[k] == self.spec_inv_out(res(buf@), ims(buf@))[k],
            forall|k: int| 0 <= k < 256 ==> -33554432 <= #[trigger] out@[k] <= 33554432,
    {
        let mut conj: Vec<Cpx> = Vec::new();
        let mut i: usize = 0;
        while i < FRAME_SIZE
            invariant
                buf@.len() == 256,
                forall|j: int| 0 <= j < 256 ==> -16777216 <= #[trigger] buf@[j].re <= 16777216,
                forall|j: int| 0 <= j < 256 ==> -16777216 <= #[trigger] buf@[j].im <= 16777216,
                i <= 256,
                conj@.len() == i,
                forall|j: int| 0 <= j < i ==> #[trigger] conj@[j].re == buf@[j].re,
                forall|j: int| 0 <= j < i ==> #[trigger] conj@[j].im == -buf@[j].im,
            decreases 256 - i,
        {
            let c: Cpx = buf[i];
            conj.push(Cpx { re: c.re, im: -c.im });
            i = i + 1;
        }
        proof {
            assert(res(conj@) =~= res(buf@));
            assert(ims(conj@) =~= negs(ims(buf@)));
            assert(ints(self.twid_re@) == self.twr_seq());
            assert(ints(self.twid_im@) == self.twi_seq());
            assert forall|t: int| 0 <= t < 256 implies -32768 <= #[trigger] self.twid_re@[t]
                <= 32768 by {
                assert(self.twr_seq()[t] == self.twid_re@[t]);
            }
            assert forall|t: int| 0 <= t < 256 implies -32768 <= #[trigger] self.twid_im@[t]
                <= 32768 by {
                assert(self.twi_seq()[t] == self.twid_im@[t]);
            }
        }
        let t = transform(&self.twid_re, &self.twid_im, &conj, Ghost(16777216));
        let mut out: Vec<i64> = Vec::new();
        let mut k: usize = 0;
        while k < FRAME_SIZE
            invariant
                self.wf(),
                buf@.len() == 256,
                t@.len() == 256,
                forall|j: int| 0 <= j < 256 ==> #[trigger] t@[j].re
                    == tf_re(res(buf@), negs(ims(buf@)), self.twr_seq(), self.twi_seq(), j),
                forall|j: int| 0 <= j < 256 ==>
                    -512 * 16777216 <= #[trigger] t@[j].re <= 512 * 16777216,
                k <= 256,
                out@.len() == k,
                forall|j: int| 0 <= j < k ==>
                    #[trigger] out@[j] == self.spec_inv_out(res(buf@), ims(buf@))[j],
                forall|j: int| 0 <= j < k ==> -33554432 <= #[trigger] out@[j] <= 33554432,
            decreases 256 - k,
        {
            proof {
                lemma_div_trunc_bound(t@[k as int].re as int, 256, 512 * 16777216int);
                lemma_fundamental_div_mod_converse_div(512 * 16777216int, 256, 33554432, 0);
            }
            let v: i64 = div_trunc_i64(t[k].re, 256);
            out.push(v);
            k = k + 1;
        }
        out
    }

    /// Runs one frame through the whole filter: taper, forward transform,
    /// clamped gain mask, inverse transform. The result is exactly
    /// `spec_frame_out` of the input frame and mask.
    pub fn process_frame(&self, noisy_pcm: &Vec<i64>, ai: &AiPrediction) -> (out: Vec<i64>)
        requires
            self.wf(),
            ai.wf(),
            noisy_pcm@.len() == 256,
            forall|i: int| 0 <= i < 256 ==> -32768 <= #[trigger] noisy_pcm@[i] <= 32768,
        ensures
            out@.len() == 256,
            forall|i: int| 0 <= i < 256 ==>
                #[trigger] out@[i] == self.spec_frame_out(ints(noisy_pcm@), ai.gains())[i],
            forall|i: int| 0 <= i < 256 ==> -33554432 <= #[trigger] out@[i] <= 33554432,
    {
        let ghost x = ints(noisy_pcm@);
        let w = self.apply(noisy_pcm);
        proof {
            assert(ints(w@) =~= self.spec_windowed(x));
        }
        let spectrum = self.forward(&w);
        proof {
            assert(res(spectrum@) =~= self.spec_fwd_re(x));
            assert(ims(spectrum@) =~= self.spec_fwd_im(x));
        }
        let shaped = self.apply_gain(&spectrum, ai);
        proof {
            assert(res(shaped@) =~= spec_gained(self.spec_fwd_re(x), ai.gains()));
            assert(ims(shaped@) =~= spec_gained(self.spec_fwd_im(x), ai.gains()));
        }
        let out = self.inverse(&shaped);
        proof {
            assert forall|i: int| 0 <= i < 256 implies #[trigger] out@[i]
                == self.spec_frame_out(x, ai.gains())[i] by {
                assert(out@[i] == self.spec_inv_out(res(shaped@), ims(shaped@))[i]);
            }
        }
        out
    }
}

} // verus!
