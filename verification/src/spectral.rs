//! The spectral buffer type and the fixed-point discrete Fourier transform.
//!
//! A frame's transform-domain image is a sequence of `FRAME_SIZE` complex
//! values with Q15 integer parts. The transform is the direct size-256
//! discrete Fourier sum against a precomputed twiddle table; each output
//! component is rescaled by a truncating division by the Q15 unit, so the
//! whole transform has an exact integer specification.

use vstd::prelude::*;
use vstd::arithmetic::div_mod::*;

verus! {

use crate::FRAME_SIZE;
use crate::Q15_ONE;

/// One complex value of a spectral buffer, with Q15 integer components.
#[derive(Clone, Copy, Debug, PartialEq, Eq, Structural)]
pub struct Cpx {
    pub re: i64,
    pub im: i64,
}

/// Truncating (round-toward-zero) division, the semantics of every
/// rescaling step in the engine. Meaningful for `d > 0`.
pub open spec fn div_trunc(v: int, d: int) -> int {
    if v >= 0 {
        v / d
    } else {
        -((-v) / d)
    }
}

/// Truncating division of an `i64` by a positive divisor.
pub fn div_trunc_i64(v: i64, d: i64) -> (r: i64)
    requires
        0 < d,
        i64::MIN < v,
    ensures
        r == div_trunc(v as int, d as int),
{
    if v >= 0 {
        proof {
            assert(v as int <= v as int * d) by (nonlinear_arith)
                requires 1 <= d, 0 <= v as int;
            lemma_div_pos_is_pos(v as int, d as int);
            lemma_div_is_ordered(v as int, v as int * d, d as int);
            lemma_div_by_multiple(v as int, d as int);
        }
        v / d
    } else {
        proof {
            let w = -(v as int);
            assert(w <= w * d) by (nonlinear_arith)
                requires 1 <= d, 0 <= w;
            lemma_div_pos_is_pos(w, d as int);
            lemma_div_is_ordered(w, w * d, d as int);
            lemma_div_by_multiple(w, d as int);
        }
        -((-v) / d)
    }
}

/// The magnitude of a truncating division never exceeds the magnitude
/// bound of the dividend divided the same way.
pub proof fn lemma_div_trunc_bound(v: int, d: int, b: int)
    requires
        0 < d,
        0 <= b,
        -b <= v <= b,
    ensures
        -(b / d) <= div_trunc(v, d) <= b / d,
{
    if v >= 0 {
        lemma_div_pos_is_pos(v, d);
        lemma_div_is_ordered(v, b, d);
    } else {
        lemma_div_pos_is_pos(-v, d);
        lemma_div_is_ordered(-v, b, d);
    }
}

/// Truncating division exactly undoes multiplication by the divisor.
pub proof fn lemma_div_trunc_exact(x: int, d: int)
    requires
        0 < d,
    ensures
        div_trunc(x * d, d) == x,
{
    if x >= 0 {
        lemma_div_by_multiple(x, d);
    } else {
        assert(-(x * d) == (-x) * d) by (nonlinear_arith);
        assert(x * d <= 0) by (nonlinear_arith)
            requires x <= 0, 0 < d;
        lemma_div_by_multiple(-x, d);
    }
}

/// Sum of a sequence of integers.
pub open spec fn sum(s: Seq<int>) -> int
    decreases s.len(),
{
    if s.len() == 0 {
        0
    } else {
        sum(s.drop_last()) + s.last()
    }
}

/// A pointwise-zero sequence sums to zero.
pub proof fn lemma_sum_zero(s: Seq<int>)
    requires
        forall|i: int| 0 <= i < s.len() ==> #[trigger] s[i] == 0,
    ensures
        sum(s) == 0,
    decreases s.len(),
{
    if s.len() > 0 {
        lemma_sum_zero(s.drop_last());
    }
}

/// The view of an integer vector as a sequence of mathematical integers.
pub open spec fn ints(s: Seq<i64>) -> Seq<int> {
    Seq::new(s.len(), |i: int| s[i] as int)
}

/// The real components of a spectral buffer, as mathematical integers.
pub open spec fn res(buf: Seq<Cpx>) -> Seq<int> {
    Seq::new(buf.len(), |i: int| buf[i].re as int)
}

/// The imaginary components of a spectral buffer, as mathematical integers.
pub open spec fn ims(buf: Seq<Cpx>) -> Seq<int> {
    Seq::new(buf.len(), |i: int| buf[i].im as int)
}

/// A sequence of 256 zeros: the imaginary part of a lifted real frame.
pub open spec fn zeros() -> Seq<int> {
    Seq::new(256, |i: int| 0)
}

/// The pointwise negation of a sequence, used to conjugate a buffer.
pub open spec fn negs(s: Seq<int>) -> Seq<int> {
    Seq::new(s.len(), |i: int| -s[i])
}

/// One term of the real part of the transform sum for output index `k`:
/// the real part of `buf[j] * twiddle[(j*k) % 256]`.
pub open spec fn tf_term_re(
    br: Seq<int>,
    bi: Seq<int>,
    twr: Seq<int>,
    twi: Seq<int>,
    k: int,
    j: int,
) -> int {
    br[j] * twr[(j * k) % 256] - bi[j] * twi[(j * k) % 256]
}

/// One term of the imaginary part of the transform sum.
pub open spec fn tf_term_im(
    br: Seq<int>,
    bi: Seq<int>,
    twr: Seq<int>,
    twi: Seq<int>,
    k: int,
    j: int,
) -> int {
    br[j] * twi[(j * k) % 256] + bi[j] * twr[(j * k) % 256]
}

/// The real part of transform output `k`, rescaled to Q15 by a
/// truncating division.
pub open spec fn tf_re(br: Seq<int>, bi: Seq<int>, twr: Seq<int>, twi: Seq<int>, k: int) -> int {
    div_trunc(sum(Seq::new(256, |j: int| tf_term_re(br, bi, twr, twi, k, j))), 32768)
}

/// The imaginary part of transform output `k`, rescaled the same way.
pub open spec fn tf_im(br: Seq<int>, bi: Seq<int>, twr: Seq<int>, twi: Seq<int>, k: int) -> int {
    div_trunc(sum(Seq::new(256, |j: int| tf_term_im(br, bi, twr, twi, k, j))), 32768)
}

/// The forward-style discrete Fourier transform against a twiddle table.
///
/// `bound` is a ghost magnitude bound on the input components; the output
/// components are exactly `tf_re`/`tf_im` and bounded by `512 * bound`.
pub(crate) fn transform(
    twr: &Vec<i64>,
    twi: &Vec<i64>,
    buf: &Vec<Cpx>,
    Ghost(bound): Ghost<int>,
) -> (out: Vec<Cpx>)
    requires
        twr.len() == 256,
        twi.len() == 256,
        forall|t: int| 0 <= t < 256 ==> -32768 <= #[trigger] twr[t] <= 32768,
        forall|t: int| 0 <= t < 256 ==> -32768 <= #[trigger] twi[t] <= 32768,
        buf.len() == 256,
        0 <= bound <= 0x40_0000_0000,
        forall|j: int| 0 <= j < 256 ==> -bound <= #[trigger] buf[j].re <= bound,
        forall|j: int| 0 <= j < 256 ==> -bound <= #[trigger] buf[j].im <= bound,
    ensures
        out.len() == 256,
        forall|k: int| 0 <= k < 256 ==>
            #[trigger] out[k].re == tf_re(res(buf@), ims(buf@), ints(twr@), ints(twi@), k),
        forall|k: int| 0 <= k < 256 ==>
            #[trigger] out[k].im == tf_im(res(buf@), ims(buf@), ints(twr@), ints(twi@), k),
        forall|k: int| 0 <= k < 256 ==> -512 * bound <= #[trigger] out[k].re <= 512 * bound,
        forall|k: int| 0 <= k < 256 ==> -512 * bound <= #[trigger] out[k].im <= 512 * bound,
{
    let ghost br = res(buf@);
    let ghost bi = ims(buf@);
    let ghost gtwr = ints(twr@);
    let ghost gtwi = ints(twi@);
    let mut out: Vec<Cpx> = Vec::new();
    let mut k: usize = 0;
    while k < FRAME_SIZE
        invariant
            twr.len() == 256,
            twi.len() == 256,
            forall|t: int| 0 <= t < 256 ==> -32768 <= #[trigger] twr[t] <= 32768,
            forall|t: int| 0 <= t < 256 ==> -32768 <= #[trigger] twi[t] <= 32768,
            buf.len() == 256,
            0 <= bound <= 0x40_0000_0000,
            forall|j: int| 0 <= j < 256 ==> -bound <= #[trigger] buf[j].re <= bound,
            forall|j: int| 0 <= j < 256 ==> -bound <= #[trigger] buf[j].im <= bound,
            br == res(buf@),
            bi == ims(buf@),
            gtwr == ints(twr@),
            gtwi == ints(twi@),
            k <= 256,
            out.len() == k,
            forall|kk: int| 0 <= kk < k ==>
                #[trigger] out[kk].re == tf_re(br, bi, gtwr, gtwi, kk),
            forall|kk: int| 0 <= kk < k ==>
                #[trigger] out[kk].im == tf_im(br, bi, gtwr, gtwi, kk),
            forall|kk: int| 0 <= kk < k ==> -512 * bound <= #[trigger] out[kk].re <= 512 * bound,
            forall|kk: int| 0 <= kk < k ==> -512 * bound <= #[trigger] out[kk].im <= 512 * bound,
        decreases 256 - k,
    {
        let mut acc_re: i64 = 0;
        let mut acc_im: i64 = 0;
        let mut j: usize = 0;
        while j < FRAME_SIZE
            invariant
                twr.len() == 256,
                twi.len() == 256,
                forall|t: int| 0 <= t < 256 ==> -32768 <= #[trigger] twr[t] <= 32768,
                forall|t: int| 0 <= t < 256 ==> -32768 <= #[trigger] twi[t] <= 32768,
                buf.len() == 256,
                0 <= bound <= 0x40_0000_0000,
                forall|jj: int| 0 <= jj < 256 ==> -bound <= #[trigger] buf[jj].re <= bound,
                forall|jj: int| 0 <= jj < 256 ==> -bound <= #[trigger] buf[jj].im <= bound,
                br == res(buf@),
                bi == ims(buf@),
                gtwr == ints(twr@),
                gtwi == ints(twi@),
                k < 256,
                j <= 256,
                acc_re == sum(Seq::new(j as nat, |jj: int| tf_term_re(br, bi, gtwr, gtwi, k as int, jj))),
                acc_im == sum(Seq::new(j as nat, |jj: int| tf_term_im(br, bi, gtwr, gtwi, k as int, jj))),
                -((j as int) * (65536 * bound)) <= acc_re <= (j as int) * (65536 * bound),
                -((j as int) * (65536 * bound)) <= acc_im <= (j as int) * (65536 * bound),
            decreases 256 - j,
        {
            proof {
                assert((j as int) * (k as int) <= 65536) by (nonlinear_arith)
                    requires 0 <= j as int <= 256, 0 <= k as int <= 256;
            }
            let idx: usize = (j * k) % 256;
            let cr: i64 = buf[j].re;
            let ci: i64 = buf[j].im;
            let wr: i64 = twr[idx];
            let wi: i64 = twi[idx];
            proof {
                assert(-32768 * bound <= cr as int * wr as int <= 32768 * bound) by (nonlinear_arith)
                    requires -bound <= cr as int <= bound, -32768 <= wr as int <= 32768, 0 <= bound;
                assert(-32768 * bound <= ci as int * wi as int <= 32768 * bound) by (nonlinear_arith)
                    requires -bound <= ci as int <= bound, -32768 <= wi as int <= 32768, 0 <= bound;
                assert(-32768 * bound <= cr as int * wi as int <= 32768 * bound) by (nonlinear_arith)
                    requires -bound <= cr as int <= bound, -32768 <= wi as int <= 32768, 0 <= bound;
                assert(-32768 * bound <= ci as int * wr as int <= 32768 * bound) by (nonlinear_arith)
                    requires -bound <= ci as int <= bound, -32768 <= wr as int <= 32768, 0 <= bound;
                assert((j as int) * (65536 * bound) + 65536 * bound == (j + 1) as int * (65536 * bound))
                    by (nonlinear_arith);
                assert((j as int) * (65536 * bound) <= 255 * (65536 * bound)) by (nonlinear_arith)
                    requires 0 <= j as int <= 255, 0 <= bound;
                assert(255 * (65536 * bound) + 65536 * bound <= 0x4000_0000_0000_0000) by (nonlinear_arith)
                    requires 0 <= bound <= 0x40_0000_0000;
            }
            let term_re: i64 = cr * wr - ci * wi;
            let term_im: i64 = cr * wi + ci * wr;
            proof {
                let fre = |jj: int| tf_term_re(br, bi, gtwr, gtwi, k as int, jj);
                let fim = |jj: int| tf_term_im(br, bi, gtwr, gtwi, k as int, jj);
                let sre = Seq::new((j + 1) as nat, fre);
                let sim = Seq::new((j + 1) as nat, fim);
                assert(sre.drop_last() =~= Seq::new(j as nat, fre));
                assert(sim.drop_last() =~= Seq::new(j as nat, fim));
                assert(sre.last() == fre(j as int));
                assert(sim.last() == fim(j as int));
                assert(fre(j as int) == term_re);
                assert(fim(j as int) == term_im);
            }
            acc_re = acc_re + term_re;
            acc_im = acc_im + term_im;
            j = j + 1;
        }
        proof {
            assert((256int) * (65536 * bound) == 16777216 * bound) by (nonlinear_arith);
            lemma_div_trunc_bound(acc_re as int, 32768, 16777216 * bound);
            lemma_div_trunc_bound(acc_im as int, 32768, 16777216 * bound);
            assert((16777216 * bound) / 32768 == 512 * bound) by {
                assert(16777216 * bound == (512 * bound) * 32768) by (nonlinear_arith);
                assert(0 <= 512 * bound) by (nonlinear_arith)
                    requires 0 <= bound;
                lemma_div_by_multiple(512 * bound, 32768);
            }
        }
        let out_re: i64 = div_trunc_i64(acc_re, Q15_ONE);
        let out_im: i64 = div_trunc_i64(acc_im, Q15_ONE);
        out.push(Cpx { re: out_re, im: out_im });
        k = k + 1;
    }
    out
}

} // verus!
