//! The frame pipeline driver: partitions a PCM signal into consecutive,
//! non-overlapping frames of `FRAME_SIZE` samples, runs each frame
//! through the filter, clips the reconstructed samples to the PCM range,
//! and concatenates the output frames in order. Trailing samples short
//! of a full frame are dropped silently (documented truncation). Empty
//! input is surfaced as a distinct no-input condition before any frame
//! is processed.
//!
//! Signed 16-bit PCM samples are carried directly as the engine's
//! fixed-point values, so scaling into a normalized range and back is
//! the identity; only the final clip to the PCM bounds remains.

use vstd::prelude::*;
use vstd::arithmetic::div_mod::*;

verus! {

use crate::filter::AiPrediction;
use crate::filter::QWiseFilter;
use crate::spectral::ints;
use crate::FRAME_SIZE;

/// The pipeline's boundary error: there was nothing to process.
#[derive(Clone, Copy, Debug, PartialEq, Eq, Structural)]
pub enum QwiseError {
    NoInput,
}

/// A reconstructed sample clipped to the signed 16-bit PCM range, rather
/// than wrapping or failing.
pub open spec fn spec_clip(v: int) -> int {
    if v < -32768 {
        -32768
    } else if v > 32767 {
        32767
    } else {
        v
    }
}

/// Clips one sample to the signed 16-bit PCM range.
pub fn clip_sample(v: i64) -> (r: i64)
    ensures
        r == spec_clip(v as int),
{
    if v < -32768 {
        -32768
    } else if v > 32767 {
        32767
    } else {
        v
    }
}

impl QWiseFilter {
    /// The pipeline's output for frame `f` of a signal: the filtered,
    /// clipped reconstruction of samples `[f*256, f*256 + 256)`.
    pub open spec fn spec_signal_frame(&self, samples: Seq<i64>, g: Seq<int>, f: int) -> Seq<int> {
        Seq::new(
            256,
            |i: int| spec_clip(
                self.spec_frame_out(ints(samples.subrange(f * 256, f * 256 + 256)), g)[i],
            ),
        )
    }

    /// Runs a whole signal through the filter, frame by frame, in order.
    ///
    /// Empty input yields the no-input error. Otherwise exactly
    /// `samples.len() / FRAME_SIZE` frames are emitted, concatenated in
    /// frame order; trailing samples short of a full frame are dropped.
    pub fn process_signal(&self, samples: &Vec<i64>, ai: &AiPrediction) -> (r: Result<
        Vec<i64>,
        QwiseError,
    >)
        requires
            self.wf(),
            ai.wf(),
            forall|i: int| 0 <= i < samples@.len() ==> -32768 <= #[trigger] samples@[i] <= 32768,
        ensures
            r is Err <==> samples@.len() == 0,
            r is Err ==> r == Err::<Vec<i64>, QwiseError>(QwiseError::NoInput),
            r is Ok ==> r.unwrap()@.len() == (samples@.len() as int / 256) * 256,
            r is Ok ==> forall|f: int, i: int|
                0 <= f < samples@.len() as int / 256 && 0 <= i < 256 ==>
                    r.unwrap()@[f * 256 + i]
                        == self.spec_signal_frame(samples@, ai.gains(), f)[i],
    {
        let n: usize = samples.len();
        if n == 0 {
            return Err(QwiseError::NoInput);
        }
        let nframes: usize = n / FRAME_SIZE;
        proof {
            lemma_fundamental_div_mod(samples@.len() as int, 256);
        }
        let mut out: Vec<i64> = Vec::new();
        let mut f: usize = 0;
        let mut base: usize = 0;
        while f < nframes
            invariant
                samples@.len() == n,
                base == f * 256,
                self.wf(),
                ai.wf(),
                forall|i: int| 0 <= i < samples@.len() ==> -32768 <= #[trigger] samples@[i]
                    <= 32768,
                nframes == samples@.len() as int / 256,
                nframes * 256 <= samples@.len(),
                f <= nframes,
                out@.len() == f * 256,
                forall|ff: int, i: int|
                    0 <= ff < f && 0 <= i < 256 ==> out@[ff * 256 + i]
                        == self.spec_signal_frame(samples@, ai.gains(), ff)[i],
            decreases nframes - f,
        {
            proof {
                assert((f + 1) * 256 <= nframes * 256) by (nonlinear_arith)
                    requires f as int + 1 <= nframes as int;
                assert(f * 256 + 256 == (f + 1) * 256) by (nonlinear_arith);
                assert(f as int * 256 + 256 <= nframes as int * 256);
                assert(f as int * 256 + 256 <= samples@.len());
            }
            let mut frame: Vec<i64> = Vec::new();
            let mut i: usize = 0;
            while i < FRAME_SIZE
                invariant
                    samples@.len() >= base + 256,
                    base == f * 256,
                    forall|j: int| 0 <= j < samples@.len() ==> -32768 <= #[trigger] samples@[j]
                        <= 32768,
                    i <= 256,
                    frame@.len() == i,
                    forall|j: int| 0 <= j < i ==> #[trigger] frame@[j] == samples@[base + j],
                decreases 256 - i,
            {
                frame.push(samples[base + i]);
                i = i + 1;
            }
            proof {
                assert(frame@ =~= samples@.subrange(
                    f as int * 256,
                    f as int * 256 + 256,
                ));
            }
            let processed = self.process_frame(&frame, ai);
            let ghost out_before = out@;
            let mut i: usize = 0;
            while i < FRAME_SIZE
                invariant
                    self.wf(),
                    ai.wf(),
                    processed@.len() == 256,
                    forall|j: int| 0 <= j < 256 ==> #[trigger] processed@[j]
                        == self.spec_frame_out(ints(frame@), ai.gains())[j],
                    f as int * 256 + 256 <= samples@.len(),
                    frame@ == samples@.subrange(f as int * 256, f as int * 256 + 256),
                    i <= 256,
                    out@.len() == out_before.len() + i,
                    out_before.len() == f * 256,
                    out@.subrange(0, out_before.len() as int) == out_before,
                    forall|j: int| 0 <= j < i ==> #[trigger] out@[f * 256 + j]
                        == spec_clip(self.spec_frame_out(ints(frame@), ai.gains())[j]),
                decreases 256 - i,
            {
                let v: i64 = clip_sample(processed[i]);
                out.push(v);
                proof {
                    assert(out@.subrange(0, out_before.len() as int) =~= out_before);
                }
                i = i + 1;
            }
            proof {
                assert forall|ff: int, j: int| 0 <= ff < f as int + 1 && 0 <= j < 256 implies
                    out@[ff * 256 + j] == self.spec_signal_frame(samples@, ai.gains(), ff)[j] by {
                    if ff < f as int {
                        assert(0 <= ff * 256 + j < f as int * 256) by (nonlinear_arith)
                            requires 0 <= ff < f as int, 0 <= j < 256;
                        assert(out@[ff * 256 + j] == out_before[ff * 256 + j]);
                    } else {
                        assert(out@[ff * 256 + j] == spec_clip(
                            self.spec_frame_out(ints(frame@), ai.gains())[j],
                        ));
                    }
                }
            }
            proof {
                assert(base + 256 <= samples@.len());
            }
            base = base + FRAME_SIZE;
            f = f + 1;
        }
        Ok(out)
    }
}

} // verus!
