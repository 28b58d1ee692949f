//! End-to-end tests of the fixed-point spectral filtering engine.

use qwise_sim::filter::clamp_gain;
use qwise_sim::filter::AiPrediction;
use qwise_sim::filter::QWiseFilter;
use qwise_sim::pipeline::clip_sample;
use qwise_sim::pipeline::QwiseError;

const N: usize = 256;
const ONE: i64 = 32768;

fn constant_mask(g: i64) -> AiPrediction {
    AiPrediction::new(vec![g; N]).expect("a 256-entry gain map is well-formed")
}

/// A deterministic test signal: a mix of two tones, well inside the PCM range.
fn tone_mix() -> Vec<i64> {
    (0..N)
        .map(|i| {
            let t = i as f64 / N as f64;
            let v = 10000.0 * (2.0 * std::f64::consts::PI * 5.0 * t).sin()
                + 5000.0 * (2.0 * std::f64::consts::PI * 23.0 * t).cos();
            v.round() as i64
        })
        .collect()
}

#[test]
fn construction_is_deterministic() {
    let f1 = QWiseFilter::new();
    let f2 = QWiseFilter::new();
    for i in 0..N {
        assert_eq!(f1.window_coeff(i), f2.window_coeff(i));
    }
    let frame = tone_mix();
    let mask = constant_mask(21299);
    assert_eq!(f1.process_frame(&frame, &mask), f2.process_frame(&frame, &mask));
}

#[test]
fn window_first_coefficient_is_zero() {
    let f = QWiseFilter::new();
    assert_eq!(f.window_coeff(0), 0);
    assert_eq!(f.window_coeff(255), 0);
}

#[test]
fn window_is_symmetric() {
    let f = QWiseFilter::new();
    for i in 0..N {
        assert_eq!(f.window_coeff(i), f.window_coeff(255 - i));
    }
}

#[test]
fn window_exact_values() {
    let f = QWiseFilter::new();
    // Exact fixed-point values of the raised-cosine formula.
    assert_eq!(f.window_coeff(1), 5);
    assert_eq!(f.window_coeff(64), 16486);
    assert_eq!(f.window_coeff(127), 32766);
    assert_eq!(f.window_coeff(128), 32766);
    for i in 0..N {
        let w = f.window_coeff(i);
        assert!(0 <= w && w <= ONE);
    }
}

#[test]
fn window_application_is_exact_at_full_scale() {
    // A full-scale constant frame windowed gives exactly the coefficients.
    let f = QWiseFilter::new();
    let frame = vec![ONE; N];
    let w = f.apply(&frame);
    for i in 0..N {
        assert_eq!(w[i], f.window_coeff(i));
    }
}

#[test]
fn unit_gain_round_trip_impulse_is_exact() {
    // Forward then inverse (no windowing) with a unit mask reproduces an
    // impulse exactly: the transform of an impulse is flat, and every
    // rescale divides exactly.
    let f = QWiseFilter::new();
    let mut frame = vec![0i64; N];
    frame[0] = 16384;
    let spectrum = f.forward(&frame);
    let shaped = f.apply_gain(&spectrum, &constant_mask(ONE));
    let out = f.inverse(&shaped);
    assert_eq!(out, frame);
}

#[test]
fn unit_gain_round_trip_tones_within_tolerance() {
    // Forward then inverse (no windowing) with a unit mask reproduces a
    // tone mix within the fixed-point tolerance of the integer transform.
    let f = QWiseFilter::new();
    let frame = tone_mix();
    let spectrum = f.forward(&frame);
    let shaped = f.apply_gain(&spectrum, &constant_mask(ONE));
    let out = f.inverse(&shaped);
    let max_err = (0..N).map(|i| (out[i] - frame[i]).abs()).max().unwrap();
    assert!(max_err <= 64, "round-trip error {} exceeds tolerance", max_err);
}

#[test]
fn zero_gain_silences_frame() {
    let f = QWiseFilter::new();
    let out = f.process_frame(&tone_mix(), &constant_mask(0));
    assert_eq!(out, vec![0i64; N]);
}

#[test]
fn negative_gain_acts_as_zero() {
    let f = QWiseFilter::new();
    let frame = tone_mix();
    let silenced = f.process_frame(&frame, &constant_mask(0));
    let negative = f.process_frame(&frame, &constant_mask(-16384));
    assert_eq!(negative, silenced);
    assert_eq!(negative, vec![0i64; N]);
}

#[test]
fn overdriven_gain_acts_as_unit() {
    // A mask of 1.5 (49152 in Q15) behaves identically to 1.0.
    let f = QWiseFilter::new();
    let frame = tone_mix();
    let unit = f.process_frame(&frame, &constant_mask(ONE));
    let over = f.process_frame(&frame, &constant_mask(49152));
    assert_eq!(over, unit);
}

#[test]
fn clamp_gain_saturates() {
    assert_eq!(clamp_gain(49152), ONE);
    assert_eq!(clamp_gain(ONE), ONE);
    assert_eq!(clamp_gain(-16384), 0);
    assert_eq!(clamp_gain(0), 0);
    assert_eq!(clamp_gain(21299), 21299);
}

#[test]
fn clip_sample_clips_to_pcm_bounds() {
    assert_eq!(clip_sample(40000), 32767);
    assert_eq!(clip_sample(-40000), -32768);
    assert_eq!(clip_sample(123), 123);
    assert_eq!(clip_sample(-32768), -32768);
    assert_eq!(clip_sample(32767), 32767);
}

#[test]
fn process_frame_equals_composed_stages() {
    let f = QWiseFilter::new();
    let frame = tone_mix();
    let mask = constant_mask(21299);
    let windowed = f.apply(&frame);
    let spectrum = f.forward(&windowed);
    let shaped = f.apply_gain(&spectrum, &mask);
    let composed = f.inverse(&shaped);
    assert_eq!(f.process_frame(&frame, &mask), composed);
}

#[test]
fn ai_prediction_requires_one_gain_per_bin() {
    assert!(AiPrediction::new(vec![0; 256]).is_some());
    assert!(AiPrediction::new(vec![0; 255]).is_none());
    assert!(AiPrediction::new(vec![0; 257]).is_none());
    assert!(AiPrediction::new(Vec::new()).is_none());
    let ai = AiPrediction::new((0..256i64).collect()).unwrap();
    assert_eq!(ai.gain_at(0), 0);
    assert_eq!(ai.gain_at(255), 255);
}

#[test]
fn empty_input_is_distinct_error() {
    let f = QWiseFilter::new();
    let r = f.process_signal(&Vec::new(), &constant_mask(ONE));
    assert_eq!(r, Err(QwiseError::NoInput));
}

#[test]
fn frame_count_is_exact_and_trailing_samples_drop() {
    let f = QWiseFilter::new();
    let mask = constant_mask(ONE);
    // Exactly 2 frames in: exactly 2 frames out, no truncation.
    let two: Vec<i64> = (0..512).map(|i| (i % 100) as i64).collect();
    let out = f.process_signal(&two, &mask).unwrap();
    assert_eq!(out.len(), 512);
    // 3 frames plus 100 trailing samples: the tail is dropped.
    let ragged: Vec<i64> = (0..868).map(|i| (i % 100) as i64).collect();
    let out = f.process_signal(&ragged, &mask).unwrap();
    assert_eq!(out.len(), 768);
    // Fewer than one frame: zero frames out.
    let short: Vec<i64> = vec![1; 255];
    let out = f.process_signal(&short, &mask).unwrap();
    assert_eq!(out.len(), 0);
}

#[test]
fn signal_frames_are_processed_in_order() {
    let f = QWiseFilter::new();
    let mask = constant_mask(21299);
    let mut samples = tone_mix();
    let second: Vec<i64> = tone_mix().iter().map(|v| v / 2).collect();
    samples.extend_from_slice(&second);
    let out = f.process_signal(&samples, &mask).unwrap();
    let first_frame: Vec<i64> = f
        .process_frame(&tone_mix(), &mask)
        .iter()
        .map(|&v| clip_sample(v))
        .collect();
    let second_frame: Vec<i64> = f
        .process_frame(&second, &mask)
        .iter()
        .map(|&v| clip_sample(v))
        .collect();
    assert_eq!(&out[..256], &first_frame[..]);
    assert_eq!(&out[256..], &second_frame[..]);
}

#[test]
fn silence_in_silence_out_two_frames() {
    // A 512-sample all-zero signal with a constant 0.65 mask comes out
    // all-zero: the transform of zero is zero, regardless of gain.
    let f = QWiseFilter::new();
    let mask = constant_mask(21299);  // 0.65 in Q15
    let samples = vec![0i64; 512];
    let out = f.process_signal(&samples, &mask).unwrap();
    assert_eq!(out, vec![0i64; 512]);
}
