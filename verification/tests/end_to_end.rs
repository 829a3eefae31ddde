//! End-to-end scenario: a synthetic mono 16-bit, 44100 Hz stream holding a
//! pure 440 Hz sine tone for one second, windowed and transformed at the
//! next power of two, yields a detected frequency within one bin width of
//! 440 Hz and the note A in octave 4. The floating kernels — window,
//! transform, magnitudes, logarithm — run here exactly as the shell runs
//! them, around the library's verified stages.

use pitchcore::config::PitchConfig;
use pitchcore::note::{resolve, Letter, NoteName};
use pitchcore::signal::condition;
use pitchcore::spectrum::{find_peak, transform_len};
use pitchcore::stream::{AudioStream, SampleEncoding};
use rustfft::num_complex::Complex;
use rustfft::FftPlanner;

/// Hann window coefficient, as the shell computes it.
fn hann(n: usize, size: usize) -> f32 {
    if size <= 1 {
        1.0
    } else {
        let x = 2.0 * std::f32::consts::PI * n as f32 / (size as f32 - 1.0);
        0.5 * (1.0 - x.cos())
    }
}

/// A magnitude as an order-preserving integer key: non-negative finite
/// magnitudes keep their order, and anything else — including a NaN —
/// sinks below every positive magnitude instead of winning a comparison.
fn magnitude_key(m: f32) -> u32 {
    if m > 0.0 {
        m.to_bits()
    } else {
        0
    }
}

#[test]
fn pure_sine_tone_detects_a4() {
    let rate: u32 = 44100;
    let tone_hz = 440.0f64;
    let samples: Vec<i64> = (0..rate as usize)
        .map(|i| {
            let t = i as f64 / rate as f64;
            let s = (2.0 * std::f64::consts::PI * tone_hz * t).sin();
            (s * 10000.0).round() as i64
        })
        .collect();
    let stream = AudioStream { samples, encoding: SampleEncoding::Int16, channels: 1, rate };
    let cfg = PitchConfig::default();

    // Verified conditioning: exact numerators over the full-scale denominator.
    let sig = condition(&stream, &cfg).unwrap();
    assert_eq!(sig.rate, rate);
    assert_eq!(sig.denom, 32767);

    // Floating shell: normalize to f32, window, zero-pad, transform.
    let m = sig.samples.len();
    let n = transform_len(m, cfg.pad_to_pow2);
    assert_eq!(n, 65536);
    let mut buffer: Vec<Complex<f32>> = sig
        .samples
        .iter()
        .enumerate()
        .map(|(i, &num)| {
            let v = num as f32 / sig.denom as f32;
            let w = if cfg.window { hann(i, m) } else { 1.0 };
            Complex { re: v * w, im: 0.0 }
        })
        .collect();
    buffer.resize(n, Complex { re: 0.0, im: 0.0 });
    let mut planner = FftPlanner::<f32>::new();
    let fft = planner.plan_fft_forward(n);
    fft.process(&mut buffer);
    let keys: Vec<u32> = buffer.iter().map(|c| magnitude_key(c.norm())).collect();

    // Verified peak search and exact range verdict.
    let verdict = find_peak(&keys, sig.rate, &cfg);
    assert!(verdict.in_range);
    let freq = verdict.freq_num as f64 / verdict.spectrum_len as f64;
    let bin_width = sig.rate as f64 / n as f64;
    assert!(
        (freq - tone_hz).abs() <= bin_width,
        "detected {} Hz, expected within {} of {}",
        freq,
        bin_width,
        tone_hz
    );

    // Floating shell: continuous note number; verified note mapping.
    let midi = (12.0 * (freq / 440.0).log2() + 69.0).round() as i32;
    let result = resolve(&verdict, midi);
    assert_eq!(result.note, Some(NoteName { letter: Letter::A, octave: 4 }));
}

#[test]
fn nan_magnitudes_never_win_the_peak_search() {
    // Defensive policy: a NaN magnitude is keyed below every finite
    // magnitude, so a real bin still wins.
    let mags: Vec<f32> = vec![1.0, f32::NAN, 3.0, 2.0];
    let keys: Vec<u32> = mags.iter().map(|&m| magnitude_key(m)).collect();
    let cfg = PitchConfig::default();
    let verdict = find_peak(&keys, 4, &cfg);
    assert_eq!(verdict.index, 2);
}
