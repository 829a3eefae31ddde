use pitchcore::config::PitchConfig;
use pitchcore::error::{PitchError, Stage};
use pitchcore::signal::{
    capped_len, condition, decimate, downmix, normalize_word, scale_denominator,
};
use pitchcore::stream::{encoding_of, AudioStream, SampleEncoding};

fn default_config() -> PitchConfig {
    PitchConfig::default()
}

fn mono_int16(samples: Vec<i64>, rate: u32) -> AudioStream {
    AudioStream { samples, encoding: SampleEncoding::Int16, channels: 1, rate }
}

#[test]
fn encoding_of_supported_pairs() {
    assert_eq!(encoding_of(16, false), Ok(SampleEncoding::Int16));
    assert_eq!(encoding_of(24, false), Ok(SampleEncoding::Int24));
    assert_eq!(encoding_of(32, false), Ok(SampleEncoding::Int32));
    assert_eq!(encoding_of(32, true), Ok(SampleEncoding::Float32));
}

#[test]
fn encoding_of_rejects_unknown_pairs() {
    assert_eq!(
        encoding_of(8, false),
        Err(PitchError::UnsupportedEncoding { bits: 8, float_format: false })
    );
    assert_eq!(
        encoding_of(16, true),
        Err(PitchError::UnsupportedEncoding { bits: 16, float_format: true })
    );
    assert_eq!(
        encoding_of(64, true),
        Err(PitchError::UnsupportedEncoding { bits: 64, float_format: true })
    );
}

#[test]
fn int16_extremes_normalize_to_full_scale() {
    // Maximum positive raw sample: numerator equals the denominator, exactly 1.0.
    let num = normalize_word(32767, SampleEncoding::Int16);
    let den = scale_denominator(SampleEncoding::Int16);
    assert_eq!(num, 32767);
    assert_eq!(den, 32767);
    let v = num as f32 / den as f32;
    assert!((v - 1.0).abs() < 1e-6);
    // Most negative raw sample: within tolerance of -1.0.
    let num = normalize_word(-32768, SampleEncoding::Int16);
    let v = num as f32 / den as f32;
    assert!((v + 1.0).abs() < 1e-4);
}

#[test]
fn int24_packed_full_scale_is_near_one() {
    // 2^23 - 1 shifted into its 32-bit container.
    let raw: i64 = 0x7FFF_FF00;
    let num = normalize_word(raw, SampleEncoding::Int24);
    let den = scale_denominator(SampleEncoding::Int24);
    assert_eq!(num, 0x7F_FFFF);
    assert_eq!(den, 0x80_0000);
    let v = num as f32 / den as f32;
    assert!((v - 1.0).abs() < 1e-4);
    // Nowhere near the 1/256 that dividing by the 32-bit maximum would give.
    assert!(v > 0.99);
}

#[test]
fn int24_negative_words_shift_arithmetically() {
    assert_eq!(normalize_word(-256, SampleEncoding::Int24), -1);
    assert_eq!(normalize_word(-0x8000_0000, SampleEncoding::Int24), -0x80_0000);
}

#[test]
fn int32_and_float_words_pass_through() {
    assert_eq!(normalize_word(2_000_000_000, SampleEncoding::Int32), 2_000_000_000);
    assert_eq!(scale_denominator(SampleEncoding::Int32), 0x7FFF_FFFF);
    assert_eq!(normalize_word(0x1_0000_0000, SampleEncoding::Float32), 0x1_0000_0000);
    assert_eq!(scale_denominator(SampleEncoding::Float32), 0x1_0000_0000);
}

#[test]
fn downmix_sums_each_stereo_frame() {
    let samples: Vec<i64> = vec![1000, 2000, 3000, 5000];
    let mono = downmix(&samples, 2);
    assert_eq!(mono, vec![3000, 8000]);
}

#[test]
fn downmix_of_one_channel_is_identity() {
    let samples: Vec<i64> = vec![7, -9, 42];
    assert_eq!(downmix(&samples, 1), samples);
}

#[test]
fn downmix_drops_trailing_incomplete_frame() {
    let samples: Vec<i64> = vec![10, 20, 30, 40, 50];
    let mono = downmix(&samples, 2);
    assert_eq!(mono, vec![30, 70]);
}

#[test]
fn decimate_keeps_every_dth_sample() {
    let v: Vec<i64> = (0..10).collect();
    assert_eq!(decimate(&v, 3), vec![0, 3, 6, 9]);
    assert_eq!(decimate(&v, 1), v);
}

#[test]
fn duration_cap_rounds_to_nearest_count() {
    // round(44100 * 0.001 s) = round(44.1) = 44
    assert_eq!(capped_len(1000, 44100, 1), 44);
    // round(8000 * 0.25 s) = 2000, longer than the signal: keep it whole
    assert_eq!(capped_len(100, 8000, 250), 100);
    assert_eq!(capped_len(10000, 8000, 250), 2000);
}

#[test]
fn empty_input_is_fatal() {
    // Zero raw samples cause EmptyInput, never a default result.
    let stream = mono_int16(vec![], 44100);
    let r = condition(&stream, &default_config());
    assert_eq!(r, Err(PitchError::EmptyInput { stage: Stage::Input }));
}

#[test]
fn stream_shorter_than_one_frame_is_fatal() {
    let stream =
        AudioStream { samples: vec![100], encoding: SampleEncoding::Int16, channels: 2, rate: 8000 };
    let r = condition(&stream, &default_config());
    assert_eq!(r, Err(PitchError::EmptyInput { stage: Stage::Downmix }));
}

#[test]
fn cap_truncating_to_zero_is_fatal() {
    let stream = mono_int16(vec![100, 200, 300], 8000);
    let mut cfg = default_config();
    cfg.max_duration_ms = Some(0);
    let r = condition(&stream, &cfg);
    assert_eq!(r, Err(PitchError::EmptyInput { stage: Stage::DurationCap }));
}

#[test]
fn condition_carries_exact_numerators_and_denominator() {
    let stream = AudioStream {
        samples: vec![16384, -16384, 1000, 3000],
        encoding: SampleEncoding::Int16,
        channels: 2,
        rate: 44100,
    };
    let sig = condition(&stream, &default_config()).unwrap();
    assert_eq!(sig.samples, vec![0, 4000]);
    assert_eq!(sig.denom, 32767 * 2);
    assert_eq!(sig.rate, 44100);
}

#[test]
fn condition_applies_decimation_to_rate_and_samples() {
    let stream = mono_int16((0..100).collect(), 44100);
    let mut cfg = default_config();
    cfg.decimation = 8;
    let sig = condition(&stream, &cfg).unwrap();
    assert_eq!(sig.rate, 44100 / 8);
    assert_eq!(sig.samples.len(), 13); // ceil(100 / 8)
    assert_eq!(sig.samples[1], 8);
}

#[test]
fn error_descriptions_name_the_stage() {
    let e = PitchError::UnsupportedEncoding { bits: 8, float_format: false };
    assert_eq!(e.describe(), "unsupported sample encoding");
    let e = PitchError::EmptyInput { stage: Stage::Input };
    assert_eq!(e.describe(), "the stream holds no samples");
    let e = PitchError::EmptyInput { stage: Stage::Downmix };
    assert_eq!(e.describe(), "the stream is shorter than one complete frame");
    let e = PitchError::EmptyInput { stage: Stage::DurationCap };
    assert_eq!(e.describe(), "the duration cap left no samples to analyze");
}
