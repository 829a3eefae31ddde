//! The signal-conditioning chain: sample normalization, channel downmix,
//! decimation and duration capping.
//!
//! The chain is exact: a normalized sample is carried as an integer
//! numerator over the full-scale denominator of its encoding, and the
//! downmix carries the frame sum while multiplying the denominator by the
//! channel count — the mean of the normalized frame, as an exact rational.
//! The single conversion to floating point happens outside the core, at the
//! windowing stage.

use vstd::prelude::*;
use vstd::arithmetic::div_mod::lemma_fundamental_div_mod_converse;
use crate::config::PitchConfig;
use crate::error::{PitchError, Stage};
use crate::stream::{AudioStream, SampleEncoding, word_in_range};

verus! {

/// Full-scale denominator of each encoding: the value a raw word is divided
/// by to reach the normalized range. The integer depths of 16 and 32 bits
/// use the maximum representable magnitude of their signed container; the
/// 24-bit depth uses its power-of-two full-scale value, not the 32-bit
/// maximum, which would under-scale by a factor of 256. Floating samples
/// arrive as fixed-point words scaled by 2^32.
pub open spec fn denom_of(enc: SampleEncoding) -> int {
    match enc {
        SampleEncoding::Int16 => 0x7FFF,
        SampleEncoding::Int24 => 0x80_0000,
        SampleEncoding::Int32 => 0x7FFF_FFFF,
        SampleEncoding::Float32 => 0x1_0000_0000,
    }
}

/// The full-scale denominator as a runtime value.
pub fn scale_denominator(enc: SampleEncoding) -> (d: u64)
    ensures
        d == denom_of(enc),
{
    match enc {
        SampleEncoding::Int16 => 0x7FFF,
        SampleEncoding::Int24 => 0x80_0000,
        SampleEncoding::Int32 => 0x7FFF_FFFF,
        SampleEncoding::Float32 => 0x1_0000_0000,
    }
}

/// Numerator of the normalized value of one raw word: the normalized
/// sample is exactly `scaled_word(w, enc) / denom_of(enc)`. A 24-bit word
/// is arithmetic-shift-right by eight bits — Euclidean division by 256 —
/// to recover the true 24-bit magnitude from its 32-bit container; every
/// other encoding passes through.
pub open spec fn scaled_word(w: i64, enc: SampleEncoding) -> int {
    match enc {
        SampleEncoding::Int24 => w as int / 256,
        _ => w as int,
    }
}

/// Exclusive magnitude bound of a scaled word under each encoding.
pub open spec fn scaled_limit(enc: SampleEncoding) -> int {
    match enc {
        SampleEncoding::Int16 => 0x8000,
        SampleEncoding::Int24 => 0x80_0000,
        SampleEncoding::Int32 => 0x8000_0000,
        SampleEncoding::Float32 => 0x4_0000_0000,
    }
}

/// Normalizes one raw word: recovers the 24-bit magnitude of an `Int24`
/// word from its container, passes every other encoding through.
pub fn normalize_word(w: i64, enc: SampleEncoding) -> (r: i64)
    requires
        word_in_range(w, enc),
    ensures
        r == scaled_word(w, enc),
        -scaled_limit(enc) <= r < scaled_limit(enc),
{
    match enc {
        SampleEncoding::Int24 => {
            let q_opt = w.checked_div_euclid(256);
            proof {
                lemma_fundamental_div_mod_converse(w as int, 256, w as int / 256, w as int % 256);
            }
            q_opt.unwrap()
        },
        _ => w,
    }
}

/// The sequence of normalized numerators of a raw stream.
pub open spec fn scaled_seq(s: Seq<i64>, enc: SampleEncoding) -> Seq<int> {
    Seq::new(s.len(), |i: int| scaled_word(s[i], enc))
}

/// Normalizes every raw word of a stream, in order.
pub fn normalize_stream(stream: &AudioStream) -> (r: Vec<i64>)
    requires
        stream.wf(),
    ensures
        r@.len() == stream.samples@.len(),
        forall|i: int|
            0 <= i < r@.len() ==> r@[i] == scaled_word(stream.samples@[i], stream.encoding),
        forall|i: int|
            0 <= i < r@.len() ==> -scaled_limit(stream.encoding) <= #[trigger] r@[i]
                < scaled_limit(stream.encoding),
{
    let mut out: Vec<i64> = Vec::new();
    let mut idx: usize = 0;
    let len = stream.samples.len();
    while idx < len
        invariant
            stream.wf(),
            len == stream.samples@.len(),
            idx <= len,
            out@.len() == idx,
            forall|i: int|
                0 <= i < idx ==> out@[i] == scaled_word(stream.samples@[i], stream.encoding),
            forall|i: int|
                0 <= i < idx ==> -scaled_limit(stream.encoding) <= #[trigger] out@[i]
                    < scaled_limit(stream.encoding),
        decreases len - idx,
    {
        let w = stream.samples[idx];
        let n = normalize_word(w, stream.encoding);
        out.push(n);
        idx = idx + 1;
    }
    out
}

/// Sum of `count` consecutive normalized numerators starting at `base`.
pub open spec fn frame_total(s: Seq<int>, base: int, count: int) -> int
    decreases count,
{
    if count <= 0 {
        0
    } else {
        frame_total(s, base, count - 1) + s[base + count - 1]
    }
}

/// The mono sequence of a C-channel interleaved sequence: one value per
/// complete frame, the sum of the frame's C numerators. Dividing by the
/// denominator times C yields the mean of the frame's normalized samples;
/// trailing words short of a complete frame are dropped.
pub open spec fn mono_mix(s: Seq<int>, c: int) -> Seq<int> {
    Seq::new((s.len() as int / c) as nat, |i: int| frame_total(s, i * c, c))
}

/// The view of an integer sample vector as a sequence of mathematical
/// integers.
pub open spec fn as_ints(s: Seq<i64>) -> Seq<int> {
    Seq::new(s.len(), |i: int| s[i] as int)
}

/// Downmixes an interleaved sequence of scaled words to mono by summing
/// each complete frame; the caller accounts for the channel count in the
/// denominator. A channel count that does not evenly divide the sequence
/// length truncates the trailing words, it is not an error.
pub fn downmix(samples: &Vec<i64>, channels: u32) -> (r: Vec<i64>)
    requires
        1 <= channels <= 0x1000_0000,
        forall|i: int|
            0 <= i < samples@.len() ==> -0x4_0000_0000 <= #[trigger] samples@[i] <= 0x4_0000_0000,
    ensures
        r@.len() == samples@.len() as int / channels as int,
        forall|j: int|
            0 <= j < r@.len() ==> r@[j] == frame_total(
                as_ints(samples@),
                j * channels,
                channels as int,
            ),
        forall|j: int|
            0 <= j < r@.len() ==> -0x4000_0000_0000_0000 <= #[trigger] r@[j]
                <= 0x4000_0000_0000_0000,
{
    let ghost si = as_ints(samples@);
    let mut out: Vec<i64> = Vec::new();
    let mut acc: i64 = 0;
    let mut k: u32 = 0;
    let mut idx: usize = 0;
    let len = samples.len();
    while idx < len
        invariant
            1 <= channels <= 0x1000_0000,
            si == as_ints(samples@),
            forall|i: int|
                0 <= i < samples@.len() ==> -0x4_0000_0000 <= #[trigger] samples@[i]
                    <= 0x4_0000_0000,
            len == samples@.len(),
            idx <= len,
            k < channels,
            idx == out@.len() * channels + k,
            acc == frame_total(si, out@.len() * (channels as int), k as int),
            -(k as int) * 0x4_0000_0000 <= acc <= (k as int) * 0x4_0000_0000,
            forall|j: int|
                0 <= j < out@.len() ==> out@[j] == frame_total(si, j * channels, channels as int),
            forall|j: int|
                0 <= j < out@.len() ==> -0x4000_0000_0000_0000 <= #[trigger] out@[j]
                    <= 0x4000_0000_0000_0000,
        decreases len - idx,
    {
        let w = samples[idx];
        proof {
            assert((k as int) * 0x4_0000_0000 <= 0x1000_0000int * 0x4_0000_0000) by (nonlinear_arith)
                requires
                    0 <= k < 0x1000_0000,
            ;
            assert(((k + 1) as int) * 0x4_0000_0000 == (k as int) * 0x4_0000_0000 + 0x4_0000_0000)
                by (nonlinear_arith);
            assert(si[idx as int] == samples@[idx as int]);
        }
        acc = acc + w;
        idx = idx + 1;
        k = k + 1;
        proof {
            assert(acc == frame_total(si, out@.len() * (channels as int), k as int));
        }
        if k == channels {
            proof {
                assert((out@.len() + 1) * (channels as int) == out@.len() * (channels as int)
                    + channels as int) by (nonlinear_arith);
                assert((k as int) * 0x4_0000_0000 <= 0x1000_0000int * 0x4_0000_0000)
                    by (nonlinear_arith)
                    requires
                        0 < k <= 0x1000_0000,
                ;
            }
            out.push(acc);
            acc = 0;
            k = 0;
        }
    }
    proof {
        lemma_fundamental_div_mod_converse(
            len as int,
            channels as int,
            out@.len() as int,
            k as int,
        );
    }
    out
}

/// Every D-th element of a sequence, starting at index 0: the strided
/// subsampling of the decimator. No anti-aliasing low-pass filter is
/// applied first — a deliberate simplicity/quality trade-off of this
/// design, not an omission to upgrade silently.
pub open spec fn decimated(s: Seq<int>, d: int) -> Seq<int> {
    Seq::new((((s.len() + d - 1) as int) / d) as nat, |i: int| s[i * d])
}

/// Keeps every `factor`-th sample, starting at index 0.
pub fn decimate(v: &Vec<i64>, factor: usize) -> (r: Vec<i64>)
    requires
        1 <= factor,
        v@.len() + factor <= usize::MAX,
    ensures
        r@.len() == (v@.len() + factor - 1) as int / factor as int,
        forall|j: int| 0 <= j < r@.len() ==> #[trigger] r@[j] == v@[j * factor],
{
    let mut out: Vec<i64> = Vec::new();
    let mut idx: usize = 0;
    let len = v.len();
    proof {
        assert(out@.len() * factor == 0) by (nonlinear_arith)
            requires
                out@.len() == 0,
        ;
    }
    while idx < len
        invariant
            1 <= factor,
            len == v@.len(),
            len + factor <= usize::MAX,
            idx <= len + factor,
            idx == out@.len() * factor,
            out@.len() == 0 || (out@.len() - 1) * factor < len,
            forall|j: int| 0 <= j < out@.len() ==> #[trigger] out@[j] == v@[j * factor],
        decreases len + factor - idx,
    {
        let w = v[idx];
        proof {
            assert((out@.len() + 1) * (factor as int) == out@.len() * (factor as int)
                + factor as int) by (nonlinear_arith);
        }
        out.push(w);
        idx = idx + factor;
    }
    proof {
        let q = out@.len() as int;
        let f = factor as int;
        let x = len as int + f - 1;
        if q == 0 {
            lemma_fundamental_div_mod_converse(x, f, 0, x);
        } else {
            assert((q - 1) * f == q * f - f) by (nonlinear_arith);
            lemma_fundamental_div_mod_converse(x, f, q, x - q * f);
        }
    }
    out
}

/// The sample count a duration cap allows: the effective rate times the
/// cap in milliseconds, rounded to the nearest count.
pub open spec fn cap_count(rate: int, ms: int) -> int {
    (rate * ms + 500) / 1000
}

/// A sequence truncated to what a duration cap allows; a sequence already
/// shorter than the cap is kept whole, and without a cap nothing changes.
pub open spec fn capped(s: Seq<int>, rate: int, ms_opt: Option<u64>) -> Seq<int> {
    match ms_opt {
        Option::None => s,
        Option::Some(ms) => if cap_count(rate, ms as int) < s.len() {
            s.take(cap_count(rate, ms as int))
        } else {
            s
        },
    }
}

/// The length of a mono sequence a duration cap allows at the given
/// effective rate.
pub fn capped_len(len: usize, rate: u32, ms: u64) -> (r: usize)
    requires
        ms <= 0x7FFF_FFFF,
    ensures
        r == if cap_count(rate as int, ms as int) < len as int {
            cap_count(rate as int, ms as int)
        } else {
            len as int
        },
{
    proof {
        assert(rate as int * ms as int <= 0xFFFF_FFFFint * 0x7FFF_FFFF) by (nonlinear_arith)
            requires
                0 <= rate <= 0xFFFF_FFFF && 0 <= ms <= 0x7FFF_FFFF,
        ;
    }
    let c: u64 = (rate as u64 * ms + 500) / 1000;
    if c < len as u64 {
        c as usize
    } else {
        len
    }
}

/// A conditioned mono signal, ready for the spectral stage: exact integer
/// numerators over one common denominator, plus the effective sample rate
/// after decimation. The value of sample `i` is `samples[i] / denom`.
#[derive(Debug, PartialEq, Eq)]
pub struct ConditionedSignal {
    /// Exact numerators of the mono samples.
    pub samples: Vec<i64>,
    /// Common denominator: the encoding's full-scale value times the
    /// channel count of the downmix.
    pub denom: u64,
    /// Effective sample rate in Hertz after decimation.
    pub rate: u32,
}

impl ConditionedSignal {
    pub open spec fn wf(&self) -> bool {
        &&& self.denom >= 1
        &&& self.samples@.len() >= 1
    }
}

/// Effective sample rate after decimation: the stream's rate divided by
/// the decimation factor, truncated.
pub open spec fn effective_rate(stream: &AudioStream, cfg: &PitchConfig) -> int {
    stream.rate as int / cfg.decimation as int
}

/// The numerators the conditioning chain leaves for the spectral stage:
/// normalize every raw word, sum each complete frame, keep every D-th
/// mono sample, and truncate to the duration cap.
pub open spec fn conditioned_values(stream: &AudioStream, cfg: &PitchConfig) -> Seq<int> {
    let scaled = scaled_seq(stream.samples@, stream.encoding);
    let mono = mono_mix(scaled, stream.channels as int);
    let dec = decimated(mono, cfg.decimation as int);
    capped(dec, effective_rate(stream, cfg), cfg.max_duration_ms)
}

/// The error a run fails with when conditioning leaves no samples: the
/// stage that first detects the emptiness.
pub open spec fn spec_condition_error(stream: &AudioStream, cfg: &PitchConfig) -> PitchError {
    if stream.samples@.len() == 0 {
        PitchError::EmptyInput { stage: Stage::Input }
    } else if stream.samples@.len() as int / stream.channels as int == 0 {
        PitchError::EmptyInput { stage: Stage::Downmix }
    } else {
        PitchError::EmptyInput { stage: Stage::DurationCap }
    }
}

/// Runs the whole conditioning chain of one pipeline invocation. Succeeds
/// exactly when at least one sample is left after normalization, downmix,
/// decimation and the duration cap; a run that would leave none fails with
/// `EmptyInput`, never with a default result.
pub fn condition(stream: &AudioStream, cfg: &PitchConfig) -> (r: Result<
    ConditionedSignal,
    PitchError,
>)
    requires
        stream.wf(),
        cfg.wf(),
        stream.samples@.len() + cfg.decimation <= usize::MAX,
    ensures
        r.is_ok() <==> conditioned_values(stream, cfg).len() > 0,
        match r {
            Ok(sig) => {
                &&& sig.wf()
                &&& sig.samples@.len() == conditioned_values(stream, cfg).len()
                &&& forall|i: int|
                    0 <= i < sig.samples@.len() ==> #[trigger] sig.samples@[i]
                        == conditioned_values(stream, cfg)[i]
                &&& sig.denom == denom_of(stream.encoding) * stream.channels
                &&& sig.rate == effective_rate(stream, cfg)
            },
            Err(e) => e == spec_condition_error(stream, cfg),
        },
{
    let ghost scaled_spec = scaled_seq(stream.samples@, stream.encoding);
    let ghost mono_spec = mono_mix(scaled_spec, stream.channels as int);
    let ghost dec_spec = decimated(mono_spec, cfg.decimation as int);
    let ghost fin_spec = capped(dec_spec, effective_rate(stream, cfg), cfg.max_duration_ms);

    if stream.samples.len() == 0 {
        proof {
            assert(mono_spec.len() == 0);
            assert(dec_spec.len() == (cfg.decimation - 1) as int / cfg.decimation as int);
            lemma_fundamental_div_mod_converse(
                cfg.decimation - 1,
                cfg.decimation as int,
                0,
                cfg.decimation - 1,
            );
            assert(fin_spec.len() == 0);
        }
        return Err(PitchError::EmptyInput { stage: Stage::Input });
    }

    let scaled = normalize_stream(stream);
    proof {
        assert(as_ints(scaled@) =~= scaled_spec);
        assert forall|i: int| 0 <= i < scaled@.len() implies -0x4_0000_0000
            <= #[trigger] scaled@[i] <= 0x4_0000_0000 by {
            assert(-scaled_limit(stream.encoding) <= scaled@[i] < scaled_limit(stream.encoding));
        }
    }
    let mono = downmix(&scaled, stream.channels);
    proof {
        assert(as_ints(mono@) =~= mono_spec) by {
            assert forall|j: int| 0 <= j < mono@.len() implies as_ints(mono@)[j] == mono_spec[j] by {
                assert(mono@[j] == frame_total(as_ints(scaled@), j * stream.channels,
                    stream.channels as int));
            }
        }
    }
    if mono.len() == 0 {
        proof {
            assert(dec_spec.len() == (cfg.decimation - 1) as int / cfg.decimation as int);
            lemma_fundamental_div_mod_converse(
                cfg.decimation - 1,
                cfg.decimation as int,
                0,
                cfg.decimation - 1,
            );
            assert(fin_spec.len() == 0);
        }
        return Err(PitchError::EmptyInput { stage: Stage::Downmix });
    }

    proof {
        vstd::arithmetic::div_mod::lemma_div_is_ordered_by_denominator(
            stream.samples@.len() as int,
            1,
            stream.channels as int,
        );
    }
    let mut dec = decimate(&mono, cfg.decimation);
    proof {
        assert(as_ints(dec@) =~= dec_spec) by {
            assert forall|j: int| 0 <= j < dec@.len() implies as_ints(dec@)[j] == dec_spec[j] by {
                let d = cfg.decimation as int;
                let q = (mono@.len() + d - 1) as int / d;
                vstd::arithmetic::div_mod::lemma_fundamental_div_mod(mono@.len() + d - 1, d);
                vstd::arithmetic::mul::lemma_mul_inequality(j, q - 1, d);
                assert((q - 1) * d == q * d - d) by (nonlinear_arith);
                assert(j * d < mono@.len());
                assert(dec@[j] == mono@[j * d]);
                assert(as_ints(mono@)[j * d] == mono_spec[j * d]);
            }
        }
    }

    let dec_u32: u32 = cfg.decimation as u32;
    let eff_rate: u32 = stream.rate / dec_u32;

    match cfg.max_duration_ms {
        Some(ms) => {
            let cl = capped_len(dec.len(), eff_rate, ms);
            dec.truncate(cl);
            proof {
                assert(as_ints(dec@) =~= fin_spec);
            }
        },
        None => {
            proof {
                assert(as_ints(dec@) =~= fin_spec);
            }
        },
    }

    if dec.len() == 0 {
        return Err(PitchError::EmptyInput { stage: Stage::DurationCap });
    }

    let denom_base = scale_denominator(stream.encoding);
    proof {
        assert(denom_base * stream.channels <= 0x1_0000_0000int * 0x1000_0000) by (nonlinear_arith)
            requires
                0 <= denom_base <= 0x1_0000_0000 && 0 <= stream.channels <= 0x1000_0000,
        ;
        assert(denom_base * stream.channels >= 1) by (nonlinear_arith)
            requires
                denom_base >= 1 && stream.channels >= 1,
        ;
    }
    let denom = denom_base * (stream.channels as u64);
    Ok(ConditionedSignal { samples: dec, denom, rate: eff_rate })
}

/// A single-channel downmix is the identity: every frame is one sample,
/// and its frame sum is the sample itself.
pub proof fn lemma_mono_downmix_is_identity(s: Seq<int>)
    ensures
        mono_mix(s, 1) == s,
{
    assert forall|i: int| 0 <= i < s.len() implies mono_mix(s, 1)[i] == s[i] by {
        assert(frame_total(s, i, 1) == frame_total(s, i, 0) + s[i]);
    }
    assert(mono_mix(s, 1) =~= s);
}

/// A decimation factor of one with no duration cap is a pass-through:
/// every sample is kept, whatever the effective rate.
pub proof fn lemma_unit_decimation_is_identity(s: Seq<int>, rate: int)
    ensures
        decimated(s, 1) == s,
        capped(s, rate, None) == s,
{
    assert(decimated(s, 1) =~= s);
}

/// Round-trip of normalization at the rails of `Int16`: the maximum
/// positive raw sample normalizes to exactly one (numerator equals the
/// denominator), and the most negative raw sample normalizes to
/// -32768/32767, within one part in 32767 of minus one.
pub proof fn lemma_normalization_round_trip()
    ensures
        scaled_word(0x7FFF, SampleEncoding::Int16) == denom_of(SampleEncoding::Int16),
        scaled_word(-0x8000i64, SampleEncoding::Int16) == -denom_of(SampleEncoding::Int16) - 1,
{
}

/// 24-bit scale correctness: the raw 24-bit-packed value 2^23 - 1, shifted
/// into its 32-bit container, normalizes to (2^23 - 1)/2^23 — within one
/// part in 2^23 of one, not anywhere near 1/256 as dividing by the 32-bit
/// maximum would give.
pub proof fn lemma_int24_full_scale()
    ensures
        scaled_word(0x7FFF_FF00, SampleEncoding::Int24) == denom_of(SampleEncoding::Int24) - 1,
{
    lemma_fundamental_div_mod_converse(0x7FFF_FF00, 256, 0x7F_FFFF, 0);
}

} // verus!
