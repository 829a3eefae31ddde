//! The configuration of one pipeline run. The four slightly diverging
//! variants of this pipeline differ only in these named options, so one
//! parameterized implementation covers them all.

use vstd::prelude::*;

verus! {

/// Named options of one pipeline run.
///
/// The search-range fraction is carried as the exact rational
/// `search_num / search_den`; the reference pitch is carried in millihertz
/// so the core holds it as a plain integer. The shell converts it to a
/// floating value only inside the logarithm of the note mapper.
pub struct PitchConfig {
    /// Decimation factor: keep every D-th sample, starting at index 0.
    /// One means no decimation.
    pub decimation: usize,
    /// Optional duration cap in milliseconds, applied after decimation.
    pub max_duration_ms: Option<u64>,
    /// Numerator of the search-range fraction.
    pub search_num: u32,
    /// Denominator of the search-range fraction.
    pub search_den: u32,
    /// Whether the Hann analysis window is applied before the transform.
    pub window: bool,
    /// Whether the transform length is rounded up to the next power of two,
    /// or kept at the exact conditioned length.
    pub pad_to_pow2: bool,
    /// Lower edge of the acceptance band, Hertz, inclusive.
    pub min_hz: u32,
    /// Upper edge of the acceptance band, Hertz, inclusive.
    pub max_hz: u32,
    /// Reference pitch in millihertz; the note carrying it is named by
    /// `reference_midi`.
    pub reference_millihz: u64,
    /// Note number of the reference pitch under the standard convention.
    pub reference_midi: i32,
}

impl PitchConfig {
    /// A caller-supplied configuration the pipeline accepts. The duration
    /// bound is a machine limit: it keeps the sample-count product of the
    /// cap representable in 64 bits.
    pub open spec fn wf(&self) -> bool {
        &&& 1 <= self.decimation <= 0xFFFF_FFFF
        &&& 1 <= self.search_num <= self.search_den
        &&& self.min_hz <= self.max_hz
        &&& self.reference_millihz >= 1
        &&& match self.max_duration_ms {
            Some(ms) => ms <= 0x7FFF_FFFF,
            None => true,
        }
    }
}

/// The default configuration: no decimation, no duration cap, search the
/// whole spectrum, window on, pad to the next power of two, accept 20 to
/// 4000 Hertz, reference pitch 440 Hz at note number 69.
pub open spec fn spec_default_config() -> PitchConfig {
    PitchConfig {
        decimation: 1,
        max_duration_ms: None,
        search_num: 1,
        search_den: 1,
        window: true,
        pad_to_pow2: true,
        min_hz: 20,
        max_hz: 4000,
        reference_millihz: 440_000,
        reference_midi: 69,
    }
}

impl Default for PitchConfig {
    fn default() -> (r: Self)
        ensures
            r == spec_default_config(),
            r.wf(),
    {
        PitchConfig {
            decimation: 1,
            max_duration_ms: None,
            search_num: 1,
            search_den: 1,
            window: true,
            pad_to_pow2: true,
            min_hz: 20,
            max_hz: 4000,
            reference_millihz: 440_000,
            reference_midi: 69,
        }
    }
}

} // verus!
