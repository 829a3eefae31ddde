//! Error taxonomy of the pipeline: every fatal condition names the stage that
//! detected it and carries the offending value.

use vstd::prelude::*;

verus! {

/// The pipeline stage at which a fatal condition was detected.
#[derive(Clone, Copy, Debug, PartialEq, Eq, Structural)]
pub enum Stage {
    /// The decoded stream held no raw samples at all.
    Input,
    /// The stream was shorter than one complete frame, so downmixing
    /// produced no mono samples.
    Downmix,
    /// The duration cap truncated the conditioned signal to zero samples.
    DurationCap,
}

/// A fatal error of one pipeline run. There is no partial-result mode:
/// either a complete result is produced or the run fails with one of these.
#[derive(Clone, Copy, Debug, PartialEq, Eq, Structural)]
pub enum PitchError {
    /// The bit-depth/format pairing is not one of the four supported
    /// encodings; no scale is guessed for it.
    UnsupportedEncoding { bits: u16, float_format: bool },
    /// No samples were left to analyze at the named stage.
    EmptyInput { stage: Stage },
}

impl PitchError {
    /// A fixed human-readable description; the carried fields hold the
    /// offending values themselves.
    pub fn describe(&self) -> (r: &'static str)
        ensures
            r@ == self.spec_describe(),
    {
        match self {
            PitchError::UnsupportedEncoding { .. } => "unsupported sample encoding",
            PitchError::EmptyInput { stage: Stage::Input } => "the stream holds no samples",
            PitchError::EmptyInput { stage: Stage::Downmix } => {
                "the stream is shorter than one complete frame"
            },
            PitchError::EmptyInput { stage: Stage::DurationCap } => {
                "the duration cap left no samples to analyze"
            },
        }
    }

    pub open spec fn spec_describe(&self) -> Seq<char> {
        match self {
            PitchError::UnsupportedEncoding { .. } => "unsupported sample encoding"@,
            PitchError::EmptyInput { stage: Stage::Input } => "the stream holds no samples"@,
            PitchError::EmptyInput { stage: Stage::Downmix } => {
                "the stream is shorter than one complete frame"@
            },
            PitchError::EmptyInput { stage: Stage::DurationCap } => {
                "the duration cap left no samples to analyze"@
            },
        }
    }
}

} // verus!
