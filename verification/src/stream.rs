//! The decoded audio stream as the external decoder hands it over: raw
//! sample words, their encoding, the channel count and the sample rate.

use vstd::prelude::*;
use crate::error::PitchError;

verus! {

/// The supported sample encodings: bit depth and sample format of one raw
/// word. Exactly one of the four; any other pairing is a hard error.
#[derive(Clone, Copy, Debug, PartialEq, Eq, Structural)]
pub enum SampleEncoding {
    /// 16-bit signed integer samples.
    Int16,
    /// 24-bit signed integer samples, left-aligned in a 32-bit container.
    Int24,
    /// 32-bit signed integer samples.
    Int32,
    /// 32-bit floating samples, already normalized by the source; the shell
    /// hands them over as fixed-point words with denominator 2^32.
    Float32,
}

/// Exclusive magnitude bound of a raw sample word under each encoding.
/// Integer encodings are bounded by their container; floating samples,
/// scaled by 2^32, are granted two bits of headroom above full scale.
pub open spec fn word_limit(enc: SampleEncoding) -> int {
    match enc {
        SampleEncoding::Int16 => 0x8000,
        SampleEncoding::Int24 => 0x8000_0000,
        SampleEncoding::Int32 => 0x8000_0000,
        SampleEncoding::Float32 => 0x4_0000_0000,
    }
}

/// A raw word the decoder may hand over under the given encoding.
pub open spec fn word_in_range(w: i64, enc: SampleEncoding) -> bool {
    -word_limit(enc) <= w < word_limit(enc)
}

/// One decoded audio clip: interleaved raw sample words plus their format
/// metadata. Produced once by the external decoder; read-only to the core.
pub struct AudioStream {
    /// Interleaved raw sample words, one per channel per frame.
    pub samples: Vec<i64>,
    /// Encoding of every word in `samples`.
    pub encoding: SampleEncoding,
    /// Number of interleaved channels, at least one.
    pub channels: u32,
    /// Sample rate in Hertz, positive.
    pub rate: u32,
}

impl AudioStream {
    /// What the external decoder guarantees of a stream it hands over.
    /// The channel bound is a machine limit: it keeps every frame sum
    /// representable in 64 bits.
    pub open spec fn wf(&self) -> bool {
        &&& 1 <= self.channels <= 0x1000_0000
        &&& self.rate >= 1
        &&& forall|i: int|
            0 <= i < self.samples@.len() ==> word_in_range(self.samples@[i], self.encoding)
    }
}

/// Maps the decoder's bit depth and sample format to the supported encoding,
/// or reports the pairing as unsupported — a hard error, never a guessed
/// scale.
pub fn encoding_of(bits: u16, float_format: bool) -> (r: Result<SampleEncoding, PitchError>)
    ensures
        r == spec_encoding_of(bits, float_format),
{
    if !float_format && bits == 16 {
        Ok(SampleEncoding::Int16)
    } else if !float_format && bits == 24 {
        Ok(SampleEncoding::Int24)
    } else if !float_format && bits == 32 {
        Ok(SampleEncoding::Int32)
    } else if float_format && bits == 32 {
        Ok(SampleEncoding::Float32)
    } else {
        Err(PitchError::UnsupportedEncoding { bits, float_format })
    }
}

pub open spec fn spec_encoding_of(bits: u16, float_format: bool) -> Result<
    SampleEncoding,
    PitchError,
> {
    if !float_format && bits == 16 {
        Ok(SampleEncoding::Int16)
    } else if !float_format && bits == 24 {
        Ok(SampleEncoding::Int24)
    } else if !float_format && bits == 32 {
        Ok(SampleEncoding::Int32)
    } else if float_format && bits == 32 {
        Ok(SampleEncoding::Float32)
    } else {
        Err(PitchError::UnsupportedEncoding { bits, float_format })
    }
}

} // verus!
