//! The note mapper: from a rounded note number to the nearest
//! equal-tempered note name under the standard MIDI-relative convention
//! (note number 69 is A in octave 4; octave 4 holds numbers 60 to 71).
//!
//! The continuous note number `12 * log2(frequency / reference) + 69` is
//! computed and rounded by the shell, since the logarithm is a floating
//! operation; this module does the exact integer half of the mapping.

use vstd::prelude::*;
use crate::spectrum::PeakVerdict;

verus! {

/// One of the twelve letters of the chromatic scale, starting at C.
#[derive(Clone, Copy, Debug, PartialEq, Eq, Structural)]
pub enum Letter {
    C,
    Cs,
    D,
    Ds,
    E,
    F,
    Fs,
    G,
    Gs,
    A,
    As,
    B,
}

/// A musical note name: letter plus octave. Derived, stateless, never
/// mutated.
#[derive(Clone, Copy, Debug, PartialEq, Eq, Structural)]
pub struct NoteName {
    pub letter: Letter,
    /// Octave under the standard convention: octave 4 holds note numbers
    /// 60 to 71.
    pub octave: i32,
}

/// The letter at the given position of the chromatic sequence starting
/// at C. Positions outside [0, 12) do not arise; they fall back to C.
pub open spec fn letter_of_index(i: int) -> Letter {
    if i == 0 {
        Letter::C
    } else if i == 1 {
        Letter::Cs
    } else if i == 2 {
        Letter::D
    } else if i == 3 {
        Letter::Ds
    } else if i == 4 {
        Letter::E
    } else if i == 5 {
        Letter::F
    } else if i == 6 {
        Letter::Fs
    } else if i == 7 {
        Letter::G
    } else if i == 8 {
        Letter::Gs
    } else if i == 9 {
        Letter::A
    } else if i == 10 {
        Letter::As
    } else {
        Letter::B
    }
}

/// The note name of a rounded note number: the letter is the number modulo
/// twelve against the chromatic sequence, the octave is the number divided
/// by twelve, less one. Division and modulo are Euclidean, so negative
/// numbers map correctly instead of indexing out of range.
pub open spec fn spec_note_of_midi(m: int) -> NoteName {
    NoteName { letter: letter_of_index(m % 12), octave: (m / 12 - 1) as i32 }
}

/// Maps a rounded note number to its note name.
pub fn note_of_midi(m: i32) -> (r: NoteName)
    ensures
        r == spec_note_of_midi(m as int),
{
    let idx_opt = m.checked_rem_euclid(12);
    let idx = idx_opt.unwrap();
    let q_opt = m.checked_div_euclid(12);
    let q = q_opt.unwrap();
    let letter = match idx {
        0 => Letter::C,
        1 => Letter::Cs,
        2 => Letter::D,
        3 => Letter::Ds,
        4 => Letter::E,
        5 => Letter::F,
        6 => Letter::Fs,
        7 => Letter::G,
        8 => Letter::Gs,
        9 => Letter::A,
        10 => Letter::As,
        _ => Letter::B,
    };
    NoteName { letter, octave: q - 1 }
}

/// The display text of a letter, sharps written with `#`.
pub open spec fn spec_letter_label(l: Letter) -> Seq<char> {
    match l {
        Letter::C => "C"@,
        Letter::Cs => "C#"@,
        Letter::D => "D"@,
        Letter::Ds => "D#"@,
        Letter::E => "E"@,
        Letter::F => "F"@,
        Letter::Fs => "F#"@,
        Letter::G => "G"@,
        Letter::Gs => "G#"@,
        Letter::A => "A"@,
        Letter::As => "A#"@,
        Letter::B => "B"@,
    }
}

/// The display text of a letter, for the reporting collaborator.
pub fn letter_label(l: Letter) -> (r: &'static str)
    ensures
        r@ == spec_letter_label(l),
{
    match l {
        Letter::C => "C",
        Letter::Cs => "C#",
        Letter::D => "D",
        Letter::Ds => "D#",
        Letter::E => "E",
        Letter::F => "F",
        Letter::Fs => "F#",
        Letter::G => "G",
        Letter::Gs => "G#",
        Letter::A => "A",
        Letter::As => "A#",
        Letter::B => "B",
    }
}

/// The terminal artifact of one pipeline run: the dominant frequency as
/// the exact rational `freq_num / spectrum_len` Hertz, the nearest note
/// when the frequency lies in the acceptance band, and the band verdict.
#[derive(Clone, Copy, Debug, PartialEq, Eq)]
pub struct PitchResult {
    /// Numerator of the dominant frequency in Hertz.
    pub freq_num: u64,
    /// Denominator of the dominant frequency: the transform size.
    pub spectrum_len: usize,
    /// The nearest note, present exactly when the frequency is in range.
    pub note: Option<NoteName>,
    /// Whether the dominant frequency lies inside the acceptance band.
    pub in_range: bool,
}

/// Assembles the terminal artifact from the peak verdict and the rounded
/// continuous note number the shell computed for the dominant frequency.
/// A frequency outside the acceptance band reports no note at all rather
/// than a misleading name.
pub fn resolve(peak: &PeakVerdict, midi: i32) -> (r: PitchResult)
    ensures
        r.freq_num == peak.freq_num,
        r.spectrum_len == peak.spectrum_len,
        r.in_range == peak.in_range,
        r.note == if peak.in_range {
            Some(spec_note_of_midi(midi as int))
        } else {
            None::<NoteName>
        },
{
    if peak.in_range {
        PitchResult {
            freq_num: peak.freq_num,
            spectrum_len: peak.spectrum_len,
            note: Some(note_of_midi(midi)),
            in_range: true,
        }
    } else {
        PitchResult {
            freq_num: peak.freq_num,
            spectrum_len: peak.spectrum_len,
            note: None,
            in_range: false,
        }
    }
}

/// The reference pitch itself maps to A in octave 4, and the note number
/// that a frequency of about 261.63 Hz rounds to maps to C in octave 4.
/// With the default reference of 440 Hz at note number 69, the continuous
/// note number of 440 Hz is exactly 69, and that of 261.63 Hz rounds to 60.
pub proof fn lemma_note_mapping_reference_points()
    ensures
        spec_note_of_midi(69) == (NoteName { letter: Letter::A, octave: 4 }),
        spec_note_of_midi(60) == (NoteName { letter: Letter::C, octave: 4 }),
{
}

} // verus!
