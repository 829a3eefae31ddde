use pitchcore::note::{letter_label, note_of_midi, resolve, Letter, NoteName};
use pitchcore::spectrum::PeakVerdict;

/// The shell's half of the note mapper: the continuous note number of a
/// frequency, rounded to the nearest integer.
fn rounded_note_number(freq_hz: f64, reference_hz: f64, reference_midi: i32) -> i32 {
    (12.0 * (freq_hz / reference_hz).log2() + reference_midi as f64).round() as i32
}

#[test]
fn reference_pitch_maps_to_a4() {
    // 440 Hz under the default reference has continuous note number
    // exactly 69.
    assert_eq!(rounded_note_number(440.0, 440.0, 69), 69);
    assert_eq!(note_of_midi(69), NoteName { letter: Letter::A, octave: 4 });
}

#[test]
fn middle_c_maps_to_c4() {
    assert_eq!(rounded_note_number(261.63, 440.0, 69), 60);
    assert_eq!(note_of_midi(60), NoteName { letter: Letter::C, octave: 4 });
}

#[test]
fn note_numbers_wrap_by_twelve() {
    assert_eq!(note_of_midi(0), NoteName { letter: Letter::C, octave: -1 });
    assert_eq!(note_of_midi(11), NoteName { letter: Letter::B, octave: -1 });
    assert_eq!(note_of_midi(12), NoteName { letter: Letter::C, octave: 0 });
    assert_eq!(note_of_midi(70), NoteName { letter: Letter::As, octave: 4 });
}

#[test]
fn negative_note_numbers_map_without_panicking() {
    assert_eq!(note_of_midi(-1), NoteName { letter: Letter::B, octave: -2 });
    assert_eq!(note_of_midi(-12), NoteName { letter: Letter::C, octave: -2 });
}

#[test]
fn letter_labels_spell_sharps() {
    assert_eq!(letter_label(Letter::C), "C");
    assert_eq!(letter_label(Letter::Cs), "C#");
    assert_eq!(letter_label(Letter::A), "A");
    assert_eq!(letter_label(Letter::As), "A#");
    assert_eq!(letter_label(Letter::B), "B");
}

#[test]
fn in_range_peak_resolves_to_a_note() {
    let peak = PeakVerdict { index: 440, freq_num: 440 * 8192, spectrum_len: 8192, in_range: true };
    let r = resolve(&peak, 69);
    assert_eq!(r.note, Some(NoteName { letter: Letter::A, octave: 4 }));
    assert!(r.in_range);
    assert_eq!(r.freq_num, 440 * 8192);
    assert_eq!(r.spectrum_len, 8192);
}

#[test]
fn out_of_range_peak_reports_no_note() {
    let peak = PeakVerdict { index: 2, freq_num: 2 * 8192, spectrum_len: 8192, in_range: false };
    let r = resolve(&peak, 0);
    assert_eq!(r.note, None);
    assert!(!r.in_range);
}
