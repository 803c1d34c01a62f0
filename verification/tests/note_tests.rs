use tuner::note::Accidental;
use tuner::note::Note;
use tuner::note::Octave;
use tuner::note::Position;
use tuner::note::SEMITONES_PER_OCTAVE;

const LOWEST_A: f64 = 27.5;

/// The octave and the rounded offset in it, as a caller computes them from
/// a frequency before it asks for the spelling.
fn locate(freq: f64) -> (Octave, i32) {
    let lowest_c = LOWEST_A * (-9.0f64 / 12.0).exp2();
    let octave = (freq / lowest_c).log2().floor() as i32;
    let octave_c = LOWEST_A * (f64::from(octave * 12 - 9) / 12.0).exp2();
    let offset = ((freq / octave_c).log2() * 12.0).round() as i32;
    (Octave(octave), offset)
}

fn from_frequency(freq: f64) -> Option<Position> {
    if !(freq.is_finite() && freq > 0.0) {
        return None;
    }
    let (octave, offset) = locate(freq);
    Position::from_octave_offset(octave, offset)
}

fn frequency_of(octave: Octave, note: Note, acc: Accidental) -> f64 {
    LOWEST_A * (octave.semitones_from_anchor(note, acc) as f64 / 12.0).exp2()
}

#[test]
fn semitones_per_octave_is_twelve() {
    assert_eq!(SEMITONES_PER_OCTAVE, 12);
}

#[test]
fn note_offsets_follow_the_major_scale() {
    assert_eq!(Note::C.semitone_offset(), 0);
    assert_eq!(Note::D.semitone_offset(), 2);
    assert_eq!(Note::E.semitone_offset(), 4);
    assert_eq!(Note::F.semitone_offset(), 5);
    assert_eq!(Note::G.semitone_offset(), 7);
    assert_eq!(Note::A.semitone_offset(), 9);
    assert_eq!(Note::B.semitone_offset(), 11);
}

#[test]
fn from_semitone_finds_the_natural_notes_only() {
    assert_eq!(Note::from_semitone(0), Some(Note::C));
    assert_eq!(Note::from_semitone(2), Some(Note::D));
    assert_eq!(Note::from_semitone(4), Some(Note::E));
    assert_eq!(Note::from_semitone(5), Some(Note::F));
    assert_eq!(Note::from_semitone(7), Some(Note::G));
    assert_eq!(Note::from_semitone(9), Some(Note::A));
    assert_eq!(Note::from_semitone(11), Some(Note::B));
    for semitone in [1, 3, 6, 8, 10, 12, -1, 13, i32::MIN, i32::MAX] {
        assert_eq!(Note::from_semitone(semitone), None);
    }
}

#[test]
fn from_semitone_inverts_semitone_offset() {
    for note in [Note::C, Note::D, Note::E, Note::F, Note::G, Note::A, Note::B] {
        assert_eq!(Note::from_semitone(note.semitone_offset()), Some(note));
    }
}

#[test]
fn flats_and_sharps_that_are_written() {
    let flat: Vec<bool> = [Note::C, Note::D, Note::E, Note::F, Note::G, Note::A, Note::B]
        .iter()
        .map(|n| n.can_be_flat())
        .collect();
    assert_eq!(flat, vec![false, true, true, false, true, true, true]);
    let sharp: Vec<bool> = [Note::C, Note::D, Note::E, Note::F, Note::G, Note::A, Note::B]
        .iter()
        .map(|n| n.can_be_sharp())
        .collect();
    assert_eq!(sharp, vec![true, true, false, true, true, true, false]);
}

#[test]
fn interval_between_notes() {
    assert_eq!(Note::C.interval_from(Note::A), -9);
    assert_eq!(Note::A.interval_from(Note::A), 0);
    assert_eq!(Note::B.interval_from(Note::C), 11);
}

#[test]
fn accidental_shifts() {
    assert_eq!(Accidental::Flat.semitone_shift(), -1);
    assert_eq!(Accidental::Sharp.semitone_shift(), 1);
    assert_eq!(Accidental::Natural.semitone_shift(), 0);
    assert_eq!(Accidental::default(), Accidental::Natural);
}

#[test]
fn position_keeps_its_parts() {
    let p = Position::from_parts(Octave(4), Note::A, Accidental::Natural);
    assert_eq!(p.octave, Octave(4));
    assert_eq!(p.note, Note::A);
    assert_eq!(p.accidental, Accidental::Natural);
}

#[test]
fn semitone_offset_of_positions() {
    assert_eq!(Position::from_parts(Octave(0), Note::C, Accidental::Natural).semitone_offset(), 0);
    assert_eq!(Position::from_parts(Octave(4), Note::A, Accidental::Natural).semitone_offset(), 57);
    assert_eq!(Position::from_parts(Octave(0), Note::C, Accidental::Flat).semitone_offset(), -1);
    assert_eq!(Position::from_parts(Octave(-1), Note::B, Accidental::Sharp).semitone_offset(), 0);
    assert_eq!(Position::from_parts(Octave(3), Note::F, Accidental::Sharp).total_semitones(), 42);
}

#[test]
fn total_semitones_at_the_ends_of_the_octave_range() {
    let top = Position::from_parts(Octave(i32::MAX), Note::B, Accidental::Sharp);
    assert_eq!(top.total_semitones(), i64::from(i32::MAX) * 12 + 12);
    let bottom = Position::from_parts(Octave(i32::MIN), Note::C, Accidental::Flat);
    assert_eq!(bottom.total_semitones(), i64::from(i32::MIN) * 12 - 1);
    assert!(bottom < top);
    assert!(bottom != top);
}

#[test]
fn enharmonic_spellings_are_equal() {
    let c_sharp = Position::from_parts(Octave(2), Note::C, Accidental::Sharp);
    let d_flat = Position::from_parts(Octave(2), Note::D, Accidental::Flat);
    assert!(c_sharp == d_flat);
    let b_sharp = Position::from_parts(Octave(2), Note::B, Accidental::Sharp);
    let next_c = Position::from_parts(Octave(3), Note::C, Accidental::Natural);
    assert!(b_sharp == next_c);
    assert!(c_sharp != next_c);
}

#[test]
fn positions_are_ordered_by_pitch() {
    let c = Position::from_parts(Octave(2), Note::C, Accidental::Natural);
    let d_flat = Position::from_parts(Octave(2), Note::D, Accidental::Flat);
    let c_sharp = Position::from_parts(Octave(2), Note::C, Accidental::Sharp);
    let d = Position::from_parts(Octave(2), Note::D, Accidental::Natural);
    assert!(c < d_flat);
    assert!(d_flat < d);
    assert!(d > c);
    assert!(c_sharp <= d_flat && c_sharp >= d_flat);
    assert_eq!(c_sharp.partial_cmp(&d_flat), Some(std::cmp::Ordering::Equal));
    assert_eq!(c.partial_cmp(&d), Some(std::cmp::Ordering::Less));
    assert_eq!(d.partial_cmp(&c), Some(std::cmp::Ordering::Greater));
}

#[test]
fn every_offset_of_an_octave_is_spelled() {
    let expected = [
        (Note::C, Accidental::Natural),
        (Note::C, Accidental::Sharp),
        (Note::D, Accidental::Natural),
        (Note::D, Accidental::Sharp),
        (Note::E, Accidental::Natural),
        (Note::F, Accidental::Natural),
        (Note::F, Accidental::Sharp),
        (Note::G, Accidental::Natural),
        (Note::G, Accidental::Sharp),
        (Note::A, Accidental::Natural),
        (Note::A, Accidental::Sharp),
        (Note::B, Accidental::Natural),
    ];
    for (offset, (note, accidental)) in expected.iter().enumerate() {
        let p = Position::from_octave_offset(Octave(3), offset as i32).unwrap();
        assert_eq!(p.octave, Octave(3));
        assert_eq!(p.note, *note);
        assert_eq!(p.accidental, *accidental);
        assert_eq!(p.semitone_offset(), 36 + offset as i32);
    }
}

#[test]
fn offsets_outside_the_octave_have_no_spelling() {
    for offset in [-1, 12, 13, -2, i32::MIN, i32::MAX] {
        assert!(Position::from_octave_offset(Octave(3), offset).is_none());
    }
}

#[test]
fn lowest_a_is_a_natural_in_octave_zero() {
    let p = from_frequency(27.5).unwrap();
    assert_eq!(p.octave, Octave(0));
    assert_eq!(p.note, Note::A);
    assert_eq!(p.accidental, Accidental::Natural);
}

#[test]
fn concert_pitch_is_a_natural_in_octave_four() {
    let p = from_frequency(440.0).unwrap();
    assert_eq!(p.octave, Octave(4));
    assert_eq!(p.note, Note::A);
    assert_eq!(p.accidental, Accidental::Natural);
}

#[test]
fn frequencies_that_are_no_pitch() {
    assert!(from_frequency(0.0).is_none());
    assert!(from_frequency(-440.0).is_none());
    assert!(from_frequency(f64::NAN).is_none());
    assert!(from_frequency(f64::INFINITY).is_none());
}

#[test]
fn midpoint_of_c_and_d_is_c_sharp() {
    let c = frequency_of(Octave(4), Note::C, Accidental::Natural);
    let d = frequency_of(Octave(4), Note::D, Accidental::Natural);
    let midpoint = (c * d).sqrt();
    for _ in 0..3 {
        let p = from_frequency(midpoint).unwrap();
        assert_eq!(p.octave, Octave(4));
        assert_eq!(p.note, Note::C);
        assert_eq!(p.accidental, Accidental::Sharp);
    }
}

#[test]
fn anchor_distance_of_notes() {
    assert_eq!(Octave(0).semitones_from_anchor(Note::A, Accidental::Natural), 0);
    assert_eq!(Octave(4).semitones_from_anchor(Note::A, Accidental::Natural), 48);
    assert_eq!(Octave(0).semitones_from_anchor(Note::C, Accidental::Natural), -9);
    assert_eq!(Octave(1).semitones_from_anchor(Note::C, Accidental::Flat), 2);
    assert_eq!(
        Octave(i32::MIN).semitones_from_anchor(Note::C, Accidental::Flat),
        i64::from(i32::MIN) * 12 - 10
    );
}

#[test]
fn natural_notes_survive_the_round_trip() {
    for octave in 0..9 {
        for note in [Note::D, Note::E, Note::F, Note::G, Note::A, Note::B] {
            let start = Position::from_parts(Octave(octave), note, Accidental::Natural);
            let freq = frequency_of(Octave(octave), note, Accidental::Natural);
            let back = from_frequency(freq).unwrap();
            assert!(back == start);
            assert_eq!(back.note, note);
            assert_eq!(back.accidental, Accidental::Natural);
        }
    }
}

#[test]
fn natural_notes_keep_their_spelling() {
    for octave in [-3, 0, 4, 8] {
        for note in [Note::C, Note::D, Note::E, Note::F, Note::G, Note::A, Note::B] {
            let start = Position::from_parts(Octave(octave), note, Accidental::Natural);
            let back = Position::from_octave_offset(Octave(octave), note.semitone_offset()).unwrap();
            assert!(back == start);
            assert_eq!(back.octave, Octave(octave));
            assert_eq!(back.note, note);
            assert_eq!(back.accidental, Accidental::Natural);
        }
    }
}
