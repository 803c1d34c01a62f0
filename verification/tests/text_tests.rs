use std::collections::HashMap;
use tuner::analyser::default_vec;
use tuner::note::Accidental;
use tuner::note::Note;
use tuner::note::Octave;
use tuner::text::all_present;
use tuner::text::MissingText;
use tuner::text::Text;

fn words(keys: &[i32]) -> HashMap<i32, String> {
    keys.iter().map(|key| (*key, format!("word {}", key))).collect()
}

fn complete() -> Text {
    Text {
        octaves: words(&[0, 1, 2, 3, 4, 5, 6, 7, 8]),
        notes: words(&[0, 2, 4, 5, 7, 9, 11]),
        accidentals: words(&[-1, 0, 1]),
        low_octave: String::from("low"),
        high_octave: String::from("high"),
        missing_octave: String::from("missing"),
    }
}

#[test]
fn all_present_accepts_a_full_table() {
    assert_eq!(all_present(&words(&[1, 2, 3]), &vec![1, 2, 3]), Ok(()));
    assert_eq!(all_present(&words(&[1, 2, 3]), &vec![3, 1]), Ok(()));
    assert_eq!(all_present(&words(&[]), &vec![]), Ok(()));
}

#[test]
fn all_present_names_the_first_missing_key() {
    assert_eq!(all_present(&words(&[1, 3]), &vec![1, 2, 3, 4]), Err(2));
    assert_eq!(all_present(&words(&[1, 3]), &vec![4, 2]), Err(4));
    assert_eq!(all_present(&words(&[]), &vec![7]), Err(7));
}

#[test]
fn complete_table_is_valid() {
    assert_eq!(complete().validate(), Ok(()));
}

#[test]
fn table_with_more_octaves_is_valid() {
    let mut text = complete();
    text.octaves.insert(9, String::from("ninth"));
    text.octaves.insert(-1, String::from("below"));
    assert_eq!(text.validate(), Ok(()));
}

#[test]
fn missing_octave_is_reported() {
    for gone in 0..=8 {
        let mut text = complete();
        text.octaves.remove(&gone);
        assert_eq!(
            text.validate(),
            Err(MissingText::MissingOctave { missing: Octave(gone) })
        );
    }
}

#[test]
fn lowest_missing_octave_is_reported() {
    let mut text = complete();
    text.octaves.remove(&6);
    text.octaves.remove(&2);
    assert_eq!(text.validate(), Err(MissingText::MissingOctave { missing: Octave(2) }));
}

#[test]
fn missing_note_is_reported() {
    for note in [Note::C, Note::D, Note::E, Note::F, Note::G, Note::A, Note::B] {
        let mut text = complete();
        text.notes.remove(&note.semitone_offset());
        assert_eq!(text.validate(), Err(MissingText::MissingNote { missing: note }));
    }
}

#[test]
fn missing_accidental_is_reported() {
    for accidental in [Accidental::Natural, Accidental::Sharp, Accidental::Flat] {
        let mut text = complete();
        text.accidentals.remove(&accidental.semitone_shift());
        assert_eq!(
            text.validate(),
            Err(MissingText::MissingAccidental { missing: accidental })
        );
    }
}

#[test]
fn octaves_are_checked_before_notes_and_accidentals() {
    let mut text = complete();
    text.accidentals.clear();
    assert_eq!(
        text.validate(),
        Err(MissingText::MissingAccidental { missing: Accidental::Natural })
    );
    text.notes.remove(&11);
    text.notes.remove(&4);
    assert_eq!(text.validate(), Err(MissingText::MissingNote { missing: Note::E }));
    text.octaves.remove(&8);
    assert_eq!(text.validate(), Err(MissingText::MissingOctave { missing: Octave(8) }));
}

#[test]
fn octave_with_a_word_has_its_name() {
    let text = complete();
    assert_eq!(text.octave_name(Octave(0)), "word 0");
    assert_eq!(text.octave_name(Octave(4)), "word 4");
    assert_eq!(text.octave_name(Octave(8)), "word 8");
}

#[test]
fn octave_below_all_words_is_low() {
    let text = complete();
    assert_eq!(text.octave_name(Octave(-1)), "low");
    assert_eq!(text.octave_name(Octave(i32::MIN)), "low");
}

#[test]
fn octave_between_words_is_high() {
    let mut text = complete();
    text.octaves.remove(&3);
    assert_eq!(text.octave_name(Octave(3)), "high");
}

#[test]
fn octave_above_all_words_is_missing() {
    let text = complete();
    assert_eq!(text.octave_name(Octave(9)), "missing");
    assert_eq!(text.octave_name(Octave(i32::MAX)), "missing");
}

#[test]
fn octave_of_an_empty_table_is_missing() {
    let mut text = complete();
    text.octaves.clear();
    assert_eq!(text.octave_name(Octave(4)), "missing");
}

#[test]
fn default_vec_is_filled_with_defaults() {
    let zeros: Vec<u64> = default_vec(4);
    assert_eq!(zeros, vec![0, 0, 0, 0]);
    let none: Vec<String> = default_vec(0);
    assert!(none.is_empty());
    let accidentals: Vec<Accidental> = default_vec(2);
    assert_eq!(accidentals, vec![Accidental::Natural, Accidental::Natural]);
}
