//! The words that name octaves, notes and accidentals.
//!
//! The words come from outside. Before they are used, a table is checked
//! for the words that must not be missing: those of the nine octaves from
//! Sub Contra up, of the seven notes and of the three accidentals.

use crate::note::Accidental;
use crate::note::Note;
use crate::note::Octave;
use std::collections::HashMap;
use vstd::prelude::*;
use vstd::std_specs::iter::IteratorSpec;

verus! {

broadcast use vstd::std_specs::hash::group_hash_axioms;

/// The words for octaves, notes and accidentals.
///
/// Octaves are keyed by their number, notes by their distance in semitones
/// from C, accidentals by the semitones they shift a note by.
pub struct Text {
    pub octaves: HashMap<i32, String>,
    pub notes: HashMap<i32, String>,
    pub accidentals: HashMap<i32, String>,
    pub low_octave: String,
    pub high_octave: String,
    pub missing_octave: String,
}

/// What a table of words lacks.
#[allow(inconsistent_fields)]
#[derive(Clone, Copy, Debug, PartialEq, Eq, Structural)]
pub enum MissingText {
    MissingOctave { missing: Octave },
    MissingNote { missing: Note },
    MissingAccidental { missing: Accidental },
}

/// The first of `keys` that is not among `present`, if there is one.
pub open spec fn first_absent(present: Set<i32>, keys: Seq<i32>) -> Option<i32>
    decreases keys.len(),
{
    if keys.len() == 0 {
        None
    } else if !present.contains(keys[0]) {
        Some(keys[0])
    } else {
        first_absent(present, keys.drop_first())
    }
}

/// The numbers of the octaves that need a word, lowest first.
pub open spec fn required_octaves() -> Seq<i32> {
    seq![0i32, 1i32, 2i32, 3i32, 4i32, 5i32, 6i32, 7i32, 8i32]
}

/// The keys of the notes, from C to B.
pub open spec fn required_notes() -> Seq<i32> {
    seq![0i32, 2i32, 4i32, 5i32, 7i32, 9i32, 11i32]
}

/// The keys of the accidentals: natural, sharp, flat.
pub open spec fn required_accidentals() -> Seq<i32> {
    seq![0i32, 1i32, -1i32]
}

/// The accidental that shifts a note by `shift` semitones.
pub open spec fn accidental_of(shift: int) -> Accidental {
    if shift == 1 {
        Accidental::Sharp
    } else if shift == -1 {
        Accidental::Flat
    } else {
        Accidental::Natural
    }
}

/// The first of `keys` for which `map` has no entry is handed back as the
/// error.
pub fn all_present(map: &HashMap<i32, String>, keys: &Vec<i32>) -> (r: Result<(), i32>)
    ensures
        r is Ok <==> first_absent(map@.dom(), keys@) is None,
        r matches Err(key) ==> first_absent(map@.dom(), keys@) == Some(key),
{
    let mut i: usize = 0;
    assert(keys@.subrange(0, keys@.len() as int) =~= keys@);
    while i < keys.len()
        invariant
            i <= keys@.len(),
            first_absent(map@.dom(), keys@) == first_absent(
                map@.dom(),
                keys@.subrange(i as int, keys@.len() as int),
            ),
        decreases keys@.len() - i,
    {
        let ghost rest = keys@.subrange(i as int, keys@.len() as int);
        assert(rest.drop_first() =~= keys@.subrange(i + 1, keys@.len() as int));
        assert(rest[0] == keys@[i as int]);
        if !map.contains_key(&keys[i]) {
            return Err(keys[i]);
        }
        i = i + 1;
    }
    Ok(())
}

impl Text {
    /// What the table lacks, if anything: the lowest octave from 0 to 8
    /// without a word; else the first note from C to B without one; else
    /// the first of natural, sharp and flat without one.
    pub open spec fn lack(&self) -> Option<MissingText> {
        if let Some(key) = first_absent(self.octaves@.dom(), required_octaves()) {
            Some(MissingText::MissingOctave { missing: Octave(key) })
        } else if let Some(key) = first_absent(self.notes@.dom(), required_notes()) {
            Some(MissingText::MissingNote { missing: Note::natural_at(key as int).unwrap() })
        } else if let Some(key) = first_absent(self.accidentals@.dom(), required_accidentals()) {
            Some(MissingText::MissingAccidental { missing: accidental_of(key as int) })
        } else {
            None
        }
    }

    /// Return an error if a required element is missing.
    ///
    /// In particular, check if all octaves from Sub Contra to the 8th are
    /// present, as well as all notes and accidentals.
    pub fn validate(&self) -> (r: Result<(), MissingText>)
        ensures
            r is Ok <==> self.lack() is None,
            r matches Err(missing) ==> self.lack() == Some(missing),
    {
        let octaves: Vec<i32> = vec![0, 1, 2, 3, 4, 5, 6, 7, 8];
        assert(octaves@ =~= required_octaves());
        if let Err(key) = all_present(&self.octaves, &octaves) {
            return Err(MissingText::MissingOctave { missing: Octave(key) });
        }
        let notes: Vec<i32> = vec![0, 2, 4, 5, 7, 9, 11];
        assert(notes@ =~= required_notes());
        if let Err(key) = all_present(&self.notes, &notes) {
            proof {
                lemma_absent_is_a_key(self.notes@.dom(), required_notes());
            }
            if let Some(note) = Note::from_semitone(key) {
                return Err(MissingText::MissingNote { missing: note });
            }
        }
        let accidentals: Vec<i32> = vec![0, 1, -1];
        assert(accidentals@ =~= required_accidentals());
        if let Err(key) = all_present(&self.accidentals, &accidentals) {
            let missing = if key == 1 {
                Accidental::Sharp
            } else if key == -1 {
                Accidental::Flat
            } else {
                Accidental::Natural
            };
            return Err(MissingText::MissingAccidental { missing });
        }
        Ok(())
    }

    /// The word for an octave that has none of its own: the word for low
    /// octaves below every octave that has a word, else the word for high
    /// octaves below some octave that has a word, else the word for a
    /// missing octave.
    pub open spec fn stand_in(&self, octave: Octave) -> Seq<char> {
        if self.octaves@.dom().len() > 0 && forall|key: i32|
            self.octaves@.dom().contains(key) ==> octave.0 < key {
            self.low_octave@
        } else if exists|key: i32| self.octaves@.dom().contains(key) && octave.0 < key {
            self.high_octave@
        } else {
            self.missing_octave@
        }
    }

    /// The word for an octave: its own if it has one, else a stand-in (see
    /// [`Text::stand_in`]).
    pub fn octave_name(&self, octave: Octave) -> (name: &str)
        ensures
            self.octaves@.contains_key(octave.0) ==> name@ == self.octaves@[octave.0]@,
            !self.octaves@.contains_key(octave.0) ==> name@ == self.stand_in(octave),
    {
        if let Some(name) = self.octaves.get(&octave.0) {
            return name.as_str();
        }
        let mut below_all = true;
        let mut below_some = false;
        let mut any = false;
        let keys = self.octaves.keys();
        let ghost listed = keys.remaining().unref();
        assert(listed.to_set() == self.octaves@.dom());
        let ghost mut seen: int = 0;
        for key in it: keys
            invariant
                it.seq().unref() == listed,
                seen == it.index(),
                any <==> seen > 0,
                below_all <==> forall|j: int| 0 <= j < seen ==> octave.0 < #[trigger] listed[j],
                below_some <==> exists|j: int| 0 <= j < seen && octave.0 < #[trigger] listed[j],
        {
            assert(listed[it.index()] == *key);
            proof {
                seen = seen + 1;
            }
            any = true;
            if octave.0 < *key {
                below_some = true;
            } else {
                below_all = false;
            }
        }
        proof {
            let present = self.octaves@.dom();
            assert(seen == listed.len());
            assert forall|k: i32| present.contains(k) <==> listed.contains(k) by {
                assert(listed.to_set().contains(k) <==> listed.contains(k));
            }
            if below_all {
                assert forall|k: i32| present.contains(k) implies octave.0 < k by {
                    let j = choose|j: int| 0 <= j < listed.len() && listed[j] == k;
                    assert(octave.0 < listed[j]);
                }
            } else {
                let j = choose|j: int| 0 <= j < seen && !(octave.0 < #[trigger] listed[j]);
                assert(listed.contains(listed[j]));
                assert(present.contains(listed[j]));
            }
            if below_some {
                let j = choose|j: int| 0 <= j < seen && octave.0 < #[trigger] listed[j];
                assert(listed.contains(listed[j]));
                assert(present.contains(listed[j]));
            } else {
                assert forall|k: i32| present.contains(k) implies !(octave.0 < k) by {
                    let j = choose|j: int| 0 <= j < listed.len() && listed[j] == k;
                    assert(!(octave.0 < listed[j]));
                }
            }
            if any {
                assert(listed.len() > 0);
                assert(listed.contains(listed[0]));
                assert(self.octaves@.dom().contains(listed[0]));
                assert(self.octaves@.dom().len() > 0) by {
                    if self.octaves@.dom().len() == 0 {
                        self.octaves@.dom().lemma_len0_is_empty();
                    }
                }
            } else {
                assert(listed.len() == 0);
                assert(self.octaves@.dom().len() == 0);
            }
        }
        if any && below_all {
            self.low_octave.as_str()
        } else if below_some {
            self.high_octave.as_str()
        } else {
            self.missing_octave.as_str()
        }
    }
}

/// A key that is found absent is one of the keys asked for.
pub proof fn lemma_absent_is_a_key(present: Set<i32>, keys: Seq<i32>)
    ensures
        first_absent(present, keys) matches Some(key) ==> keys.contains(key) && !present.contains(
            key,
        ),
        first_absent(present, keys) is None ==> forall|i: int|
            0 <= i < keys.len() ==> present.contains(#[trigger] keys[i]),
    decreases keys.len(),
{
    if keys.len() > 0 {
        lemma_absent_is_a_key(present, keys.drop_first());
        if present.contains(keys[0]) {
            if let Some(key) = first_absent(present, keys) {
                let j = choose|j: int| 0 <= j < keys.drop_first().len() && keys.drop_first()[j] == key;
                assert(keys[j + 1] == key);
            } else {
                assert forall|i: int| 0 <= i < keys.len() implies present.contains(
                    #[trigger] keys[i],
                ) by {
                    if i > 0 {
                        assert(keys.drop_first()[i - 1] == keys[i]);
                    }
                }
            }
        } else {
            assert(keys[0] == keys[0]);
        }
    }
}

} // verus!
