//! Positions on the twelve-tone equal-tempered scale.
//!
//! A position is an octave in scientific pitch notation, one of the seven
//! natural notes and an accidental. Its meaning is its distance in semitones
//! from C in the Sub Contra octave; two spellings of one pitch are equal.

use core::cmp::Ordering;
use vstd::prelude::*;
use vstd::std_specs::cmp::PartialEqSpec;
use vstd::std_specs::cmp::PartialOrdSpec;

verus! {

/// Number of semitones in an octave.
pub const SEMITONES_PER_OCTAVE: i32 = 12;

/// An octave number in scientific pitch notation: Sub Contra is 0, the
/// octave of the concert pitch A is 4.
#[derive(Debug, PartialEq, Eq, PartialOrd, Ord, Clone, Copy, Hash, Structural)]
pub struct Octave(pub i32);

/// The seven natural notes.
#[derive(Debug, PartialEq, Eq, PartialOrd, Clone, Copy, Hash, Structural)]
pub enum Note {
    C,
    D,
    E,
    F,
    G,
    A,
    B,
}

/// What shifts a natural note by a semitone, or leaves it alone.
#[derive(Debug, PartialEq, Eq, Clone, Copy, Hash, Structural)]
pub enum Accidental {
    Flat,
    Sharp,
    Natural,
}

/// An octave, a note and an accidental.
///
/// Equality and order go by [`Position::semitones`], so C sharp and D flat
/// of one octave are equal.
#[derive(Debug, Clone, Copy)]
pub struct Position {
    pub octave: Octave,
    pub note: Note,
    pub accidental: Accidental,
}

impl Note {
    /// Distance in semitones from C of the same octave.
    pub open spec fn offset(self) -> int {
        match self {
            Note::C => 0,
            Note::D => 2,
            Note::E => 4,
            Note::F => 5,
            Note::G => 7,
            Note::A => 9,
            Note::B => 11,
        }
    }

    /// The natural note that lies `semitone` semitones above C, if there is one.
    pub open spec fn natural_at(semitone: int) -> Option<Note> {
        if semitone == 0 {
            Some(Note::C)
        } else if semitone == 2 {
            Some(Note::D)
        } else if semitone == 4 {
            Some(Note::E)
        } else if semitone == 5 {
            Some(Note::F)
        } else if semitone == 7 {
            Some(Note::G)
        } else if semitone == 9 {
            Some(Note::A)
        } else if semitone == 11 {
            Some(Note::B)
        } else {
            None
        }
    }

    /// Whether a flat of this note is written: not for C and F, whose lower
    /// neighbour is a natural note.
    pub open spec fn flattable(self) -> bool {
        !(self == Note::C || self == Note::F)
    }

    /// Whether a sharp of this note is written: not for E and B, whose upper
    /// neighbour is a natural note.
    pub open spec fn sharpable(self) -> bool {
        !(self == Note::E || self == Note::B)
    }

    /// Semitone offset of this note from C in the same octave.
    pub fn semitone_offset(self) -> (r: i32)
        ensures
            r == self.offset(),
    {
        match self {
            Note::C => 0,
            Note::D => 2,
            Note::E => 4,
            Note::F => 5,
            Note::G => 7,
            Note::A => 9,
            Note::B => 11,
        }
    }

    /// The natural note at the given offset from C, or `None` where the
    /// offset is that of no natural note.
    pub fn from_semitone(semitone: i32) -> (r: Option<Note>)
        ensures
            r == Note::natural_at(semitone as int),
            r matches Some(n) ==> n.offset() == semitone,
            r is None <==> forall|n: Note| n.offset() != semitone,
    {
        let notes = [Note::C, Note::D, Note::E, Note::F, Note::G, Note::A, Note::B];
        let mut i: usize = 0;
        while i < 7
            invariant
                i <= 7,
                notes@ =~= seq![Note::C, Note::D, Note::E, Note::F, Note::G, Note::A, Note::B],
                forall|j: int| 0 <= j < i ==> (#[trigger] notes@[j]).offset() != semitone,
            decreases 7 - i,
        {
            let note = notes[i];
            if note.semitone_offset() == semitone {
                return Some(note);
            }
            i = i + 1;
        }
        proof {
            assert forall|n: Note| n.offset() != semitone by {
                let k: int = match n {
                    Note::C => 0,
                    Note::D => 1,
                    Note::E => 2,
                    Note::F => 3,
                    Note::G => 4,
                    Note::A => 5,
                    Note::B => 6,
                };
                assert(notes@[k] == n);
            }
        }
        None
    }

    /// Whether a flat of this note is written.
    pub fn can_be_flat(self) -> (r: bool)
        ensures
            r == self.flattable(),
    {
        match self {
            Note::C => false,
            Note::D => true,
            Note::E => true,
            Note::F => false,
            Note::G => true,
            Note::A => true,
            Note::B => true,
        }
    }

    /// Whether a sharp of this note is written.
    pub fn can_be_sharp(self) -> (r: bool)
        ensures
            r == self.sharpable(),
    {
        match self {
            Note::C => true,
            Note::D => true,
            Note::E => false,
            Note::F => true,
            Note::G => true,
            Note::A => true,
            Note::B => false,
        }
    }

    /// The signed distance in semitones from `other` up to this note.
    pub fn interval_from(self, other: Note) -> (r: i32)
        ensures
            r == self.offset() - other.offset(),
    {
        self.semitone_offset() - other.semitone_offset()
    }
}

impl Accidental {
    /// The shift in semitones that this accidental stands for.
    pub open spec fn shift(self) -> int {
        match self {
            Accidental::Flat => -1,
            Accidental::Sharp => 1,
            Accidental::Natural => 0,
        }
    }

    /// The shift in semitones this accidental represents.
    pub fn semitone_shift(self) -> (r: i32)
        ensures
            r == self.shift(),
    {
        match self {
            Accidental::Flat => -1,
            Accidental::Sharp => 1,
            Accidental::Natural => 0,
        }
    }
}

impl Default for Accidental {
    fn default() -> (r: Accidental)
        ensures
            r == Accidental::Natural,
    {
        Accidental::Natural
    }
}

impl Octave {
    /// Distance in semitones of a note of this octave from A in the Sub
    /// Contra octave, the pitch that anchors the tuning.
    pub open spec fn steps_from_anchor(self, note: Note, acc: Accidental) -> int {
        self.0 * 12 + (note.offset() - Note::A.offset()) + acc.shift()
    }

    /// How many semitones the given note of this octave lies above the
    /// anchor of the tuning, A in the Sub Contra octave. In equal
    /// temperament its frequency is that of the anchor times two to the
    /// power of a twelfth of this number.
    pub fn semitones_from_anchor(self, note: Note, acc: Accidental) -> (r: i64)
        ensures
            r == self.steps_from_anchor(note, acc),
    {
        let from_octave: i64 = self.0 as i64 * 12;
        let from_note: i64 = note.interval_from(Note::A) as i64;
        let from_accidental: i64 = acc.semitone_shift() as i64;
        from_octave + from_note + from_accidental
    }
}

impl Position {
    /// Distance in semitones from C in the Sub Contra octave.
    pub open spec fn semitones(self) -> int {
        self.octave.0 * 12 + self.note.offset() + self.accidental.shift()
    }

    /// How the position `offset` semitones above C of `octave` is spelled.
    ///
    /// A natural note is spelled as itself. Otherwise the note below is
    /// sharpened if a sharp of it is written, else the note above is
    /// flattened if a flat of it is written. Sharp comes before flat.
    pub open spec fn spelled(octave: Octave, offset: int) -> Option<Position> {
        if let Some(note) = Note::natural_at(offset) {
            Some(Position { octave, note, accidental: Accidental::Natural })
        } else if Note::natural_at(offset - 1) matches Some(note) && note.sharpable() {
            Some(
                Position {
                    octave,
                    note: Note::natural_at(offset - 1).unwrap(),
                    accidental: Accidental::Sharp,
                },
            )
        } else if Note::natural_at(offset + 1) matches Some(note) && note.flattable() {
            Some(
                Position {
                    octave,
                    note: Note::natural_at(offset + 1).unwrap(),
                    accidental: Accidental::Flat,
                },
            )
        } else {
            None
        }
    }

    /// Position from a combination of an octave, note and accidental.
    pub fn from_parts(octave: Octave, note: Note, accidental: Accidental) -> (p: Position)
        ensures
            p.octave == octave,
            p.note == note,
            p.accidental == accidental,
    {
        Position { octave, note, accidental }
    }

    /// The position that lies `offset` semitones above C of `octave`.
    ///
    /// `octave` is the octave that a frequency falls into and `offset` its
    /// distance from the C of that octave, rounded to whole semitones. An
    /// offset from 0 to 11 always has a spelling; any other has none. That
    /// includes 12, which a frequency less than a quarter tone below the
    /// next C rounds to.
    pub fn from_octave_offset(octave: Octave, offset: i32) -> (r: Option<Position>)
        ensures
            r == Position::spelled(octave, offset as int),
            r is Some <==> 0 <= offset < 12,
            r matches Some(p) ==> p.octave == octave && p.semitones() == octave.0 * 12 + offset
                && p.accidental != Accidental::Flat,
    {
        if let Some(note) = Note::from_semitone(offset) {
            return Some(Position::from_parts(octave, note, Accidental::Natural));
        }
        // Neither neighbour of an offset at the edge of the range is a note.
        let below = if offset > i32::MIN {
            Note::from_semitone(offset - 1)
        } else {
            None
        };
        if let Some(note) = below {
            if note.can_be_sharp() {
                return Some(Position::from_parts(octave, note, Accidental::Sharp));
            }
        }
        let above = if offset < i32::MAX {
            Note::from_semitone(offset + 1)
        } else {
            None
        };
        if let Some(note) = above {
            if note.can_be_flat() {
                return Some(Position::from_parts(octave, note, Accidental::Flat));
            }
        }
        None
    }

    /// Distance in semitones from C in the Sub Contra octave, in the width
    /// that holds it for every octave.
    pub fn total_semitones(&self) -> (r: i64)
        ensures
            r == self.semitones(),
    {
        let from_octave: i64 = self.octave.0 as i64 * 12;
        let from_note: i64 = self.note.semitone_offset() as i64;
        let from_accidental: i64 = self.accidental.semitone_shift() as i64;
        from_octave + from_note + from_accidental
    }

    /// Semitone offset of this position wrt C in the Sub Contra octave.
    pub fn semitone_offset(&self) -> (r: i32)
        requires
            i32::MIN <= self.semitones() <= i32::MAX,
        ensures
            r == self.semitones(),
    {
        self.total_semitones() as i32
    }
}

impl PartialEq for Position {
    fn eq(&self, other: &Self) -> (r: bool) {
        self.total_semitones() == other.total_semitones()
    }
}

impl vstd::std_specs::cmp::PartialEqSpecImpl for Position {
    open spec fn obeys_eq_spec() -> bool {
        true
    }

    open spec fn eq_spec(&self, other: &Self) -> bool {
        self.semitones() == other.semitones()
    }
}

impl PartialOrd for Position {
    fn partial_cmp(&self, other: &Self) -> (r: Option<Ordering>) {
        let mine = self.total_semitones();
        let theirs = other.total_semitones();
        if mine < theirs {
            Some(Ordering::Less)
        } else if mine > theirs {
            Some(Ordering::Greater)
        } else {
            Some(Ordering::Equal)
        }
    }
}

impl vstd::std_specs::cmp::PartialOrdSpecImpl for Position {
    open spec fn obeys_partial_cmp_spec() -> bool {
        true
    }

    open spec fn partial_cmp_spec(&self, other: &Self) -> Option<Ordering> {
        if self.semitones() < other.semitones() {
            Some(Ordering::Less)
        } else if self.semitones() > other.semitones() {
            Some(Ordering::Greater)
        } else {
            Some(Ordering::Equal)
        }
    }
}

/// A natural note keeps its spelling: the position that lies as far above
/// the C of an octave as a natural note does is that note, natural, so it
/// equals the position it was taken from.
pub proof fn lemma_natural_round_trip(octave: Octave, note: Note)
    ensures
        Position::spelled(octave, note.offset()) == Some(
            Position { octave, note, accidental: Accidental::Natural },
        ),
        Position::spelled(octave, note.offset()).unwrap().semitones() == (Position {
            octave,
            note,
            accidental: Accidental::Natural,
        }).semitones(),
{
}

/// Every one of the twelve offsets of an octave has a spelling, the
/// spelling lies exactly that far above the C of the octave, and no flat is
/// ever chosen; no other offset has a spelling.
pub proof fn lemma_spelling_is_exact(octave: Octave, offset: int)
    ensures
        Position::spelled(octave, offset) is Some <==> 0 <= offset < 12,
        Position::spelled(octave, offset) matches Some(p) ==> p.octave == octave && p.semitones()
            == octave.0 * 12 + offset && p.accidental != Accidental::Flat,
{
}

/// Halfway between C and D, one semitone above C, the spelling is C sharp
/// and not D flat.
pub proof fn lemma_sharp_before_flat(octave: Octave)
    ensures
        Position::spelled(octave, 1) == Some(
            Position { octave, note: Note::C, accidental: Accidental::Sharp },
        ),
{
}

/// Two spellings of one pitch are equal, and positions are ordered as their
/// distances from C in the Sub Contra octave are.
pub proof fn lemma_order_by_semitones(p: Position, q: Position)
    ensures
        p.eq_spec(&q) <==> p.semitones() == q.semitones(),
        p.partial_cmp_spec(&q) == Some(Ordering::Less) <==> p.semitones() < q.semitones(),
        p.partial_cmp_spec(&q) == Some(Ordering::Equal) <==> p.eq_spec(&q),
{
}

} // verus!
