//! One bar on one track.

use vstd::prelude::*;
use crate::chord::Chord;
use crate::note::Note;

verus! {

/// The content of a measure: silence, one sustained chord, or a run of
/// notes that each carry their own note value.
#[derive(Clone, Debug, PartialEq)]
pub enum Measure {
    Rest,
    Chord(Chord),
    Note(Vec<Note>),
}

impl Measure {
    /// A silent measure.
    pub fn new() -> (r: Measure)
        ensures
            r == Measure::Rest,
    {
        Measure::Rest
    }

    /// Makes the measure silent.
    pub fn rest(&mut self)
        ensures
            *final(self) == Measure::Rest,
    {
        *self = Measure::Rest;
    }

    /// Fills the measure with a chord.
    pub fn chord(&mut self, chord: Chord)
        ensures
            *final(self) == Measure::Chord(chord),
    {
        *self = Measure::Chord(chord);
    }

    /// Fills the measure with notes.
    pub fn note(&mut self, notes: Vec<Note>)
        ensures
            *final(self) == Measure::Note(notes),
    {
        *self = Measure::Note(notes);
    }
}

} // verus!
