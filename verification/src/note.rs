//! A single note: a pitch with a note value and a loudness.

use vstd::prelude::*;
use crate::duration::{Duration, DurationBase};
use crate::tuning::{PitchClass, Tuning};

verus! {

/// A note of a measure.
#[derive(Copy, Clone, Debug, PartialEq, Eq, Structural)]
pub struct Note {
    pub pitch_class: PitchClass,
    pub octave: i8,
    pub duration: Duration,
    /// Loudness on the MIDI scale, 0 to 127.
    pub velocity: u8,
}

impl Note {
    /// The pitch of the note.
    pub open spec fn spec_tuning(self) -> Tuning {
        Tuning { class: self.pitch_class, octave: self.octave, freq: None }
    }

    /// A quarter note of a pitch, with no loudness set.
    pub fn new(pitch_class: PitchClass, octave: i8) -> (r: Note)
        ensures
            r.pitch_class == pitch_class,
            r.octave == octave,
            r.duration.spec_base() == DurationBase::Quarter,
            r.duration.spec_dots() == 0,
            r.duration.spec_tuplet() is None,
            r.velocity == 0,
    {
        Note { pitch_class, octave, duration: Duration::new(DurationBase::Quarter), velocity: 0 }
    }

    pub fn with_duration(self, duration: Duration) -> (r: Note)
        ensures
            r == (Note { duration, ..self }),
    {
        Note {
            pitch_class: self.pitch_class,
            octave: self.octave,
            duration,
            velocity: self.velocity,
        }
    }

    pub fn with_velocity(self, velocity: u8) -> (r: Note)
        ensures
            r == (Note { velocity, ..self }),
    {
        Note {
            pitch_class: self.pitch_class,
            octave: self.octave,
            duration: self.duration,
            velocity,
        }
    }

    pub fn pitch_class(&self) -> (r: PitchClass)
        ensures
            r == self.pitch_class,
    {
        self.pitch_class
    }

    pub fn octave(&self) -> (r: i8)
        ensures
            r == self.octave,
    {
        self.octave
    }

    pub fn duration(&self) -> (r: Duration)
        ensures
            r == self.duration,
    {
        self.duration
    }

    pub fn velocity(&self) -> (r: u8)
        ensures
            r == self.velocity,
    {
        self.velocity
    }

    pub fn tuning(&self) -> (r: Tuning)
        ensures
            r == self.spec_tuning(),
    {
        Tuning::new(self.pitch_class, self.octave)
    }
}

} // verus!
