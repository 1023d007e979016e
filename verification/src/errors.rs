//! The typed failures of the theory layer.

use vstd::prelude::*;
use crate::ratio::Ratio;

verus! {

#[derive(Debug, Clone, PartialEq)]
pub enum MusicError {
    /// A pitch that cannot be represented.
    InvalidPitch,
    /// A MIDI note number above 127.
    MidiOutOfRange(u8),
    /// A chord form that has no construction.
    UnsupportedChord,
    /// A conflict with music theory, in words.
    TheoryViolation(String),
    /// A failure of the MIDI transport, in words.
    MidiError(String),
    /// A length that is no note value.
    InvalidDuration(Ratio),
    /// A tuplet with a zero count.
    InvalidTupletRatio { actual: u8, base: u8 },
    /// A tuplet ratio outside the supported ones.
    UnsupportedTuplet,
    /// A tuplet whose reference note value differs from the note's own.
    TupletDurationMismatch,
    /// An interval degree outside 1 to 13.
    InvalidIntervalDegree { degree: u8 },
    /// A text that names no interval.
    IntervalParseError { name: String },
    /// An interval quality that the degree does not admit.
    InvalidIntervalQuality,
    /// A scale degree below 1.
    InvalidScaleDegree(u8),
}

} // verus!
