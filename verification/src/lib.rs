//! A symbolic music-theory engine: pitch classes, intervals, absolute pitches,
//! exact rational note values, chords, scales, multi-track scores and the
//! schedule of timed note events that a score produces.

pub mod chord;
pub mod duration;
pub mod duration_utils;
pub mod errors;
pub mod interval;
pub mod interval_text;
pub mod measure;
pub mod midi_player;
pub mod note;
pub mod ratio;
pub mod scale;
pub mod scheduler;
pub mod score;
pub mod tonality;
pub mod track;
pub mod tuning;
pub mod vec_util;

pub use chord::{Chord, ChordFunction, ChordQuality, ChordType, ChordView, Inversion, SeventhQuality, Voicing};
pub use duration::{Duration, DurationBase, Tuplet};
pub use errors::MusicError;
pub use interval::{calculate_semitones, Consonance, Interval, IntervalDegree, IntervalQuality};
pub use measure::Measure;
pub use midi_player::{MidiMessage, MidiPlayer, MidiPlayerChannel, PlayerError, PlayerState};
pub use note::Note;
pub use ratio::Ratio;
pub use scale::{parse_intervals, Scale, ScaleType, ScaleView};
pub use scheduler::TimedEvent;
pub use score::{Score, ScoreView};
pub use tonality::Tonality;
pub use track::Track;
pub use tuning::{PitchClass, Tuning};
