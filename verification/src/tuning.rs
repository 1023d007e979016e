//! Pitch classes and absolute pitches.

use vstd::prelude::*;
use vstd::arithmetic::div_mod::{
    lemma_add_mod_noop_right, lemma_fundamental_div_mod_converse, lemma_mod_add_multiples_vanish,
    lemma_mod_multiples_vanish,
};
use crate::errors::MusicError;
use crate::interval::Interval;

verus! {

/// One of the twelve chromatic pitch identities, or the silent sentinel.
#[derive(Copy, Clone, Debug, PartialEq, Eq, Structural, PartialOrd)]
pub enum PitchClass {
    Silent,
    C,
    CSharpOrDFlat,
    D,
    DSharpOrEFlat,
    E,
    F,
    FSharpOrGFlat,
    G,
    GSharpOrAFlat,
    A,
    ASharpOrBFlat,
    B,
}

/// Semitone offset of the `nth` step of the major scale above its tonic,
/// for `nth` in `0..7`.
pub open spec fn basic_degree_offset(nth: int) -> int {
    if nth == 0 {
        0
    } else if nth == 1 {
        2
    } else if nth == 2 {
        4
    } else if nth == 3 {
        5
    } else if nth == 4 {
        7
    } else if nth == 5 {
        9
    } else {
        11
    }
}

/// The pitch class whose integer encoding is `value`, for `value` in `1..=12`.
pub open spec fn pitch_class_of(value: int) -> PitchClass {
    if value == 1 {
        PitchClass::C
    } else if value == 2 {
        PitchClass::CSharpOrDFlat
    } else if value == 3 {
        PitchClass::D
    } else if value == 4 {
        PitchClass::DSharpOrEFlat
    } else if value == 5 {
        PitchClass::E
    } else if value == 6 {
        PitchClass::F
    } else if value == 7 {
        PitchClass::FSharpOrGFlat
    } else if value == 8 {
        PitchClass::G
    } else if value == 9 {
        PitchClass::GSharpOrAFlat
    } else if value == 10 {
        PitchClass::A
    } else if value == 11 {
        PitchClass::ASharpOrBFlat
    } else if value == 12 {
        PitchClass::B
    } else {
        PitchClass::Silent
    }
}

impl PitchClass {
    /// Integer encoding: 0 for the silent class, 1 for C up to 12 for B.
    pub open spec fn spec_index(self) -> int {
        match self {
            PitchClass::Silent => 0,
            PitchClass::C => 1,
            PitchClass::CSharpOrDFlat => 2,
            PitchClass::D => 3,
            PitchClass::DSharpOrEFlat => 4,
            PitchClass::E => 5,
            PitchClass::F => 6,
            PitchClass::FSharpOrGFlat => 7,
            PitchClass::G => 8,
            PitchClass::GSharpOrAFlat => 9,
            PitchClass::A => 10,
            PitchClass::ASharpOrBFlat => 11,
            PitchClass::B => 12,
        }
    }

    /// The letters of each class.
    pub open spec fn spec_label(self) -> Seq<char> {
        match self {
            PitchClass::Silent => " "@,
            PitchClass::C => "C"@,
            PitchClass::CSharpOrDFlat => "C#/Db"@,
            PitchClass::D => "D"@,
            PitchClass::DSharpOrEFlat => "D#/Eb"@,
            PitchClass::E => "E"@,
            PitchClass::F => "F"@,
            PitchClass::FSharpOrGFlat => "F#/Gb"@,
            PitchClass::G => "G"@,
            PitchClass::GSharpOrAFlat => "G#/Ab"@,
            PitchClass::A => "A"@,
            PitchClass::ASharpOrBFlat => "A#/Bb"@,
            PitchClass::B => "B"@,
        }
    }

    /// The class reached by moving `degree` semitones, taken modulo 12.
    /// The silent class stays silent.
    pub open spec fn spec_modulation(self, degree: int) -> PitchClass {
        if self == PitchClass::Silent {
            PitchClass::Silent
        } else {
            pitch_class_of((self.spec_index() - 1 + 12 + degree) % 12 + 1)
        }
    }

    /// The class `nth` major-scale steps above this one, `nth` taken modulo 7.
    /// The silent class yields C.
    pub open spec fn spec_next_basic_degree(self, nth: int) -> PitchClass {
        if self == PitchClass::Silent {
            PitchClass::C
        } else {
            pitch_class_of((self.spec_index() - 1 + basic_degree_offset(nth % 7)) % 12 + 1)
        }
    }

    pub fn index(self) -> (r: u8)
        ensures
            r == self.spec_index(),
            r <= 12,
    {
        match self {
            PitchClass::Silent => 0,
            PitchClass::C => 1,
            PitchClass::CSharpOrDFlat => 2,
            PitchClass::D => 3,
            PitchClass::DSharpOrEFlat => 4,
            PitchClass::E => 5,
            PitchClass::F => 6,
            PitchClass::FSharpOrGFlat => 7,
            PitchClass::G => 8,
            PitchClass::GSharpOrAFlat => 9,
            PitchClass::A => 10,
            PitchClass::ASharpOrBFlat => 11,
            PitchClass::B => 12,
        }
    }

    /// The name of the class in letters, with both spellings of the black
    /// keys and a blank for silence.
    pub fn label(&self) -> (r: &'static str)
        ensures
            r@ == self.spec_label(),
    {
        match self {
            PitchClass::Silent => " ",
            PitchClass::C => "C",
            PitchClass::CSharpOrDFlat => "C#/Db",
            PitchClass::D => "D",
            PitchClass::DSharpOrEFlat => "D#/Eb",
            PitchClass::E => "E",
            PitchClass::F => "F",
            PitchClass::FSharpOrGFlat => "F#/Gb",
            PitchClass::G => "G",
            PitchClass::GSharpOrAFlat => "G#/Ab",
            PitchClass::A => "A",
            PitchClass::ASharpOrBFlat => "A#/Bb",
            PitchClass::B => "B",
        }
    }

    /// Decodes a pitch class from its integer encoding.
    pub fn from_index(value: u8) -> (r: PitchClass)
        requires
            1 <= value <= 12,
        ensures
            r == pitch_class_of(value as int),
            r.spec_index() == value,
    {
        if value == 1 {
            PitchClass::C
        } else if value == 2 {
            PitchClass::CSharpOrDFlat
        } else if value == 3 {
            PitchClass::D
        } else if value == 4 {
            PitchClass::DSharpOrEFlat
        } else if value == 5 {
            PitchClass::E
        } else if value == 6 {
            PitchClass::F
        } else if value == 7 {
            PitchClass::FSharpOrGFlat
        } else if value == 8 {
            PitchClass::G
        } else if value == 9 {
            PitchClass::GSharpOrAFlat
        } else if value == 10 {
            PitchClass::A
        } else if value == 11 {
            PitchClass::ASharpOrBFlat
        } else {
            PitchClass::B
        }
    }

    /// Transposes by `degree` semitones, wrapping around the octave.
    pub fn modulation(&self, degree: i8) -> (r: PitchClass)
        ensures
            r == self.spec_modulation(degree as int),
    {
        match self {
            PitchClass::Silent => PitchClass::Silent,
            _ => {
                // 132 is a multiple of 12 that lifts every `i8` above zero.
                let lifted: u16 = (self.index() as i16 - 1 + 132 + degree as i16) as u16;
                proof {
                    lemma_mod_multiples_vanish(10, self.spec_index() - 1 + 12 + degree, 12);
                }
                PitchClass::from_index((lifted % 12 + 1) as u8)
            },
        }
    }

    /// Steps along the major scale built on this class.
    pub fn next_basic_degree(&self, nth: i8) -> (r: PitchClass)
        ensures
            r == self.spec_next_basic_degree(nth as int),
    {
        match self {
            PitchClass::Silent => PitchClass::C,
            _ => {
                // 133 is a multiple of 7 that lifts every `i8` above zero.
                let step: u16 = ((nth as i16 + 133) as u16) % 7;
                proof {
                    lemma_mod_multiples_vanish(19, nth as int, 7);
                }
                let offset: u8 = if step == 0 {
                    0
                } else if step == 1 {
                    2
                } else if step == 2 {
                    4
                } else if step == 3 {
                    5
                } else if step == 4 {
                    7
                } else if step == 5 {
                    9
                } else {
                    11
                };
                PitchClass::from_index((self.index() - 1 + offset) % 12 + 1)
            },
        }
    }
}

/// An absolute pitch: a pitch class in an octave, optionally with an explicit
/// frequency that overrides the tempered one.
#[derive(Debug, Clone, Copy, PartialOrd, PartialEq, Eq, Structural)]
pub struct Tuning {
    pub class: PitchClass,
    pub octave: i8,
    /// Explicit frequency in thousandths of a hertz.
    pub freq: Option<u32>,
}

impl Tuning {
    /// Semitones above C of octave 0, for a sounding pitch.
    pub open spec fn absolute(self) -> int {
        self.octave * 12 + self.class.spec_index() - 1
    }

    /// What `add_interval` returns: a silent pitch stays silent; a sounding
    /// one moves by the interval's signed semitones, the octave carrying at
    /// the wraparound of the class, and fails when the octave leaves `i8`.
    pub open spec fn spec_add_interval(self, interval: Interval) -> Result<Tuning, MusicError> {
        if self.class == PitchClass::Silent {
            Ok(Tuning { class: PitchClass::Silent, octave: self.octave, freq: None })
        } else {
            let position = self.class.spec_index() - 1 + interval.semitones;
            let octave = self.octave + position / 12;
            if i8::MIN <= octave <= i8::MAX {
                Ok(Tuning { class: pitch_class_of(position % 12 + 1), octave: octave as i8, freq: None })
            } else {
                Err(MusicError::InvalidPitch)
            }
        }
    }

    /// The MIDI note number before any range check: 0 for a silent pitch,
    /// else twelve per octave above octave -1 plus the class offset.
    pub open spec fn spec_midi_number(self) -> int {
        if self.class == PitchClass::Silent {
            0
        } else {
            (self.octave + 1) * 12 + self.class.spec_index() - 1
        }
    }

    pub fn new(class: PitchClass, octave: i8) -> (r: Tuning)
        ensures
            r == (Tuning { class, octave, freq: None }),
    {
        Tuning { class, octave, freq: None }
    }

    /// The same pitch with an explicit frequency, in thousandths of a hertz.
    pub fn with_freq(self, freq: u32) -> (r: Tuning)
        ensures
            r == (Tuning { class: self.class, octave: self.octave, freq: Some(freq) }),
    {
        Tuning { class: self.class, octave: self.octave, freq: Some(freq) }
    }

    /// The pitch an interval away. The interval's signed semitone count is
    /// added as it stands; its direction flag is not applied a second time.
    pub fn add_interval(&self, interval: &Interval) -> (r: Result<Tuning, MusicError>)
        ensures
            r == self.spec_add_interval(*interval),
            r matches Ok(t) ==> self.class != PitchClass::Silent ==> t.class != PitchClass::Silent
                && t.absolute() == self.absolute() + interval.semitones,
    {
        match self.class {
            PitchClass::Silent => Ok(Tuning::new(PitchClass::Silent, self.octave)),
            _ => {
                // 132 is a multiple of 12 that lifts every position above zero.
                let lifted: i16 = self.class.index() as i16 - 1 + interval.semitones() as i16 + 132;
                let carry: i16 = lifted / 12 - 11;
                let residue: i16 = lifted % 12;
                proof {
                    let position = self.class.spec_index() - 1 + interval.semitones;
                    lemma_fundamental_div_mod_converse(position, 12, carry as int, residue as int);
                }
                let octave: i16 = self.octave as i16 + carry;
                if octave < -128 || octave > 127 {
                    Err(MusicError::InvalidPitch)
                } else {
                    Ok(Tuning::new(PitchClass::from_index((residue + 1) as u8), octave as i8))
                }
            },
        }
    }

    /// The MIDI note number (A4 is 69), or `InvalidPitch` when it falls
    /// outside 0 to 127.
    pub fn midi_number(&self) -> (r: Result<u8, MusicError>)
        ensures
            r == if 0 <= self.spec_midi_number() <= 127 {
                Ok::<u8, MusicError>(self.spec_midi_number() as u8)
            } else {
                Err::<u8, MusicError>(MusicError::InvalidPitch)
            },
    {
        let base = self.class.index();
        if base == 0 {
            return Ok(0);
        }
        let num: i16 = (self.octave as i16 + 1) * 12 + (base as i16 - 1);
        if num < 0 || num > 127 {
            Err(MusicError::InvalidPitch)
        } else {
            Ok(num as u8)
        }
    }
}

/// Transposition by whole octaves changes no pitch class.
pub proof fn lemma_modulation_by_octaves(p: PitchClass, k: int)
    ensures
        p.spec_modulation(12 * k) == p,
{
    if p != PitchClass::Silent {
        lemma_mod_multiples_vanish(k, p.spec_index() - 1 + 12, 12);
    }
}

/// The silent class absorbs every transposition.
pub proof fn lemma_modulation_of_silence(d: int)
    ensures
        PitchClass::Silent.spec_modulation(d) == PitchClass::Silent,
{
}

/// Transposition never leaves the twelve classes: a sounding class stays
/// sounding.
pub proof fn lemma_modulation_stays_sounding(p: PitchClass, d: int)
    requires
        p != PitchClass::Silent,
    ensures
        p.spec_modulation(d) != PitchClass::Silent,
        1 <= p.spec_modulation(d).spec_index() <= 12,
{
}

/// Transposing twice is transposing by the sum.
pub proof fn lemma_modulation_adds(p: PitchClass, a: int, b: int)
    ensures
        p.spec_modulation(a).spec_modulation(b) == p.spec_modulation(a + b),
{
    if p != PitchClass::Silent {
        let x = p.spec_index() - 1 + 12 + a;
        assert(p.spec_modulation(a).spec_index() - 1 == x % 12);
        lemma_add_mod_noop_right(12 + b, x, 12);
        lemma_mod_add_multiples_vanish(x + b, 12);
    }
}

} // verus!
