//! Intervals: a signed semitone distance labelled with a quality and a degree.

use vstd::prelude::*;
use crate::errors::MusicError;
use crate::tuning::PitchClass;

verus! {

/// Interval quality.
#[derive(Debug, Clone, Copy, PartialEq, Eq, Structural)]
pub enum IntervalQuality {
    /// Pure intervals (unison, fourth, fifth, octave).
    Perfect,
    /// Major intervals (second, third, sixth, seventh and their compounds).
    Major,
    /// Minor intervals, one semitone below the major ones.
    Minor,
    /// One semitone above the major or perfect interval.
    Augmented,
    /// One semitone below the table value of the degree.
    Diminished,
}

/// How well the two tones of an interval blend.
#[derive(Debug, Clone, Copy, PartialEq, Eq, Structural)]
pub enum Consonance {
    Consonant,
    Imperfect,
    Dissonant,
}

/// Diatonic step count of an interval, 1 for the unison.
#[derive(Debug, Clone, Copy, PartialEq, Eq, Structural)]
pub struct IntervalDegree(pub u8);

/// A labelled distance between two pitches.
#[derive(Debug, Clone, Copy, PartialEq, Eq, Structural)]
pub struct Interval {
    pub quality: IntervalQuality,
    pub degree: IntervalDegree,
    /// Signed size in semitones.
    pub semitones: i8,
    /// Whether the interval points below its root.
    pub is_descending: bool,
}

/// Semitones of the major or perfect interval of a degree, by the degree
/// modulo 7.
pub open spec fn degree_base_semitones(degree: int) -> int {
    let step = degree % 7;
    if step == 1 {
        0
    } else if step == 2 {
        2
    } else if step == 3 {
        4
    } else if step == 4 {
        5
    } else if step == 5 {
        7
    } else if step == 6 {
        9
    } else {
        11
    }
}

/// What a quality adds to the base semitones of a degree.
pub open spec fn quality_adjustment(quality: IntervalQuality) -> int {
    match quality {
        IntervalQuality::Perfect => 0,
        IntervalQuality::Major => 0,
        IntervalQuality::Minor => -1,
        IntervalQuality::Augmented => 1,
        IntervalQuality::Diminished => -1,
    }
}

/// The legal table: perfect only on 1, 4, 5, 8; major and minor only on
/// 2, 3, 6, 7, 9, 10; augmented and diminished on every degree.
pub open spec fn quality_admits(quality: IntervalQuality, degree: int) -> bool {
    match quality {
        IntervalQuality::Perfect => degree == 1 || degree == 4 || degree == 5 || degree == 8,
        IntervalQuality::Major | IntervalQuality::Minor => degree == 2 || degree == 3 || degree
            == 6 || degree == 7 || degree == 9 || degree == 10,
        IntervalQuality::Augmented | IntervalQuality::Diminished => true,
    }
}

/// The semitone table of (quality, degree).
pub open spec fn table_semitones(quality: IntervalQuality, degree: int) -> int {
    degree_base_semitones(degree) + quality_adjustment(quality)
}

pub open spec fn valid_degree(degree: int) -> bool {
    1 <= degree <= 13
}

/// What `calculate_semitones` returns.
pub open spec fn spec_calculate_semitones(quality: IntervalQuality, degree: int) -> Result<
    i8,
    MusicError,
> {
    if quality_admits(quality, degree) {
        Ok(table_semitones(quality, degree) as i8)
    } else {
        Err(MusicError::InvalidIntervalQuality)
    }
}

/// What `Interval::from_quality_degree` returns.
pub open spec fn spec_from_quality_degree(quality: IntervalQuality, degree: u8) -> Result<
    Interval,
    MusicError,
> {
    if !valid_degree(degree as int) {
        Err(MusicError::InvalidIntervalDegree { degree })
    } else if !quality_admits(quality, degree as int) {
        Err(MusicError::InvalidIntervalQuality)
    } else {
        Ok(
            Interval {
                quality,
                degree: IntervalDegree(degree),
                semitones: table_semitones(quality, degree as int) as i8,
                is_descending: false,
            },
        )
    }
}

pub open spec fn abs(x: int) -> int {
    if x < 0 {
        -x
    } else {
        x
    }
}

/// Quality of a semitone residue within one octave; the tritone is an
/// augmented fourth going up and a diminished fifth going down.
pub open spec fn residue_quality(residue: int, descending: bool) -> IntervalQuality {
    if residue == 0 || residue == 5 || residue == 7 {
        IntervalQuality::Perfect
    } else if residue == 1 || residue == 3 || residue == 8 || residue == 10 {
        IntervalQuality::Minor
    } else if residue == 6 {
        if descending {
            IntervalQuality::Diminished
        } else {
            IntervalQuality::Augmented
        }
    } else {
        IntervalQuality::Major
    }
}

/// Degree of a semitone residue within one octave.
pub open spec fn residue_degree(residue: int, descending: bool) -> int {
    if residue == 0 {
        1
    } else if residue <= 2 {
        2
    } else if residue <= 4 {
        3
    } else if residue == 5 {
        4
    } else if residue == 6 {
        if descending {
            5
        } else {
            4
        }
    } else if residue == 7 {
        5
    } else if residue <= 9 {
        6
    } else {
        7
    }
}

/// Degree that a semitone count classifies to: that of its residue plus
/// seven per full octave of magnitude.
pub open spec fn semitones_degree(semitones: int) -> int {
    residue_degree(abs(semitones) % 12, semitones < 0) + 7 * (abs(semitones) / 12)
}

/// What `Interval::from_semitones` returns.
pub open spec fn spec_from_semitones(semitones: i8) -> Result<Interval, MusicError> {
    let degree = semitones_degree(semitones as int);
    if degree > 13 {
        Err(MusicError::InvalidIntervalDegree { degree: degree as u8 })
    } else {
        Ok(
            Interval {
                quality: residue_quality(abs(semitones as int) % 12, semitones < 0),
                degree: IntervalDegree(degree as u8),
                semitones,
                is_descending: semitones < 0,
            },
        )
    }
}

pub open spec fn swapped_quality(quality: IntervalQuality) -> IntervalQuality {
    match quality {
        IntervalQuality::Perfect => IntervalQuality::Perfect,
        IntervalQuality::Major => IntervalQuality::Minor,
        IntervalQuality::Minor => IntervalQuality::Major,
        IntervalQuality::Augmented => IntervalQuality::Diminished,
        IntervalQuality::Diminished => IntervalQuality::Augmented,
    }
}

impl IntervalDegree {
    /// A degree from 1 to 13.
    pub fn new(degree: u8) -> (r: Result<IntervalDegree, MusicError>)
        ensures
            r == if valid_degree(degree as int) {
                Ok::<IntervalDegree, MusicError>(IntervalDegree(degree))
            } else {
                Err::<IntervalDegree, MusicError>(MusicError::InvalidIntervalDegree { degree })
            },
    {
        if degree < 1 || degree > 13 {
            return Err(MusicError::InvalidIntervalDegree { degree });
        }
        Ok(IntervalDegree(degree))
    }
}

/// Looks a (quality, degree) pair up in the semitone table.
pub fn calculate_semitones(quality: IntervalQuality, degree: IntervalDegree) -> (r: Result<
    i8,
    MusicError,
>)
    ensures
        r == spec_calculate_semitones(quality, degree.0 as int),
        r matches Ok(s) ==> s == table_semitones(quality, degree.0 as int),
{
    let degree_num = degree.0;
    let step = degree_num % 7;
    let base_semitones: i8 = if step == 1 {
        0
    } else if step == 2 {
        2
    } else if step == 3 {
        4
    } else if step == 4 {
        5
    } else if step == 5 {
        7
    } else if step == 6 {
        9
    } else {
        11
    };
    let adjustment: i8 = match quality {
        IntervalQuality::Perfect => {
            if !(degree_num == 1 || degree_num == 4 || degree_num == 5 || degree_num == 8) {
                return Err(MusicError::InvalidIntervalQuality);
            }
            0
        },
        IntervalQuality::Major => {
            if !is_imperfect_degree(degree_num) {
                return Err(MusicError::InvalidIntervalQuality);
            }
            0
        },
        IntervalQuality::Minor => {
            if !is_imperfect_degree(degree_num) {
                return Err(MusicError::InvalidIntervalQuality);
            }
            -1
        },
        IntervalQuality::Augmented => 1,
        IntervalQuality::Diminished => -1,
    };
    Ok(base_semitones + adjustment)
}

/// Whether a degree takes the major and minor qualities.
fn is_imperfect_degree(degree: u8) -> (r: bool)
    ensures
        r == quality_admits(IntervalQuality::Major, degree as int),
        r == quality_admits(IntervalQuality::Minor, degree as int),
{
    degree == 2 || degree == 3 || degree == 6 || degree == 7 || degree == 9 || degree == 10
}

impl Interval {
    pub open spec fn spec_invert(self) -> Interval {
        Interval {
            quality: swapped_quality(self.quality),
            degree: IntervalDegree((9 - self.degree.0 % 7) as u8),
            semitones: (12 - abs(self.semitones as int)) as i8,
            is_descending: self.is_descending,
        }
    }

    pub open spec fn spec_consonance(self) -> Consonance {
        let step = self.degree.0 % 7;
        if step == 0 || self.quality == IntervalQuality::Perfect {
            Consonance::Consonant
        } else if (step == 1 || step == 2 || step == 5) && (self.quality == IntervalQuality::Major
            || self.quality == IntervalQuality::Minor) {
            Consonance::Imperfect
        } else {
            Consonance::Dissonant
        }
    }

    /// Whether the semitone count is the table's for the quality and degree.
    pub open spec fn is_tabled(self) -> bool {
        &&& valid_degree(self.degree.0 as int)
        &&& quality_admits(self.quality, self.degree.0 as int)
        &&& self.semitones == table_semitones(self.quality, self.degree.0 as int)
        &&& !self.is_descending
    }

    pub fn semitones(&self) -> (r: i8)
        ensures
            r == self.semitones,
    {
        self.semitones
    }

    pub fn quality(&self) -> (r: IntervalQuality)
        ensures
            r == self.quality,
    {
        self.quality
    }

    pub fn degree(&self) -> (r: IntervalDegree)
        ensures
            r == self.degree,
    {
        self.degree
    }

    pub fn is_descending(&self) -> (r: bool)
        ensures
            r == self.is_descending,
    {
        self.is_descending
    }

    /// The ascending interval of a quality and a degree.
    pub fn from_quality_degree(quality: IntervalQuality, degree: u8) -> (r: Result<
        Interval,
        MusicError,
    >)
        ensures
            r == spec_from_quality_degree(quality, degree),
            r matches Ok(i) ==> i.is_tabled(),
    {
        let degree = match IntervalDegree::new(degree) {
            Ok(d) => d,
            Err(e) => {
                return Err(e);
            },
        };
        let semitones = match calculate_semitones(quality, degree) {
            Ok(s) => s,
            Err(e) => {
                return Err(e);
            },
        };
        Ok(Interval { quality, degree, semitones, is_descending: false })
    }

    /// Classifies a signed semitone count.
    pub fn from_semitones(semitones: i8) -> (r: Result<Interval, MusicError>)
        ensures
            r == spec_from_semitones(semitones),
    {
        let is_descending = semitones < 0;
        let magnitude: u8 = if is_descending {
            (-(semitones as i16)) as u8
        } else {
            semitones as u8
        };
        let abs_semi = magnitude % 12;
        let octaves = magnitude / 12;
        let (quality, degree): (IntervalQuality, u8) = if abs_semi == 0 {
            (IntervalQuality::Perfect, 1)
        } else if abs_semi == 1 {
            (IntervalQuality::Minor, 2)
        } else if abs_semi == 2 {
            (IntervalQuality::Major, 2)
        } else if abs_semi == 3 {
            (IntervalQuality::Minor, 3)
        } else if abs_semi == 4 {
            (IntervalQuality::Major, 3)
        } else if abs_semi == 5 {
            (IntervalQuality::Perfect, 4)
        } else if abs_semi == 6 {
            if is_descending {
                (IntervalQuality::Diminished, 5)
            } else {
                (IntervalQuality::Augmented, 4)
            }
        } else if abs_semi == 7 {
            (IntervalQuality::Perfect, 5)
        } else if abs_semi == 8 {
            (IntervalQuality::Minor, 6)
        } else if abs_semi == 9 {
            (IntervalQuality::Major, 6)
        } else if abs_semi == 10 {
            (IntervalQuality::Minor, 7)
        } else {
            (IntervalQuality::Major, 7)
        };
        match IntervalDegree::new(degree + octaves * 7) {
            Ok(degree) => Ok(Interval { quality, degree, semitones, is_descending }),
            Err(e) => Err(e),
        }
    }

    /// The interval from one pitch class to another, as the signed
    /// difference of their encodings.
    pub fn between(start: PitchClass, end: PitchClass) -> (r: Interval)
        ensures
            Ok::<Interval, MusicError>(r) == spec_from_semitones(
                (end.spec_index() - start.spec_index()) as i8,
            ),
    {
        let semitones: i8 = end.index() as i8 - start.index() as i8;
        Interval::from_semitones(semitones).unwrap()
    }

    /// Inverts in place: a major third becomes a minor sixth.
    pub fn invert(&mut self)
        ensures
            *final(self) == old(self).spec_invert(),
    {
        self.degree = IntervalDegree(9 - self.degree.0 % 7);
        let magnitude: i16 = if self.semitones < 0 {
            -(self.semitones as i16)
        } else {
            self.semitones as i16
        };
        self.semitones = (12 - magnitude) as i8;
        self.quality = match self.quality {
            IntervalQuality::Perfect => IntervalQuality::Perfect,
            IntervalQuality::Major => IntervalQuality::Minor,
            IntervalQuality::Minor => IntervalQuality::Major,
            IntervalQuality::Augmented => IntervalQuality::Diminished,
            IntervalQuality::Diminished => IntervalQuality::Augmented,
        };
    }

    /// Consonance class of the interval.
    pub fn consonance(&self) -> (r: Consonance)
        ensures
            r == self.spec_consonance(),
    {
        let step = self.degree.0 % 7;
        if step == 0 {
            return Consonance::Consonant;
        }
        match self.quality {
            IntervalQuality::Perfect => Consonance::Consonant,
            IntervalQuality::Major | IntervalQuality::Minor => {
                if step == 1 || step == 2 || step == 5 {
                    Consonance::Imperfect
                } else {
                    Consonance::Dissonant
                }
            },
            _ => Consonance::Dissonant,
        }
    }
}

/// Every legal (quality, degree) pair has the semitone count of the table,
/// and that count classifies back to an interval of the same count, whose
/// quality and degree have it in the table too where it lies within the
/// octave.
pub proof fn lemma_semitones_round_trip(quality: IntervalQuality, degree: u8)
    requires
        valid_degree(degree as int),
        quality_admits(quality, degree as int),
    ensures
        spec_from_quality_degree(quality, degree) matches Ok(i) && i.semitones == table_semitones(
            quality,
            degree as int,
        ) && (spec_from_semitones(i.semitones) matches Ok(j) && j.semitones == i.semitones && (0
            <= i.semitones <= 11 ==> j.is_tabled())),
{
}

/// Inverting twice restores the quality always, the degree exactly on the
/// degrees 3 to 9, and the semitones exactly on 0 to 12; an interval and
/// its inversion together span twelve semitones.
pub proof fn lemma_invert_twice(i: Interval)
    ensures
        i.spec_invert().spec_invert().quality == i.quality,
        i.spec_invert().spec_invert().is_descending == i.is_descending,
        i.spec_invert().spec_invert().degree == i.degree <==> 3 <= i.degree.0 <= 9,
        i.spec_invert().spec_invert().semitones == i.semitones <==> 0 <= i.semitones <= 12,
        abs(i.semitones as int) + i.spec_invert().semitones == 12,
{
}

} // verus!
