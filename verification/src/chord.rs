//! Chords: a root, a stack of intervals above it, and how the tones are laid
//! out over the octaves.

use vstd::prelude::*;
use crate::errors::MusicError;
use crate::interval::{table_semitones, Interval, IntervalDegree, IntervalQuality};
use crate::tuning::{PitchClass, Tuning};
use crate::vec_util::copy_vec;

verus! {

/// Chord kind.
#[derive(Debug, Clone, Copy, PartialEq, Eq, Structural)]
pub enum ChordType {
    /// Triad.
    Triad,
    /// Seventh chord.
    Seventh,
    /// Extended chord (9th, 11th, 13th).
    Extended(u8),
    /// Suspended chord (sus2, sus4).
    Suspended(u8),
    /// Power chord.
    Power,
    /// Altered chord.
    Altered,
    /// Custom chord.
    Custom,
}

/// Chord voicing.
#[derive(Debug, Clone, Copy, PartialEq, Eq, Structural)]
pub enum Voicing {
    /// Dense arrangement: no tone more than one octave above the root's.
    ClosePosition,
    /// Open arrangement: every second tone above the root an octave up.
    OpenPosition,
    /// Drop 2.
    Drop2,
    /// Drop 3.
    Drop3,
    /// Cluster (tones within a minor second).
    Cluster,
}

/// Chord inversion state.
#[derive(Debug, Clone, Copy, PartialEq, Eq, Structural)]
pub enum Inversion {
    /// Root position.
    RootPosition,
    /// First inversion.
    First,
    /// Second inversion.
    Second,
    /// Third inversion (seventh chords).
    Third,
}

/// Quality of a triad.
#[derive(Debug, Clone, Copy, PartialEq, Eq, Structural)]
pub enum ChordQuality {
    Major,
    Minor,
    Diminished,
    Augmented,
}

/// Kinds of seventh chord.
#[derive(Debug, Clone, Copy, PartialEq, Eq, Structural)]
pub enum SeventhQuality {
    Major7,
    Dominant7,
    Minor7,
    MinorMajor7,
    HalfDiminished,
    FullyDiminished,
}

/// Harmonic function of a chord in a key.
#[derive(Debug, Clone, Copy, PartialEq, Eq, Structural)]
pub enum ChordFunction {
    Tonic,
    Subdominant,
    Dominant,
    SecondaryDominant,
    Neapolitan,
}

/// A complete chord description. Its intervals and extensions together
/// number less than `usize::MAX`, so that its tones can be listed.
#[derive(Debug, PartialEq)]
pub struct Chord {
    root: Tuning,
    intervals: Vec<Interval>,
    chord_type: ChordType,
    quality: ChordQuality,
    inversion: Inversion,
    voicing: Voicing,
    extensions: Vec<Interval>,
}

/// What a chord holds, as plain values.
pub struct ChordView {
    pub root: Tuning,
    pub intervals: Seq<Interval>,
    pub chord_type: ChordType,
    pub quality: ChordQuality,
    pub inversion: Inversion,
    pub voicing: Voicing,
    pub extensions: Seq<Interval>,
}

impl View for Chord {
    type V = ChordView;

    closed spec fn view(&self) -> ChordView {
        ChordView {
            root: self.root,
            intervals: self.intervals@,
            chord_type: self.chord_type,
            quality: self.quality,
            inversion: self.inversion,
            voicing: self.voicing,
            extensions: self.extensions@,
        }
    }
}

/// The ascending interval that the semitone table gives a quality and degree.
pub open spec fn tabled_interval(quality: IntervalQuality, degree: u8) -> Interval {
    Interval {
        quality,
        degree: IntervalDegree(degree),
        semitones: table_semitones(quality, degree as int) as i8,
        is_descending: false,
    }
}

/// The third and the fifth that define a triad of a quality.
pub open spec fn triad_intervals(quality: ChordQuality) -> Seq<Interval> {
    match quality {
        ChordQuality::Major => seq![
            tabled_interval(IntervalQuality::Major, 3),
            tabled_interval(IntervalQuality::Perfect, 5),
        ],
        ChordQuality::Minor => seq![
            tabled_interval(IntervalQuality::Minor, 3),
            tabled_interval(IntervalQuality::Perfect, 5),
        ],
        ChordQuality::Diminished => seq![
            tabled_interval(IntervalQuality::Minor, 3),
            tabled_interval(IntervalQuality::Diminished, 5),
        ],
        ChordQuality::Augmented => seq![
            tabled_interval(IntervalQuality::Major, 3),
            tabled_interval(IntervalQuality::Augmented, 5),
        ],
    }
}

/// The triad that a seventh chord is built on.
pub open spec fn seventh_base_quality(quality: SeventhQuality) -> ChordQuality {
    match quality {
        SeventhQuality::Major7 => ChordQuality::Major,
        SeventhQuality::Dominant7 => ChordQuality::Major,
        SeventhQuality::Minor7 => ChordQuality::Minor,
        SeventhQuality::MinorMajor7 => ChordQuality::Minor,
        SeventhQuality::HalfDiminished => ChordQuality::Diminished,
        SeventhQuality::FullyDiminished => ChordQuality::Diminished,
    }
}

/// The seventh that a seventh chord adds to its triad.
pub open spec fn seventh_interval(quality: SeventhQuality) -> Interval {
    match quality {
        SeventhQuality::Major7 | SeventhQuality::MinorMajor7 => tabled_interval(
            IntervalQuality::Major,
            7,
        ),
        SeventhQuality::Dominant7 | SeventhQuality::HalfDiminished | SeventhQuality::Minor7 =>
            tabled_interval(IntervalQuality::Minor, 7),
        SeventhQuality::FullyDiminished => tabled_interval(IntervalQuality::Diminished, 7),
    }
}

/// A triad in root position and close voicing.
pub open spec fn triad_view(root: Tuning, quality: ChordQuality) -> ChordView {
    ChordView {
        root,
        intervals: triad_intervals(quality),
        chord_type: ChordType::Triad,
        quality,
        inversion: Inversion::RootPosition,
        voicing: Voicing::ClosePosition,
        extensions: Seq::empty(),
    }
}

/// A seventh chord in root position and close voicing.
pub open spec fn seventh_view(root: Tuning, quality: SeventhQuality) -> ChordView {
    ChordView {
        root,
        intervals: triad_intervals(seventh_base_quality(quality)),
        chord_type: ChordType::Seventh,
        quality: seventh_base_quality(quality),
        inversion: Inversion::RootPosition,
        voicing: Voicing::ClosePosition,
        extensions: seq![seventh_interval(quality)],
    }
}

/// Voicings that lay tones out; the others have no layout.
pub open spec fn voicing_supported(voicing: Voicing) -> bool {
    voicing == Voicing::ClosePosition || voicing == Voicing::OpenPosition
}

/// Octave of the tone at place `i` (1 for the first tone above the root)
/// once voiced. Close position lowers it to the octave above the root's
/// where it lies higher. Open position raises the tones at the even places
/// by one octave.
pub open spec fn voiced_octave(voicing: Voicing, root_octave: int, i: int, octave: int) -> int {
    match voicing {
        Voicing::ClosePosition => if octave > root_octave + 1 {
            root_octave + 1
        } else {
            octave
        },
        Voicing::OpenPosition => if i % 2 == 0 {
            octave + 1
        } else {
            octave
        },
        _ => octave,
    }
}

impl ChordView {
    /// The intervals and then the extensions, in the order they were added.
    pub open spec fn steps(self) -> Seq<Interval> {
        self.intervals + self.extensions
    }

    /// The tone at place `i`: the root itself at place 0, else the root
    /// moved by the step of that place, in its voiced octave. It fails where
    /// an octave leaves `i8`.
    pub open spec fn tone(self, i: int) -> Result<Tuning, MusicError> {
        if i == 0 {
            Ok(self.root)
        } else {
            match self.root.spec_add_interval(self.steps()[i - 1]) {
                Ok(t) => {
                    let octave = voiced_octave(self.voicing, self.root.octave as int, i, t.octave as int);
                    if i8::MIN <= octave <= i8::MAX {
                        Ok(Tuning { class: t.class, octave: octave as i8, freq: None })
                    } else {
                        Err(MusicError::InvalidPitch)
                    }
                },
                Err(e) => Err(e),
            }
        }
    }

    /// The tones of the chord from the root up, or why there are none: a
    /// voicing without layout is unsupported; a tone outside the octaves of
    /// `i8` is an invalid pitch.
    pub open spec fn components(self) -> Result<Seq<Tuning>, MusicError> {
        if !voicing_supported(self.voicing) {
            Err(MusicError::UnsupportedChord)
        } else if exists|i: int| 0 <= i <= self.steps().len() && (#[trigger] self.tone(i)) is Err {
            Err(MusicError::InvalidPitch)
        } else {
            Ok(Seq::new(self.steps().len() + 1, |i: int| self.tone(i)->Ok_0))
        }
    }
}

impl SeventhQuality {
    /// The triad under the seventh.
    pub fn base_quality(&self) -> (r: ChordQuality)
        ensures
            r == seventh_base_quality(*self),
    {
        match self {
            SeventhQuality::Major7 => ChordQuality::Major,
            SeventhQuality::Dominant7 => ChordQuality::Major,
            SeventhQuality::Minor7 => ChordQuality::Minor,
            SeventhQuality::MinorMajor7 => ChordQuality::Minor,
            SeventhQuality::HalfDiminished => ChordQuality::Diminished,
            SeventhQuality::FullyDiminished => ChordQuality::Diminished,
        }
    }
}

/// An interval of the table that is known to be legal.
fn tabled(quality: IntervalQuality, degree: u8) -> (r: Result<Interval, MusicError>)
    requires
        crate::interval::valid_degree(degree as int),
        crate::interval::quality_admits(quality, degree as int),
    ensures
        r == Ok::<Interval, MusicError>(tabled_interval(quality, degree)),
{
    Interval::from_quality_degree(quality, degree)
}

impl Chord {
    #[verifier::type_invariant]
    spec fn listable(self) -> bool {
        self.intervals@.len() + self.extensions@.len() < usize::MAX
    }

    fn new(
        tuning: Tuning,
        intervals: Vec<Interval>,
        chord_type: ChordType,
        chord_quality: ChordQuality,
    ) -> (r: Chord)
        requires
            intervals@.len() < usize::MAX,
        ensures
            r@ == (ChordView {
                root: tuning,
                intervals: intervals@,
                chord_type,
                quality: chord_quality,
                inversion: Inversion::RootPosition,
                voicing: Voicing::ClosePosition,
                extensions: Seq::empty(),
            }),
    {
        Chord {
            root: tuning,
            intervals,
            chord_type,
            quality: chord_quality,
            inversion: Inversion::RootPosition,
            voicing: Voicing::ClosePosition,
            extensions: Vec::new(),
        }
    }

    /// The triad of a quality on a root.
    pub fn triad(root: Tuning, quality: ChordQuality) -> (r: Result<Chord, MusicError>)
        ensures
            r matches Ok(c) && c@ == triad_view(root, quality),
    {
        let (third, fifth) = match quality {
            ChordQuality::Major => (
                tabled(IntervalQuality::Major, 3)?,
                tabled(IntervalQuality::Perfect, 5)?,
            ),
            ChordQuality::Minor => (
                tabled(IntervalQuality::Minor, 3)?,
                tabled(IntervalQuality::Perfect, 5)?,
            ),
            ChordQuality::Diminished => (
                tabled(IntervalQuality::Minor, 3)?,
                tabled(IntervalQuality::Diminished, 5)?,
            ),
            ChordQuality::Augmented => (
                tabled(IntervalQuality::Major, 3)?,
                tabled(IntervalQuality::Augmented, 5)?,
            ),
        };
        let mut intervals: Vec<Interval> = Vec::new();
        intervals.push(third);
        intervals.push(fifth);
        assert(intervals@ =~= triad_intervals(quality));
        Ok(Chord::new(root, intervals, ChordType::Triad, quality))
    }

    /// The seventh chord of a kind on a root: its triad, and the seventh as
    /// an extension.
    pub fn seventh(root: Tuning, quality: SeventhQuality) -> (r: Result<Chord, MusicError>)
        ensures
            r matches Ok(c) && c@ == seventh_view(root, quality),
    {
        let seventh = match quality {
            SeventhQuality::Major7 | SeventhQuality::MinorMajor7 => tabled(
                IntervalQuality::Major,
                7,
            )?,
            SeventhQuality::Dominant7 | SeventhQuality::HalfDiminished | SeventhQuality::Minor7 =>
                tabled(IntervalQuality::Minor, 7)?,
            SeventhQuality::FullyDiminished => tabled(IntervalQuality::Diminished, 7)?,
        };
        let mut base = Chord::triad(root, quality.base_quality())?.with_extension(seventh);
        base.chord_type = ChordType::Seventh;
        Ok(base)
    }

    /// The chord with one more extension on top.
    pub fn with_extension(self, interval: Interval) -> (r: Chord)
        requires
            self@.steps().len() + 1 < usize::MAX,
        ensures
            r@ == (ChordView { extensions: self@.extensions.push(interval), ..self@ }),
    {
        proof {
            use_type_invariant(&self);
        }
        let Chord { root, intervals, chord_type, quality, inversion, voicing, extensions } = self;
        let mut extensions = extensions;
        extensions.push(interval);
        Chord { root, intervals, chord_type, quality, inversion, voicing, extensions }
    }

    /// Sets the inversion state.
    pub fn invert(&mut self, inversion: Inversion)
        ensures
            final(self)@ == (ChordView { inversion, ..old(self)@ }),
    {
        proof {
            use_type_invariant(&*self);
        }
        self.inversion = inversion;
    }

    /// Sets the voicing.
    pub fn revoice(&mut self, voicing: Voicing)
        ensures
            final(self)@ == (ChordView { voicing, ..old(self)@ }),
    {
        proof {
            use_type_invariant(&*self);
        }
        self.voicing = voicing;
    }

    pub fn root(&self) -> (r: Tuning)
        ensures
            r == self@.root,
    {
        self.root
    }

    pub fn quality(&self) -> (r: ChordQuality)
        ensures
            r == self@.quality,
    {
        self.quality
    }

    pub fn chord_type(&self) -> (r: ChordType)
        ensures
            r == self@.chord_type,
    {
        self.chord_type
    }

    pub fn inversion(&self) -> (r: Inversion)
        ensures
            r == self@.inversion,
    {
        self.inversion
    }

    pub fn voicing(&self) -> (r: Voicing)
        ensures
            r == self@.voicing,
    {
        self.voicing
    }

    /// The tone at place `i` of the chord, `i` at least 1, for a supported
    /// voicing.
    fn voiced_tone(&self, i: usize, step: &Interval) -> (r: Result<Tuning, MusicError>)
        requires
            1 <= i <= self@.steps().len(),
            *step == self@.steps()[i - 1],
            voicing_supported(self@.voicing),
        ensures
            r == self@.tone(i as int),
    {
        let t = self.root.add_interval(step)?;
        let octave: i16 = match self.voicing {
            Voicing::ClosePosition => if t.octave as i16 > self.root.octave as i16 + 1 {
                self.root.octave as i16 + 1
            } else {
                t.octave as i16
            },
            _ => if i % 2 == 0 {
                t.octave as i16 + 1
            } else {
                t.octave as i16
            },
        };
        if octave < -128 || octave > 127 {
            Err(MusicError::InvalidPitch)
        } else {
            Ok(Tuning::new(t.class, octave as i8))
        }
    }

    /// The tones of the chord: the root first, then the root moved by each
    /// interval and each extension in the order they were added, each tone
    /// placed by the voicing. Drop-2, drop-3 and cluster voicings have no
    /// layout and are refused.
    pub fn components(&self) -> (r: Result<Vec<Tuning>, MusicError>)
        ensures
            match self@.components() {
                Ok(tones) => r matches Ok(v) && v@ == tones,
                Err(e) => r == Err::<Vec<Tuning>, MusicError>(e),
            },
    {
        match self.voicing {
            Voicing::ClosePosition | Voicing::OpenPosition => {},
            _ => {
                return Err(MusicError::UnsupportedChord);
            },
        }
        proof {
            use_type_invariant(self);
        }
        let ghost view = self@;
        let n = self.intervals.len();
        let m = self.extensions.len();
        let mut notes: Vec<Tuning> = Vec::new();
        notes.push(self.root);
        let mut i: usize = 0;
        while i < n
            invariant
                view == self@,
                voicing_supported(view.voicing),
                n == self.intervals@.len(),
                m == self.extensions@.len(),
                view.steps().len() == n + m,
                n + m < usize::MAX,
                i <= n,
                notes@.len() == i + 1,
                forall|k: int| 0 <= k <= i ==> #[trigger] view.tone(k) == Ok::<Tuning, MusicError>(notes@[k]),
            decreases n - i,
        {
            let step = self.intervals[i];
            match self.voiced_tone(i + 1, &step) {
                Ok(t) => {
                    notes.push(t);
                },
                Err(_) => {
                    return Err(MusicError::InvalidPitch);
                },
            }
            i = i + 1;
        }
        let mut j: usize = 0;
        while j < m
            invariant
                view == self@,
                voicing_supported(view.voicing),
                n == self.intervals@.len(),
                m == self.extensions@.len(),
                view.steps().len() == n + m,
                n + m < usize::MAX,
                j <= m,
                notes@.len() == n + j + 1,
                forall|k: int| 0 <= k <= n + j ==> #[trigger] view.tone(k) == Ok::<Tuning, MusicError>(notes@[k]),
            decreases m - j,
        {
            let step = self.extensions[j];
            match self.voiced_tone(n + j + 1, &step) {
                Ok(t) => {
                    notes.push(t);
                },
                Err(_) => {
                    return Err(MusicError::InvalidPitch);
                },
            }
            j = j + 1;
        }
        Ok(notes)
    }
}

impl Clone for Chord {
    fn clone(&self) -> (r: Chord)
        ensures
            r@ == self@,
    {
        proof {
            use_type_invariant(self);
        }
        Chord {
            root: self.root,
            intervals: copy_vec(&self.intervals),
            chord_type: self.chord_type,
            quality: self.quality,
            inversion: self.inversion,
            voicing: self.voicing,
            extensions: copy_vec(&self.extensions),
        }
    }
}

impl PitchClass {
    /// The diatonic triad on a degree of the major scale of this class:
    /// major on the degrees 1, 4 and 5, minor on 2, 3 and 6, rooted that
    /// many scale steps above this class in the given octave. Other degrees
    /// have no such triad.
    pub fn common_chord(&self, degree: u8, octave: i8) -> (r: Result<Chord, MusicError>)
        ensures
            !(1 <= degree <= 6) ==> r == Err::<Chord, MusicError>(
                MusicError::InvalidScaleDegree(degree),
            ),
            1 <= degree <= 6 ==> match common_chord_root(*self, degree, octave) {
                Ok(root) => r matches Ok(c) && c@ == triad_view(root, common_chord_quality(degree)),
                Err(e) => r == Err::<Chord, MusicError>(e),
            },
    {
        if degree < 1 || degree > 6 {
            return Err(MusicError::InvalidScaleDegree(degree));
        }
        let offset: i8 = if degree == 1 {
            0
        } else if degree == 2 {
            2
        } else if degree == 3 {
            4
        } else if degree == 4 {
            5
        } else if degree == 5 {
            7
        } else {
            9
        };
        let tuning = Tuning::new(*self, octave);
        let step = Interval::from_semitones(offset)?;
        let new_tuning = tuning.add_interval(&step)?;
        let quality = if degree == 1 || degree == 4 || degree == 5 {
            ChordQuality::Major
        } else {
            ChordQuality::Minor
        };
        Chord::triad(new_tuning, quality)
    }
}

/// Quality of the diatonic triad on a degree of the major scale.
pub open spec fn common_chord_quality(degree: u8) -> ChordQuality {
    if degree == 1 || degree == 4 || degree == 5 {
        ChordQuality::Major
    } else {
        ChordQuality::Minor
    }
}

/// Root of the diatonic triad on a degree of the major scale of `class`.
pub open spec fn common_chord_root(class: PitchClass, degree: u8, octave: i8) -> Result<
    Tuning,
    MusicError,
> {
    let offset = crate::tuning::basic_degree_offset(degree as int - 1) as i8;
    (Tuning { class, octave, freq: None }).spec_add_interval(
        crate::interval::spec_from_semitones(offset)->Ok_0,
    )
}

/// A chord's tones begin with its root and number one more than its
/// intervals and extensions.
pub proof fn lemma_components_begin_with_root(chord: ChordView)
    ensures
        chord.components() matches Ok(tones) ==> tones.len() == chord.steps().len() + 1 && tones[0]
            == chord.root,
{
}

/// A voicing moves tones over the octaves and changes no pitch class: the
/// close and the open layout of one chord agree in the class of every tone.
pub proof fn lemma_voicing_keeps_classes(chord: ChordView, i: int)
    requires
        0 <= i <= chord.steps().len(),
    ensures
        ({
            let close = ChordView { voicing: Voicing::ClosePosition, ..chord };
            let open = ChordView { voicing: Voicing::OpenPosition, ..chord };
            close.components() matches Ok(a) ==> open.components() matches Ok(b) ==> a[i].class
                == b[i].class
        }),
{
}

} // verus!
