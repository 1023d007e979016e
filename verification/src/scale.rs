//! Scales: a root and a pattern of semitone steps, with the pitches that the
//! pattern generates over a span of octaves.

use vstd::prelude::*;
use vstd::arithmetic::div_mod::{lemma_fundamental_div_mod_converse, lemma_mod_multiples_vanish};
use crate::errors::MusicError;
use crate::interval::{spec_from_semitones, Interval};
use crate::tuning::Tuning;
use crate::vec_util::copy_vec;

verus! {

/// Scale type classification.
#[derive(Debug, Clone, Copy, PartialEq, Eq)]
pub enum ScaleType {
    /// Natural major.
    Major,
    /// Natural minor.
    NaturalMinor,
    /// Harmonic minor.
    HarmonicMinor,
    /// Melodic minor (upward).
    MelodicMinor,
    /// Dorian mode.
    Dorian,
    /// Phrygian mode.
    Phrygian,
    /// Lydian mode.
    Lydian,
    /// Mixolydian mode.
    Mixolydian,
    /// Locrian mode.
    Locrian,
    /// Major pentatonic.
    PentatonicMajor,
    /// Minor pentatonic.
    PentatonicMinor,
    /// Blues scale.
    Blues,
    /// Whole-tone scale.
    WholeTone,
    /// Octatonic (diminished) scale.
    Octatonic,
    /// Chromatic scale.
    Chromatic,
    /// Bebop dominant scale.
    BebopDominant,
    /// Arabian Hijaz scale.
    Hijaz,
    /// Japanese Hirajoshi scale.
    Hirajoshi,
    /// Japanese In Sen scale.
    InSen,
    /// A pattern of the caller's own.
    Custom(&'static [i8]),
}

/// The octaves that a scale's cached pitches span above the first.
pub const SCALE_OCTAVES: u8 = 3;

/// A scale with its resolved intervals and its generated pitches. The
/// pitches always outnumber the intervals.
#[derive(Debug, PartialEq)]
pub struct Scale {
    root: Tuning,
    scale_type: ScaleType,
    intervals: Vec<Interval>,
    notes: Vec<Tuning>,
}

/// What a scale holds, as plain values.
pub struct ScaleView {
    pub root: Tuning,
    pub scale_type: ScaleType,
    pub intervals: Seq<Interval>,
    pub notes: Seq<Tuning>,
}

impl View for Scale {
    type V = ScaleView;

    closed spec fn view(&self) -> ScaleView {
        ScaleView {
            root: self.root,
            scale_type: self.scale_type,
            intervals: self.intervals@,
            notes: self.notes@,
        }
    }
}

/// The semitone steps of each scale type, from one degree to the next.
pub open spec fn scale_pattern(scale_type: ScaleType) -> Seq<i8> {
    match scale_type {
        ScaleType::Major => seq![2i8, 2, 1, 2, 2, 2, 1],
        ScaleType::NaturalMinor => seq![2i8, 1, 2, 2, 1, 2, 2],
        ScaleType::HarmonicMinor => seq![2i8, 1, 2, 2, 1, 3, 1],
        ScaleType::MelodicMinor => seq![2i8, 1, 2, 2, 2, 2, 1],
        ScaleType::Dorian => seq![2i8, 1, 2, 2, 2, 1, 2],
        ScaleType::Phrygian => seq![1i8, 2, 2, 2, 1, 2, 2],
        ScaleType::Lydian => seq![2i8, 2, 2, 1, 2, 2, 1],
        ScaleType::Mixolydian => seq![2i8, 2, 1, 2, 2, 1, 2],
        ScaleType::Locrian => seq![1i8, 2, 2, 1, 2, 2, 2],
        ScaleType::PentatonicMajor => seq![2i8, 2, 3, 2, 3],
        ScaleType::PentatonicMinor => seq![3i8, 2, 2, 3, 2],
        ScaleType::Blues => seq![3i8, 2, 1, 1, 3, 2],
        ScaleType::WholeTone => seq![2i8, 2, 2, 2, 2, 2],
        ScaleType::Octatonic => seq![2i8, 1, 2, 1, 2, 1, 2, 1],
        ScaleType::Chromatic => seq![1i8, 1, 1, 1, 1, 1, 1, 1, 1, 1, 1, 1],
        ScaleType::BebopDominant => seq![2i8, 2, 1, 2, 2, 1, 1, 2],
        ScaleType::Hijaz => seq![1i8, 3, 1, 2, 1, 3, 1],
        ScaleType::Hirajoshi => seq![2i8, 1, 4, 1, 4],
        ScaleType::InSen => seq![1i8, 4, 2, 3, 2],
        ScaleType::Custom(pattern) => pattern@,
    }
}

/// The intervals of a run of semitone counts, or the error of the first
/// count that classifies to none.
pub open spec fn spec_parse_intervals(semitones: Seq<i8>) -> Result<Seq<Interval>, MusicError>
    decreases semitones.len(),
{
    if semitones.len() == 0 {
        Ok(Seq::empty())
    } else {
        match spec_parse_intervals(semitones.drop_last()) {
            Ok(front) => match spec_from_semitones(semitones.last()) {
                Ok(i) => Ok(front.push(i)),
                Err(e) => Err(e),
            },
            Err(e) => Err(e),
        }
    }
}

/// The pitch after the first `k` steps from the root, each step added to
/// the pitch before it.
pub open spec fn walk(root: Tuning, steps: Seq<Interval>, k: nat) -> Result<Tuning, MusicError>
    decreases k,
{
    if k == 0 {
        Ok(root)
    } else {
        match walk(root, steps, (k - 1) as nat) {
            Ok(t) => t.spec_add_interval(steps[k - 1]),
            Err(e) => Err(e),
        }
    }
}

/// A pitch `octaves` octaves higher.
pub open spec fn raised(t: Tuning, octaves: int) -> Tuning {
    Tuning { class: t.class, octave: (t.octave + octaves) as i8, freq: t.freq }
}

/// The `j`-th pitch of a scale whose first octave holds `n` pitches: the
/// pitch after `j` modulo `n` steps, raised by one octave for each full
/// pass through the `n`.
pub open spec fn note_at(root: Tuning, steps: Seq<Interval>, n: int, j: int) -> Tuning {
    raised(walk(root, steps, (j % n) as nat)->Ok_0, j / n)
}

/// The pitches of a scale: the root and the pitch after each step, then
/// the same pitches one octave higher, and so on up to `octaves` octaves
/// higher. An octave outside `i8` anywhere makes the whole an invalid pitch.
pub open spec fn spec_generate_notes(root: Tuning, steps: Seq<Interval>, octaves: nat) -> Result<
    Seq<Tuning>,
    MusicError,
> {
    let n = steps.len() + 1;
    if exists|k: nat| k < n && (#[trigger] walk(root, steps, k)) is Err {
        Err(MusicError::InvalidPitch)
    } else if exists|k: nat| k < n && (#[trigger] walk(root, steps, k))->Ok_0.octave + octaves > i8::MAX {
        Err(MusicError::InvalidPitch)
    } else {
        Ok(Seq::new(n * (octaves + 1), |j: int| note_at(root, steps, n as int, j)))
    }
}

/// What `Scale::new` returns.
pub open spec fn spec_scale(root: Tuning, scale_type: ScaleType) -> Result<ScaleView, MusicError> {
    match spec_parse_intervals(scale_pattern(scale_type)) {
        Ok(intervals) => match spec_generate_notes(root, intervals, SCALE_OCTAVES as nat) {
            Ok(notes) => Ok(ScaleView { root, scale_type, intervals, notes }),
            Err(e) => Err(e),
        },
        Err(e) => Err(e),
    }
}

impl ScaleView {
    /// The pitch of a degree: the degree counts from 1 and wraps around at
    /// the length of the interval pattern. Degree 0 is none, and a scale
    /// without intervals has no degrees.
    pub open spec fn degree(self, degree: u8) -> Result<Tuning, MusicError> {
        if degree < 1 || self.intervals.len() == 0 {
            Err(MusicError::InvalidScaleDegree(degree))
        } else {
            Ok(self.notes[(degree - 1) % (self.intervals.len() as int)])
        }
    }

    /// Whether some pitch of the scale has the class, in whatever octave.
    pub open spec fn contains(self, tuning: Tuning) -> bool {
        exists|i: int| 0 <= i < self.notes.len() && (#[trigger] self.notes[i]).class == tuning.class
    }
}

/// Converts semitone counts to intervals, stopping at the first that
/// classifies to none.
pub fn parse_intervals(semitones: &[i8]) -> (r: Result<Vec<Interval>, MusicError>)
    ensures
        match spec_parse_intervals(semitones@) {
            Ok(s) => r matches Ok(v) && v@ == s,
            Err(e) => r == Err::<Vec<Interval>, MusicError>(e),
        },
{
    let mut out: Vec<Interval> = Vec::new();
    let mut i: usize = 0;
    while i < semitones.len()
        invariant
            i <= semitones@.len(),
            spec_parse_intervals(semitones@.subrange(0, i as int)) == Ok::<
                Seq<Interval>,
                MusicError,
            >(out@),
        decreases semitones@.len() - i,
    {
        let ghost before = semitones@.subrange(0, i as int);
        let ghost after = semitones@.subrange(0, i + 1);
        assert(after.drop_last() =~= before);
        assert(after.last() == semitones@[i as int]);
        match Interval::from_semitones(semitones[i]) {
            Ok(interval) => {
                out.push(interval);
            },
            Err(e) => {
                proof {
                    lemma_parse_error_stays(semitones@, i + 1);
                }
                return Err(e);
            },
        }
        i = i + 1;
    }
    assert(semitones@.subrange(0, i as int) =~= semitones@);
    Ok(out)
}

/// An error among the first `k` counts is the error of the whole run.
proof fn lemma_parse_error_stays(semitones: Seq<i8>, k: int)
    requires
        0 <= k <= semitones.len(),
        spec_parse_intervals(semitones.subrange(0, k)) is Err,
    ensures
        spec_parse_intervals(semitones) == spec_parse_intervals(semitones.subrange(0, k)),
    decreases semitones.len() - k,
{
    if k == semitones.len() {
        assert(semitones.subrange(0, k) =~= semitones);
    } else {
        let longer = semitones.subrange(0, k + 1);
        assert(longer.drop_last() =~= semitones.subrange(0, k));
        lemma_parse_error_stays(semitones, k + 1);
    }
}

/// The steps of a named scale type.
fn named_pattern(scale_type: ScaleType) -> (r: Vec<i8>)
    requires
        !(scale_type is Custom),
    ensures
        r@ == scale_pattern(scale_type),
{
    let r: Vec<i8> = match scale_type {
        ScaleType::Major => vec![2i8, 2, 1, 2, 2, 2, 1],
        ScaleType::NaturalMinor => vec![2i8, 1, 2, 2, 1, 2, 2],
        ScaleType::HarmonicMinor => vec![2i8, 1, 2, 2, 1, 3, 1],
        ScaleType::MelodicMinor => vec![2i8, 1, 2, 2, 2, 2, 1],
        ScaleType::Dorian => vec![2i8, 1, 2, 2, 2, 1, 2],
        ScaleType::Phrygian => vec![1i8, 2, 2, 2, 1, 2, 2],
        ScaleType::Lydian => vec![2i8, 2, 2, 1, 2, 2, 1],
        ScaleType::Mixolydian => vec![2i8, 2, 1, 2, 2, 1, 2],
        ScaleType::Locrian => vec![1i8, 2, 2, 1, 2, 2, 2],
        ScaleType::PentatonicMajor => vec![2i8, 2, 3, 2, 3],
        ScaleType::PentatonicMinor => vec![3i8, 2, 2, 3, 2],
        ScaleType::Blues => vec![3i8, 2, 1, 1, 3, 2],
        ScaleType::WholeTone => vec![2i8, 2, 2, 2, 2, 2],
        ScaleType::Octatonic => vec![2i8, 1, 2, 1, 2, 1, 2, 1],
        ScaleType::Chromatic => vec![1i8, 1, 1, 1, 1, 1, 1, 1, 1, 1, 1, 1],
        ScaleType::BebopDominant => vec![2i8, 2, 1, 2, 2, 1, 1, 2],
        ScaleType::Hijaz => vec![1i8, 3, 1, 2, 1, 3, 1],
        ScaleType::Hirajoshi => vec![2i8, 1, 4, 1, 4],
        _ => vec![1i8, 4, 2, 3, 2],
    };
    assert(r@ =~= scale_pattern(scale_type));
    r
}

impl Scale {
    #[verifier::type_invariant]
    spec fn notes_cover_pattern(self) -> bool {
        self.notes@.len() > self.intervals@.len()
    }

    /// The scale of a type on a root, with its pitches over the first
    /// octave and the three above it.
    pub fn new(root: Tuning, scale_type: ScaleType) -> (r: Result<Scale, MusicError>)
        requires
            (scale_pattern(scale_type).len() + 1) * 4 <= usize::MAX,
        ensures
            match spec_scale(root, scale_type) {
                Ok(view) => r matches Ok(s) && s@ == view,
                Err(e) => r == Err::<Scale, MusicError>(e),
            },
    {
        let intervals = Scale::get_intervals(scale_type)?;
        proof {
            lemma_parsed_length(scale_pattern(scale_type));
        }
        let notes = Scale::generate_notes(&root, intervals.as_slice(), SCALE_OCTAVES)?;
        Ok(Scale { root, scale_type, intervals, notes })
    }

    /// The root and the pitch after each step.
    fn first_octave(root: &Tuning, intervals: &[Interval]) -> (r: Result<Vec<Tuning>, MusicError>)
        requires
            intervals@.len() < usize::MAX,
        ensures
            match r {
                Ok(v) => v@.len() == intervals@.len() + 1 && forall|k: nat|
                    k <= intervals@.len() ==> #[trigger] walk(*root, intervals@, k) == Ok::<
                        Tuning,
                        MusicError,
                    >(v@[k as int]),
                Err(e) => e == MusicError::InvalidPitch && exists|k: nat|
                    k <= intervals@.len() && (#[trigger] walk(*root, intervals@, k)) is Err,
            },
    {
        let steps = intervals.len();
        let mut current = *root;
        let mut notes: Vec<Tuning> = Vec::new();
        notes.push(current);
        let mut i: usize = 0;
        while i < steps
            invariant
                steps == intervals@.len(),
                i <= steps,
                notes@.len() == i + 1,
                walk(*root, intervals@, i as nat) == Ok::<Tuning, MusicError>(current),
                forall|k: nat|
                    k <= i ==> #[trigger] walk(*root, intervals@, k) == Ok::<Tuning, MusicError>(
                        notes@[k as int],
                    ),
            decreases steps - i,
        {
            match current.add_interval(&intervals[i]) {
                Ok(t) => {
                    current = t;
                },
                Err(_) => {
                    assert(walk(*root, intervals@, (i + 1) as nat) is Err);
                    return Err(MusicError::InvalidPitch);
                },
            }
            notes.push(current);
            i = i + 1;
        }
        Ok(notes)
    }

    /// The pitches of a scale, as `spec_generate_notes` says.
    #[verifier::rlimit(40)]
    fn generate_notes(root: &Tuning, intervals: &[Interval], octaves: u8) -> (r: Result<
        Vec<Tuning>,
        MusicError,
    >)
        requires
            (intervals@.len() + 1) * (octaves + 1) <= usize::MAX,
        ensures
            match spec_generate_notes(*root, intervals@, octaves as nat) {
                Ok(s) => r matches Ok(v) && v@ == s,
                Err(e) => r == Err::<Vec<Tuning>, MusicError>(e),
            },
    {
        let steps = intervals.len();
        assert(steps + 1 <= usize::MAX) by (nonlinear_arith)
            requires
                (steps + 1) * (octaves + 1) <= usize::MAX,
        ;
        let n: usize = steps + 1;
        let mut notes = match Scale::first_octave(root, intervals) {
            Ok(v) => v,
            Err(e) => {
                return Err(e);
            },
        };
        proof {
            assert forall|j: int| 0 <= j < n implies #[trigger] notes@[j] == note_at(
                *root,
                intervals@,
                n as int,
                j,
            ) by {
                lemma_note_at(*root, intervals@, n as int, 0, j);
            }
        }
        let mut octave: u8 = 0;
        while octave < octaves
            invariant
                steps == intervals@.len(),
                n == steps + 1,
                octave <= octaves,
                n * (octaves + 1) <= usize::MAX,
                notes@.len() == n * (octave + 1),
                forall|k: nat| k < n ==> (#[trigger] walk(*root, intervals@, k)) is Ok,
                forall|k: nat|
                    k < n ==> (#[trigger] walk(*root, intervals@, k))->Ok_0.octave + octave
                        <= i8::MAX,
                forall|j: int|
                    0 <= j < notes@.len() ==> #[trigger] notes@[j] == note_at(
                        *root,
                        intervals@,
                        n as int,
                        j,
                    ),
            decreases octaves - octave,
        {
            let shift: i16 = octave as i16 + 1;
            let mut k: usize = 0;
            assert(n * (octave + 2) <= n * (octaves + 1)) by (nonlinear_arith)
                requires
                    octave + 2 <= octaves + 1,
                    n >= 0,
            ;
            assert(n * (octave + 1) + n == n * (octave + 2)) by (nonlinear_arith);
            assert(n * (octave + 1) >= n) by (nonlinear_arith)
                requires
                    n >= 0,
                    octave >= 0,
            ;
            let ghost filled = n * (octave + 1);
            while k < n
                invariant
                    steps == intervals@.len(),
                    n == steps + 1,
                    k <= n,
                    octave < octaves,
                    shift == octave + 1,
                    filled == n * (octave + 1),
                    filled >= n,
                    filled + n <= usize::MAX,
                    notes@.len() == filled + k,
                    forall|q: nat| q < n ==> (#[trigger] walk(*root, intervals@, q)) is Ok,
                    forall|q: nat|
                        q < k ==> (#[trigger] walk(*root, intervals@, q))->Ok_0.octave + shift
                            <= i8::MAX,
                    forall|j: int|
                        0 <= j < notes@.len() ==> #[trigger] notes@[j] == note_at(
                            *root,
                            intervals@,
                            n as int,
                            j,
                        ),
                decreases n - k,
            {
                let base = notes[k];
                proof {
                    lemma_note_at(*root, intervals@, n as int, 0, k as int);
                }
                let lifted: i16 = base.octave as i16 + shift;
                if lifted > 127 {
                    assert(walk(*root, intervals@, k as nat)->Ok_0.octave + octaves > i8::MAX);
                    return Err(MusicError::InvalidPitch);
                }
                let note = Tuning { class: base.class, octave: lifted as i8, freq: base.freq };
                proof {
                    lemma_note_at(*root, intervals@, n as int, octave + 1, k as int);
                }
                notes.push(note);
                k = k + 1;
            }
            octave = octave + 1;
            assert(n * (octave + 1) == filled + n) by (nonlinear_arith)
                requires
                    filled == n * octave,
            ;
        }
        Ok(notes)
    }

    /// Whether a pitch belongs to the scale, whatever its octave.
    pub fn contains(&self, tuning: &Tuning) -> (r: bool)
        ensures
            r == self@.contains(*tuning),
    {
        let mut i: usize = 0;
        while i < self.notes.len()
            invariant
                i <= self.notes@.len(),
                forall|k: int| 0 <= k < i ==> (#[trigger] self.notes@[k]).class != tuning.class,
            decreases self.notes@.len() - i,
        {
            if self.notes[i].class == tuning.class {
                return true;
            }
            i = i + 1;
        }
        false
    }

    /// The pitch of a scale degree, counted from 1 and wrapping around at
    /// the length of the interval pattern: five for a pentatonic scale.
    pub fn degree(&self, degree: u8) -> (r: Result<Tuning, MusicError>)
        ensures
            r == self@.degree(degree),
    {
        proof {
            use_type_invariant(self);
        }
        if degree < 1 || self.intervals.len() == 0 {
            return Err(MusicError::InvalidScaleDegree(degree));
        }
        let idx = (degree - 1) as usize % self.intervals.len();
        Ok(self.notes[idx])
    }

    /// The standard interval pattern of a scale type, as intervals.
    fn get_intervals(scale_type: ScaleType) -> (r: Result<Vec<Interval>, MusicError>)
        ensures
            match spec_parse_intervals(scale_pattern(scale_type)) {
                Ok(s) => r matches Ok(v) && v@ == s,
                Err(e) => r == Err::<Vec<Interval>, MusicError>(e),
            },
    {
        match scale_type {
            ScaleType::Custom(pattern) => parse_intervals(pattern),
            _ => {
                let pattern = named_pattern(scale_type);
                parse_intervals(pattern.as_slice())
            },
        }
    }

    pub fn root(&self) -> (r: Tuning)
        ensures
            r == self@.root,
    {
        self.root
    }

    /// The intervals from each degree to the next.
    pub fn intervals(&self) -> (r: &[Interval])
        ensures
            r@ == self@.intervals,
    {
        self.intervals.as_slice()
    }

    /// The generated pitches, octave after octave.
    pub fn notes(&self) -> (r: &[Tuning])
        ensures
            r@ == self@.notes,
    {
        self.notes.as_slice()
    }

    pub fn scale_type(&self) -> (r: ScaleType)
        ensures
            r == self@.scale_type,
    {
        self.scale_type
    }
}

impl Clone for Scale {
    fn clone(&self) -> (r: Scale)
        ensures
            r@ == self@,
    {
        proof {
            use_type_invariant(self);
        }
        Scale {
            root: self.root,
            scale_type: self.scale_type,
            intervals: copy_vec(&self.intervals),
            notes: copy_vec(&self.notes),
        }
    }
}

impl Tuning {
    /// The scale of a type on this pitch.
    pub fn scale(&self, scale_type: ScaleType) -> (r: Result<Scale, MusicError>)
        requires
            (scale_pattern(scale_type).len() + 1) * 4 <= usize::MAX,
        ensures
            match spec_scale(*self, scale_type) {
                Ok(view) => r matches Ok(s) && s@ == view,
                Err(e) => r == Err::<Scale, MusicError>(e),
            },
    {
        Scale::new(*self, scale_type)
    }
}

/// The pitch at place `k` of pass `o` through the `n` pitches of the first
/// octave is the `k`-th of them, `o` octaves higher.
proof fn lemma_note_at(root: Tuning, steps: Seq<Interval>, n: int, o: int, k: int)
    requires
        0 <= k < n,
        0 <= o,
    ensures
        note_at(root, steps, n, n * o + k) == raised(walk(root, steps, k as nat)->Ok_0, o),
        o == 0 ==> note_at(root, steps, n, k) == walk(root, steps, k as nat)->Ok_0,
{
    assert(n * o + k == o * n + k) by (nonlinear_arith);
    lemma_fundamental_div_mod_converse(n * o + k, n, o, k);
}

/// A run of semitone counts that classifies has one interval per count.
pub proof fn lemma_parsed_length(semitones: Seq<i8>)
    ensures
        spec_parse_intervals(semitones) matches Ok(s) ==> s.len() == semitones.len(),
    decreases semitones.len(),
{
    if semitones.len() > 0 {
        lemma_parsed_length(semitones.drop_last());
    }
}

/// Degrees that differ by a multiple of the pattern's length name the same
/// pitch.
pub proof fn lemma_degree_wraps(scale: ScaleView, degree: u8, k: nat)
    requires
        1 <= degree,
        degree + k * scale.intervals.len() <= u8::MAX,
    ensures
        scale.degree((degree + k * scale.intervals.len()) as u8) matches Ok(t) ==> scale.degree(degree)
            == Ok::<Tuning, MusicError>(t),
        scale.intervals.len() > 0 ==> scale.degree((degree + k * scale.intervals.len()) as u8)
            == scale.degree(degree),
{
    let n = scale.intervals.len() as int;
    if n > 0 {
        lemma_mod_multiples_vanish(k as int, degree - 1, n);
        assert(k * n + (degree - 1) == degree + k * scale.intervals.len() - 1) by (nonlinear_arith)
            requires
                n == scale.intervals.len(),
        ;
    }
}

} // verus!
