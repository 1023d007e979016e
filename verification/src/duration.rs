//! Note values: a power-of-two base length, up to three dots, and an optional
//! tuplet, with their exact length in quarter notes.

use vstd::prelude::*;
use crate::errors::MusicError;
use crate::ratio::{cross_product, Ratio};

verus! {

/// The ten base note values, each half as long as the one before.
#[derive(Debug, Clone, Copy, PartialEq, Eq, Structural)]
pub enum DurationBase {
    /// 32 quarter notes.
    Maxima,
    /// 16 quarter notes.
    Longa,
    /// 8 quarter notes.
    Breve,
    /// 4 quarter notes.
    Whole,
    /// 2 quarter notes.
    Half,
    /// 1 quarter note.
    Quarter,
    /// 1/2 quarter note.
    Eighth,
    /// 1/4 quarter note.
    Sixteenth,
    /// 1/8 quarter note.
    ThirtySecond,
    /// 1/16 quarter note.
    SixtyFourth,
}

/// A grouping that plays `actual_notes` notes in the time of `base_notes`
/// notes of `base_duration`. It always has `0 < base_notes < actual_notes`.
#[derive(Debug, Clone, Copy, PartialEq, Eq, Structural)]
pub struct Tuplet {
    actual_notes: u8,
    base_notes: u8,
    base_duration: DurationBase,
}

/// A note value. It never has more than three dots.
#[derive(Debug, Clone, Copy, PartialEq, Eq, Structural)]
pub struct Duration {
    base: DurationBase,
    dots: u8,
    tuplet: Option<Tuplet>,
}

/// Numerator of the factor by which `dots` dots lengthen a note:
/// `1 + 1/2 + ... + 1/2^dots` over `dot_denominator(dots)`.
pub open spec fn dot_numerator(dots: nat) -> nat {
    if dots == 0 {
        1
    } else if dots == 1 {
        3
    } else if dots == 2 {
        7
    } else {
        15
    }
}

/// `2^dots`, for at most three dots.
pub open spec fn dot_denominator(dots: nat) -> nat {
    if dots == 0 {
        1
    } else if dots == 1 {
        2
    } else if dots == 2 {
        4
    } else {
        8
    }
}

/// The dot factor in eighths: `8 · dot_numerator / dot_denominator`.
pub open spec fn dot_eighths(dots: nat) -> nat {
    if dots == 0 {
        8
    } else if dots == 1 {
        12
    } else if dots == 2 {
        14
    } else {
        15
    }
}

impl DurationBase {
    /// Length in sixteenths of a quarter note.
    pub open spec fn spec_sixteenths(self) -> nat {
        match self {
            DurationBase::Maxima => 512,
            DurationBase::Longa => 256,
            DurationBase::Breve => 128,
            DurationBase::Whole => 64,
            DurationBase::Half => 32,
            DurationBase::Quarter => 16,
            DurationBase::Eighth => 8,
            DurationBase::Sixteenth => 4,
            DurationBase::ThirtySecond => 2,
            DurationBase::SixtyFourth => 1,
        }
    }

    /// Whether this base is exactly `num / den` long, in a unit of `scale`
    /// sixteenths of a quarter note: 16 for quarter notes, 64 for whole notes.
    pub open spec fn measures(self, num: nat, den: nat, scale: nat) -> bool {
        num * scale == self.spec_sixteenths() * den
    }

    pub fn sixteenths(&self) -> (r: u64)
        ensures
            r == self.spec_sixteenths(),
    {
        match self {
            DurationBase::Maxima => 512,
            DurationBase::Longa => 256,
            DurationBase::Breve => 128,
            DurationBase::Whole => 64,
            DurationBase::Half => 32,
            DurationBase::Quarter => 16,
            DurationBase::Eighth => 8,
            DurationBase::Sixteenth => 4,
            DurationBase::ThirtySecond => 2,
            DurationBase::SixtyFourth => 1,
        }
    }

    /// Length in quarter notes: `sixteenths / 16`.
    pub fn in_quarters(&self) -> (r: Ratio)
        ensures
            r.spec_num() == self.spec_sixteenths(),
            r.spec_den() == 16,
    {
        Ratio::new(self.sixteenths(), 16).unwrap()
    }

    /// Length in whole notes: `sixteenths / 64`.
    pub fn in_whole(&self) -> (r: Ratio)
        ensures
            r.spec_num() == self.spec_sixteenths(),
            r.spec_den() == 64,
    {
        Ratio::new(self.sixteenths(), 64).unwrap()
    }

    /// The base that is exactly `value` quarter notes long.
    pub fn from_quarters(value: Ratio) -> (r: Result<DurationBase, MusicError>)
        ensures
            forall|b: DurationBase|
                r == Ok::<DurationBase, MusicError>(b) <==> #[trigger] b.measures(
                    value.spec_num(),
                    value.spec_den(),
                    16,
                ),
            r is Err ==> r == Err::<DurationBase, MusicError>(MusicError::InvalidDuration(value)),
    {
        base_of_length(value, 16)
    }

    /// The base that is exactly `value` whole notes long.
    pub fn from_whole(value: Ratio) -> (r: Result<DurationBase, MusicError>)
        ensures
            forall|b: DurationBase|
                r == Ok::<DurationBase, MusicError>(b) <==> #[trigger] b.measures(
                    value.spec_num(),
                    value.spec_den(),
                    64,
                ),
            r is Err ==> r == Err::<DurationBase, MusicError>(MusicError::InvalidDuration(value)),
    {
        base_of_length(value, 64)
    }
}

/// The bases from the longest to the shortest.
pub open spec fn bases_descending() -> Seq<DurationBase> {
    seq![
        DurationBase::Maxima,
        DurationBase::Longa,
        DurationBase::Breve,
        DurationBase::Whole,
        DurationBase::Half,
        DurationBase::Quarter,
        DurationBase::Eighth,
        DurationBase::Sixteenth,
        DurationBase::ThirtySecond,
        DurationBase::SixtyFourth,
    ]
}

/// The `i`-th longest base.
fn base_at(i: usize) -> (r: DurationBase)
    requires
        i < 10,
    ensures
        r == bases_descending()[i as int],
{
    if i == 0 {
        DurationBase::Maxima
    } else if i == 1 {
        DurationBase::Longa
    } else if i == 2 {
        DurationBase::Breve
    } else if i == 3 {
        DurationBase::Whole
    } else if i == 4 {
        DurationBase::Half
    } else if i == 5 {
        DurationBase::Quarter
    } else if i == 6 {
        DurationBase::Eighth
    } else if i == 7 {
        DurationBase::Sixteenth
    } else if i == 8 {
        DurationBase::ThirtySecond
    } else {
        DurationBase::SixtyFourth
    }
}

/// Every base stands in the descending list, at the place its length gives.
proof fn lemma_bases_listed(b: DurationBase)
    ensures
        exists|i: int| 0 <= i < 10 && bases_descending()[i] == b,
{
    let i: int = match b {
        DurationBase::Maxima => 0,
        DurationBase::Longa => 1,
        DurationBase::Breve => 2,
        DurationBase::Whole => 3,
        DurationBase::Half => 4,
        DurationBase::Quarter => 5,
        DurationBase::Eighth => 6,
        DurationBase::Sixteenth => 7,
        DurationBase::ThirtySecond => 8,
        DurationBase::SixtyFourth => 9,
    };
    assert(bases_descending()[i] == b);
}

/// The base whose length is exactly `value`, in a unit of `scale` sixteenths
/// of a quarter note.
fn base_of_length(value: Ratio, scale: u64) -> (r: Result<DurationBase, MusicError>)
    requires
        scale == 16 || scale == 64,
    ensures
        forall|b: DurationBase|
            r == Ok::<DurationBase, MusicError>(b) <==> #[trigger] b.measures(
                value.spec_num(),
                value.spec_den(),
                scale as nat,
            ),
        r is Err ==> r == Err::<DurationBase, MusicError>(MusicError::InvalidDuration(value)),
{
    let den = value.den();
    let left: u128 = cross_product(value.num(), scale);
    let mut i: usize = 0;
    while i < 10
        invariant
            i <= 10,
            den == value.spec_den(),
            den > 0,
            left == value.spec_num() * scale,
            forall|k: int|
                0 <= k < i ==> !(#[trigger] bases_descending()[k]).measures(
                    value.spec_num(),
                    value.spec_den(),
                    scale as nat,
                ),
        decreases 10 - i,
    {
        let b = base_at(i);
        let right: u128 = cross_product(b.sixteenths(), den);
        if left == right {
            assert forall|c: DurationBase|
                Ok::<DurationBase, MusicError>(b) == Ok::<DurationBase, MusicError>(c)
                    <==> #[trigger] c.measures(
                    value.spec_num(),
                    value.spec_den(),
                    scale as nat,
                ) by {
                if c.measures(value.spec_num(), value.spec_den(), scale as nat) {
                    assert(c.spec_sixteenths() == b.spec_sixteenths()) by (nonlinear_arith)
                        requires
                            c.spec_sixteenths() * den == b.spec_sixteenths() * den,
                            den > 0,
                    ;
                }
            }
            return Ok(b);
        }
        i = i + 1;
    }
    assert forall|c: DurationBase|
        !#[trigger] c.measures(value.spec_num(), value.spec_den(), scale as nat) by {
        lemma_bases_listed(c);
    }
    Err(MusicError::InvalidDuration(value))
}

impl Tuplet {
    #[verifier::type_invariant]
    spec fn compresses(self) -> bool {
        0 < self.base_notes < self.actual_notes
    }

    pub closed spec fn spec_actual_notes(self) -> nat {
        self.actual_notes as nat
    }

    pub closed spec fn spec_base_notes(self) -> nat {
        self.base_notes as nat
    }

    pub closed spec fn spec_base_duration(self) -> DurationBase {
        self.base_duration
    }

    /// A tuplet of `actual` notes in the time of `base` notes of `duration`.
    /// A zero count is an invalid ratio; a ratio that does not put more
    /// notes into the time of fewer is unsupported (3:2, 5:4 and 6:4 are
    /// among the supported ones).
    pub fn new(actual: u8, base: u8, duration: DurationBase) -> (r: Result<Tuplet, MusicError>)
        ensures
            (actual == 0 || base == 0) ==> r == Err::<Tuplet, MusicError>(
                MusicError::InvalidTupletRatio { actual, base },
            ),
            (actual != 0 && base != 0 && actual <= base) ==> r == Err::<Tuplet, MusicError>(
                MusicError::UnsupportedTuplet,
            ),
            0 < base < actual ==> (r matches Ok(t) && t.spec_actual_notes() == actual
                && t.spec_base_notes() == base && t.spec_base_duration() == duration),
    {
        if actual == 0 || base == 0 {
            return Err(MusicError::InvalidTupletRatio { actual, base });
        }
        if !(actual > base) {
            return Err(MusicError::UnsupportedTuplet);
        }
        Ok(Tuplet { actual_notes: actual, base_notes: base, base_duration: duration })
    }

    pub fn actual_notes(&self) -> (r: u8)
        ensures
            r == self.spec_actual_notes(),
            r > self.spec_base_notes(),
    {
        proof {
            use_type_invariant(self);
        }
        self.actual_notes
    }

    pub fn base_notes(&self) -> (r: u8)
        ensures
            r == self.spec_base_notes(),
            0 < r < self.spec_actual_notes(),
    {
        proof {
            use_type_invariant(self);
        }
        self.base_notes
    }

    pub fn base_duration(&self) -> (r: DurationBase)
        ensures
            r == self.spec_base_duration(),
    {
        self.base_duration
    }

    /// The factor by which the tuplet scales a note: `base_notes /
    /// actual_notes`, so 2/3 for a triplet.
    pub fn ratio(&self) -> (r: Ratio)
        ensures
            r.spec_num() == self.spec_base_notes(),
            r.spec_den() == self.spec_actual_notes(),
    {
        proof {
            use_type_invariant(self);
        }
        Ratio::new(self.base_notes as u64, self.actual_notes as u64).unwrap()
    }
}

impl Duration {
    #[verifier::type_invariant]
    spec fn few_dots(self) -> bool {
        self.dots <= 3
    }

    pub closed spec fn spec_base(self) -> DurationBase {
        self.base
    }

    pub closed spec fn spec_dots(self) -> nat {
        self.dots as nat
    }

    pub closed spec fn spec_tuplet(self) -> Option<Tuplet> {
        self.tuplet
    }

    /// Numerator of the tuplet factor, 1 without a tuplet.
    pub open spec fn tuplet_numerator(self) -> nat {
        match self.spec_tuplet() {
            Some(t) => t.spec_base_notes(),
            None => 1,
        }
    }

    /// Denominator of the tuplet factor, 1 without a tuplet.
    pub open spec fn tuplet_denominator(self) -> nat {
        match self.spec_tuplet() {
            Some(t) => t.spec_actual_notes(),
            None => 1,
        }
    }

    /// Whether a tuplet, if there is one, refers to the note's own base.
    pub open spec fn tuplet_matches(self) -> bool {
        match self.spec_tuplet() {
            Some(t) => t.spec_base_duration() == self.spec_base(),
            None => true,
        }
    }

    /// Numerator of the length in quarter notes:
    /// `base · (1 + 1/2 + ... + 1/2^dots) · base_notes / actual_notes`,
    /// written over `quarters_den`.
    pub open spec fn quarters_num(self) -> nat {
        self.spec_base().spec_sixteenths() * dot_numerator(self.spec_dots())
            * self.tuplet_numerator()
    }

    pub open spec fn quarters_den(self) -> nat {
        16 * dot_denominator(self.spec_dots()) * self.tuplet_denominator()
    }

    /// Length of a note without tuplet in 128ths of a quarter note.
    pub open spec fn plain_ticks(self) -> nat {
        self.spec_base().spec_sixteenths() * dot_eighths(self.spec_dots())
    }

    /// An undotted note of a base value.
    pub fn new(base: DurationBase) -> (r: Duration)
        ensures
            r.spec_base() == base,
            r.spec_dots() == 0,
            r.spec_tuplet() is None,
    {
        Duration { base, dots: 0, tuplet: None }
    }

    /// The same note with `dots` dots, at most three.
    pub fn dotted(self, dots: u8) -> (r: Duration)
        ensures
            r.spec_base() == self.spec_base(),
            r.spec_dots() == if dots <= 3 {
                dots as nat
            } else {
                3
            },
            r.spec_tuplet() == self.spec_tuplet(),
    {
        let dots = if dots <= 3 {
            dots
        } else {
            3
        };
        Duration { base: self.base, dots, tuplet: self.tuplet }
    }

    /// The same note inside a tuplet.
    pub fn with_tuplet(self, tuplet: Tuplet) -> (r: Duration)
        ensures
            r.spec_base() == self.spec_base(),
            r.spec_dots() == self.spec_dots(),
            r.spec_tuplet() == Some(tuplet),
    {
        proof {
            use_type_invariant(self);
        }
        Duration { base: self.base, dots: self.dots, tuplet: Some(tuplet) }
    }

    pub fn base(&self) -> (r: DurationBase)
        ensures
            r == self.spec_base(),
    {
        self.base
    }

    pub fn dots(&self) -> (r: u8)
        ensures
            r == self.spec_dots(),
            r <= 3,
    {
        proof {
            use_type_invariant(self);
        }
        self.dots
    }

    pub fn tuplet(&self) -> (r: Option<Tuplet>)
        ensures
            r == self.spec_tuplet(),
    {
        self.tuplet
    }

    /// The dot factor `(2^(dots+1) - 1) / 2^dots` as a pair.
    fn dot_factor(&self) -> (r: (u64, u64))
        ensures
            r.0 == dot_numerator(self.spec_dots()),
            r.1 == dot_denominator(self.spec_dots()),
    {
        let dots = self.dots();
        if dots == 0 {
            (1, 1)
        } else if dots == 1 {
            (3, 2)
        } else if dots == 2 {
            (7, 4)
        } else {
            (15, 8)
        }
    }

    /// The fraction `quarters_num / (quarters_den · extra)`, or the mismatch
    /// of the tuplet.
    fn length_over(&self, extra: u64) -> (r: Result<Ratio, MusicError>)
        requires
            extra == 1 || extra == 4,
        ensures
            !self.tuplet_matches() ==> r == Err::<Ratio, MusicError>(
                MusicError::TupletDurationMismatch,
            ),
            self.tuplet_matches() ==> (r matches Ok(q) && q.spec_num() == self.quarters_num()
                && q.spec_den() == self.quarters_den() * extra),
            r matches Ok(q) ==> q.spec_num() <= 7680 * 255 && 0 < q.spec_den() <= 512 * 255,
    {
        let (dot_num, dot_den) = self.dot_factor();
        let plain_num: u64 = self.base.sixteenths() * dot_num;
        let plain_den: u64 = 16 * dot_den * extra;
        let (num, den): (u64, u64) = match &self.tuplet {
            Some(t) => {
                if !same_base(t.base_duration(), self.base) {
                    return Err(MusicError::TupletDurationMismatch);
                }
                let bn = t.base_notes() as u64;
                let an = t.actual_notes() as u64;
                assert(plain_num * bn <= 7680 * 255) by (nonlinear_arith)
                    requires
                        plain_num <= 7680,
                        bn <= 255,
                ;
                assert(0 < plain_den * an <= 512 * 255) by (nonlinear_arith)
                    requires
                        0 < plain_den <= 512,
                        0 < an <= 255,
                ;
                (plain_num * bn, plain_den * an)
            },
            None => (plain_num, plain_den),
        };
        assert(self.quarters_den() * extra == 16 * dot_denominator(self.spec_dots()) * extra
            * self.tuplet_denominator()) by (nonlinear_arith);
        Ok(Ratio::new(num, den).unwrap())
    }

    /// The exact length in quarter notes. A tuplet that refers to another
    /// base than the note's own is reported, never aborted on.
    pub fn in_quarters(&self) -> (r: Result<Ratio, MusicError>)
        ensures
            !self.tuplet_matches() ==> r == Err::<Ratio, MusicError>(
                MusicError::TupletDurationMismatch,
            ),
            self.tuplet_matches() ==> (r matches Ok(q) && q.spec_num() == self.quarters_num()
                && q.spec_den() == self.quarters_den()),
            r matches Ok(q) ==> q.spec_num() <= 7680 * 255 && 0 < q.spec_den() <= 512 * 255,
    {
        self.length_over(1)
    }

    /// The exact length in whole notes, a quarter of that in quarter notes.
    pub fn in_whole(&self) -> (r: Result<Ratio, MusicError>)
        ensures
            !self.tuplet_matches() ==> r == Err::<Ratio, MusicError>(
                MusicError::TupletDurationMismatch,
            ),
            self.tuplet_matches() ==> (r matches Ok(q) && q.spec_num() == self.quarters_num()
                && q.spec_den() == self.quarters_den() * 4),
    {
        self.length_over(4)
    }

    /// The exact length in seconds at `tempo` quarter notes per minute:
    /// `60 / tempo` seconds for each quarter note.
    pub fn in_seconds(&self, tempo: u32) -> (r: Result<Ratio, MusicError>)
        requires
            tempo > 0,
        ensures
            !self.tuplet_matches() ==> r == Err::<Ratio, MusicError>(
                MusicError::TupletDurationMismatch,
            ),
            self.tuplet_matches() ==> (r matches Ok(q) && q.spec_num() == 60 * self.quarters_num()
                && q.spec_den() == tempo * self.quarters_den()),
    {
        match self.length_over(1) {
            Ok(q) => {
                let num = q.num();
                let den = q.den();
                assert(0 < tempo * den <= 0xffff_ffff * (512 * 255)) by (nonlinear_arith)
                    requires
                        0 < tempo <= 0xffff_ffff,
                        0 < den <= 512 * 255,
                ;
                Ok(Ratio::new(60 * num, tempo as u64 * den).unwrap())
            },
            Err(e) => Err(e),
        }
    }
}

/// Whether a base is no longer than `num / den`, in a unit of `scale`
/// sixteenths of a quarter note.
pub open spec fn base_fits(b: DurationBase, num: nat, den: nat, scale: nat) -> bool {
    b.spec_sixteenths() * den <= num * scale
}

/// The longest base that is no longer than `num / den`; a quarter note
/// where even the shortest base is longer.
pub open spec fn largest_base_within(num: nat, den: nat, scale: nat) -> DurationBase {
    if base_fits(DurationBase::Maxima, num, den, scale) {
        DurationBase::Maxima
    } else if base_fits(DurationBase::Longa, num, den, scale) {
        DurationBase::Longa
    } else if base_fits(DurationBase::Breve, num, den, scale) {
        DurationBase::Breve
    } else if base_fits(DurationBase::Whole, num, den, scale) {
        DurationBase::Whole
    } else if base_fits(DurationBase::Half, num, den, scale) {
        DurationBase::Half
    } else if base_fits(DurationBase::Quarter, num, den, scale) {
        DurationBase::Quarter
    } else if base_fits(DurationBase::Eighth, num, den, scale) {
        DurationBase::Eighth
    } else if base_fits(DurationBase::Sixteenth, num, den, scale) {
        DurationBase::Sixteenth
    } else if base_fits(DurationBase::ThirtySecond, num, den, scale) {
        DurationBase::ThirtySecond
    } else if base_fits(DurationBase::SixtyFourth, num, den, scale) {
        DurationBase::SixtyFourth
    } else {
        DurationBase::Quarter
    }
}

/// Whether `num / den` is no longer than base `b` with `dots` dots.
pub open spec fn reached_with_dots(
    b: DurationBase,
    dots: nat,
    num: nat,
    den: nat,
    scale: nat,
) -> bool {
    num * scale * dot_denominator(dots) <= b.spec_sixteenths() * den * dot_numerator(dots)
}

/// The fewest dots with which base `b` reaches `num / den`, three where
/// even three do not reach it.
pub open spec fn dots_needed(b: DurationBase, num: nat, den: nat, scale: nat) -> nat {
    if reached_with_dots(b, 0, num, den, scale) {
        0
    } else if reached_with_dots(b, 1, num, den, scale) {
        1
    } else if reached_with_dots(b, 2, num, den, scale) {
        2
    } else {
        3
    }
}

/// The longest base within `num / den`, in a unit of `scale` sixteenths of a
/// quarter note.
fn largest_base(num: u64, den: u64, scale: u64) -> (r: DurationBase)
    requires
        scale == 16 || scale == 64,
    ensures
        r == largest_base_within(num as nat, den as nat, scale as nat),
{
    let length: u128 = cross_product(num, scale);
    let mut i: usize = 0;
    while i < 10
        invariant
            i <= 10,
            length == num * scale,
            forall|k: int|
                0 <= k < i ==> !base_fits(
                    #[trigger] bases_descending()[k],
                    num as nat,
                    den as nat,
                    scale as nat,
                ),
        decreases 10 - i,
    {
        let b = base_at(i);
        if cross_product(b.sixteenths(), den) <= length {
            proof {
                lemma_largest_base_is_first_fit(num as nat, den as nat, scale as nat, i as int);
            }
            return b;
        }
        i = i + 1;
    }
    proof {
        lemma_largest_base_is_first_fit(num as nat, den as nat, scale as nat, 10);
    }
    DurationBase::Quarter
}

impl Duration {
    /// The note value nearest below or at `value`, in a unit of `scale`
    /// sixteenths of a quarter note.
    fn from_length(value: Ratio, scale: u64) -> (r: Duration)
        requires
            scale == 16 || scale == 64,
        ensures
            r.spec_base() == largest_base_within(value.spec_num(), value.spec_den(), scale as nat),
            r.spec_dots() == dots_needed(
                r.spec_base(),
                value.spec_num(),
                value.spec_den(),
                scale as nat,
            ),
            r.spec_tuplet() is None,
    {
        let den = value.den();
        let base = largest_base(value.num(), den, scale);
        let length: u128 = cross_product(value.num(), scale);
        let reach: u128 = cross_product(base.sixteenths(), den);
        assert(reach <= 512 * 0xffff_ffff_ffff_ffff) by (nonlinear_arith)
            requires
                reach == base.spec_sixteenths() * den,
                base.spec_sixteenths() <= 512,
                den <= 0xffff_ffff_ffff_ffff,
        ;
        assert(length <= 64 * 0xffff_ffff_ffff_ffff) by (nonlinear_arith)
            requires
                length == value.spec_num() * scale,
                scale <= 64,
                value.spec_num() <= 0xffff_ffff_ffff_ffff,
        ;
        let dots: u8 = if length <= reach {
            0
        } else if length * 2 <= reach * 3 {
            1
        } else if length * 4 <= reach * 7 {
            2
        } else {
            3
        };
        Duration { base, dots, tuplet: None }
    }

    /// The note value for a length in quarter notes, as far as one exists:
    /// the longest base that is not longer than `value` (a quarter note when
    /// there is none), with the fewest dots, at most three, that reach
    /// `value`. Exact for the lengths of undotted and dotted notes; for
    /// other lengths the result is the approximation that these rules give.
    pub fn from_quarters(value: Ratio) -> (r: Duration)
        ensures
            r.spec_base() == largest_base_within(value.spec_num(), value.spec_den(), 16),
            r.spec_dots() == dots_needed(r.spec_base(), value.spec_num(), value.spec_den(), 16),
            r.spec_tuplet() is None,
    {
        Duration::from_length(value, 16)
    }

    /// The note value for a length in whole notes, by the rules of
    /// `from_quarters`.
    pub fn from_whole(value: Ratio) -> (r: Duration)
        ensures
            r.spec_base() == largest_base_within(value.spec_num(), value.spec_den(), 64),
            r.spec_dots() == dots_needed(r.spec_base(), value.spec_num(), value.spec_den(), 64),
            r.spec_tuplet() is None,
    {
        Duration::from_length(value, 64)
    }
}

/// The longest base within a length is the first of the descending list
/// that fits, and a quarter note when none of the ten fits.
proof fn lemma_largest_base_is_first_fit(num: nat, den: nat, scale: nat, j: int)
    requires
        0 <= j <= 10,
        forall|k: int| 0 <= k < j ==> !base_fits(#[trigger] bases_descending()[k], num, den, scale),
        j < 10 ==> base_fits(bases_descending()[j], num, den, scale),
    ensures
        largest_base_within(num, den, scale) == if j < 10 {
            bases_descending()[j]
        } else {
            DurationBase::Quarter
        },
{
}

/// Reading a note's own length back gives the note: for every note without
/// a tuplet, `from_quarters` of its length in quarter notes has its base and
/// its dots.
pub proof fn lemma_from_quarters_inverts(d: Duration)
    requires
        d.spec_dots() <= 3,
        d.spec_tuplet() is None,
    ensures
        largest_base_within(d.quarters_num(), d.quarters_den(), 16) == d.spec_base(),
        dots_needed(d.spec_base(), d.quarters_num(), d.quarters_den(), 16) == d.spec_dots(),
{
    // With the dots known, the length is the base times a constant.
    let s = d.spec_base().spec_sixteenths();
    let num = d.quarters_num();
    let den = d.quarters_den();
    if d.spec_dots() == 0 {
        assert(num == s && den == 16);
    } else if d.spec_dots() == 1 {
        assert(num == s * 3 && den == 32);
    } else if d.spec_dots() == 2 {
        assert(num == s * 7 && den == 64);
    } else {
        assert(num == s * 15 && den == 128);
    }
}

/// The length of a note without tuplet is a whole number of 128ths of a
/// quarter note: `plain_ticks / 128` is its length in quarter notes.
pub proof fn lemma_plain_ticks_exact(d: Duration)
    requires
        d.spec_dots() <= 3,
        d.spec_tuplet() is None,
    ensures
        d.quarters_num() * 128 == d.plain_ticks() * d.quarters_den(),
{
    let s = d.spec_base().spec_sixteenths();
    let num = d.quarters_num();
    let den = d.quarters_den();
    let ticks = d.plain_ticks();
    if d.spec_dots() == 0 {
        assert(num * 128 == ticks * den) by (nonlinear_arith)
            requires
                num == s,
                den == 16,
                ticks == s * 8,
        ;
    } else if d.spec_dots() == 1 {
        assert(num * 128 == ticks * den) by (nonlinear_arith)
            requires
                num == s * 3,
                den == 32,
                ticks == s * 12,
        ;
    } else if d.spec_dots() == 2 {
        assert(num * 128 == ticks * den) by (nonlinear_arith)
            requires
                num == s * 7,
                den == 64,
                ticks == s * 14,
        ;
    } else {
        assert(num * 128 == ticks * den) by (nonlinear_arith)
            requires
                num == s * 15,
                den == 128,
                ticks == s * 15,
        ;
    }
}

/// Whether two bases are the same.
fn same_base(a: DurationBase, b: DurationBase) -> (r: bool)
    ensures
        r == (a == b),
{
    a.sixteenths() == b.sixteenths()
}

} // verus!
