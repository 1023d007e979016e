use simple_compose::duration_utils::{arpeggiate, fill_measure, generate_one_measure};
use simple_compose::{Duration, DurationBase, MusicError, Note, PitchClass, Ratio, Tuning, Tuplet};

fn value(r: Ratio) -> f32 {
    r.num() as f32 / r.den() as f32
}

fn quarters(d: &Duration) -> f32 {
    value(d.in_quarters().unwrap())
}

fn whole(d: &Duration) -> f32 {
    value(d.in_whole().unwrap())
}

fn sum_duration(ds: &Vec<Duration>) -> f64 {
    ds.iter().fold(0.0f64, |acc, x| {
        let q = x.in_quarters().unwrap();
        acc + q.num() as f64 / q.den() as f64
    })
}

fn do_a_measure_test(beat: u8) {
    let ds = generate_one_measure(beat);
    assert_eq!(sum_duration(&ds), beat as f64);
}

#[test]
fn basic_duration() {
    let q = Duration::new(DurationBase::Quarter);
    assert_eq!(quarters(&q), 1.0);
}

#[test]
fn dotted_note() {
    let d = Duration::new(DurationBase::Quarter).dotted(1);
    assert_eq!(quarters(&d), 1.0 * 1.5);
    assert_eq!(
        quarters(&d),
        quarters(&Duration::from_quarters(d.in_quarters().unwrap()))
    );

    let d = Duration::new(DurationBase::Half);
    assert_eq!(whole(&d), 0.5);
    assert_eq!(whole(&Duration::from_whole(Ratio::new(1, 2).unwrap())), 0.5);
}

#[test]
fn triplet() {
    let triplet = Tuplet::new(3, 2, DurationBase::Quarter).unwrap();
    let note = Duration::new(DurationBase::Quarter).with_tuplet(triplet);

    // The triple note takes up 2/3 of a quarter note.
    assert_eq!(quarters(&note), 2.0 / 3.0);
    assert_eq!(note.in_quarters().unwrap(), Ratio::new(2, 3).unwrap());
}

#[test]
fn complex_case() {
    // Dotted eighth note + quintuplet note
    let tuplet = Tuplet::new(5, 4, DurationBase::Eighth).unwrap();
    let note = Duration::new(DurationBase::Eighth).dotted(1).with_tuplet(tuplet);

    // Basic note value: 0.5 (quaver) + 0.25 (dotted) = 0.75
    // Applied tuplet ratio: 4/5
    assert_eq!(quarters(&note), 0.75 * (4.0 / 5.0));
    assert_eq!(note.in_quarters().unwrap(), Ratio::new(3, 5).unwrap());
}

#[test]
fn test_duration_1() {
    assert_eq!(
        whole(&Duration::new(DurationBase::Whole)) + whole(&Duration::new(DurationBase::Half)),
        1.5
    );
    assert_eq!(whole(&Duration::new(DurationBase::Half)), 0.5);
    assert_eq!(Duration::from_whole(Ratio::new(1, 2).unwrap()).base(), DurationBase::Half);
}

#[test]
fn test_measure_1() {
    for i in 1..16 {
        for _ in 0..8 {
            do_a_measure_test(i);
        }
    }
}

#[test]
fn generated_measures_fill_every_beat_count() {
    for beat in 0u8..=16 {
        for _ in 0..50 {
            let ds = generate_one_measure(beat);
            let mut ticks: u64 = 0;
            for d in &ds {
                assert_eq!(d.tuplet(), None);
                let q = d.in_quarters().unwrap();
                assert_eq!((q.num() * 128) % q.den(), 0);
                ticks += q.num() * 128 / q.den();
            }
            assert_eq!(ticks, beat as u64 * 128);
        }
    }
    let long = generate_one_measure(255);
    assert_eq!(sum_duration(&long), 255.0);
}

#[test]
fn generated_measures_vary() {
    let mut lengths = std::collections::BTreeSet::new();
    for _ in 0..200 {
        lengths.insert(generate_one_measure(8).len());
    }
    assert!(lengths.len() > 1);
}

#[test]
fn a_measure_is_filled_from_given_draws() {
    let draws = vec![DurationBase::Half, DurationBase::Quarter, DurationBase::Whole, DurationBase::Quarter];
    let filled = fill_measure(4, &draws);
    // Half and quarter fit; the whole note would overshoot the one quarter
    // that is left, which a corrective quarter note fills.
    assert_eq!(
        filled,
        vec![
            Duration::new(DurationBase::Half),
            Duration::new(DurationBase::Quarter),
            Duration::new(DurationBase::Quarter),
        ]
    );
    let filled = fill_measure(7, &vec![DurationBase::Whole, DurationBase::Whole]);
    assert_eq!(
        filled,
        vec![Duration::new(DurationBase::Whole), Duration::new(DurationBase::Half).dotted(1)]
    );
    assert_eq!(fill_measure(0, &draws), vec![]);
    assert_eq!(fill_measure(2, &vec![]), vec![Duration::new(DurationBase::Half)]);
    assert_eq!(
        fill_measure(1, &vec![DurationBase::Eighth, DurationBase::Eighth, DurationBase::Half]),
        vec![Duration::new(DurationBase::Eighth), Duration::new(DurationBase::Eighth)]
    );
}

#[test]
fn base_values_in_quarters_and_whole_notes() {
    let table: [(DurationBase, u64); 10] = [
        (DurationBase::Maxima, 512),
        (DurationBase::Longa, 256),
        (DurationBase::Breve, 128),
        (DurationBase::Whole, 64),
        (DurationBase::Half, 32),
        (DurationBase::Quarter, 16),
        (DurationBase::Eighth, 8),
        (DurationBase::Sixteenth, 4),
        (DurationBase::ThirtySecond, 2),
        (DurationBase::SixtyFourth, 1),
    ];
    for (base, sixteenths) in table {
        assert_eq!(base.sixteenths(), sixteenths);
        assert_eq!(value(base.in_quarters()), sixteenths as f32 / 16.0);
        assert_eq!(value(base.in_whole()), sixteenths as f32 / 64.0);
        assert_eq!(DurationBase::from_quarters(base.in_quarters()), Ok(base));
        assert_eq!(DurationBase::from_whole(base.in_whole()), Ok(base));
        assert_eq!(
            DurationBase::from_quarters(Ratio::new(sixteenths * 3, 48).unwrap()),
            Ok(base)
        );
    }
    assert_eq!(value(DurationBase::Maxima.in_quarters()), 32.0);
    assert_eq!(value(DurationBase::SixtyFourth.in_quarters()), 0.0625);
    assert_eq!(value(DurationBase::Maxima.in_whole()), 8.0);
}

#[test]
fn lengths_that_are_no_base_value() {
    let three = Ratio::new(3, 1).unwrap();
    match DurationBase::from_quarters(three) {
        Err(MusicError::InvalidDuration(v)) => {
            assert_eq!((v.num(), v.den()), (3, 1));
        }
        other => panic!("{:?}", other),
    }
    assert!(matches!(
        DurationBase::from_whole(Ratio::new(3, 4).unwrap()),
        Err(MusicError::InvalidDuration(_))
    ));
    assert!(matches!(
        DurationBase::from_quarters(Ratio::new(0, 1).unwrap()),
        Err(MusicError::InvalidDuration(_))
    ));
    assert!(matches!(
        DurationBase::from_quarters(Ratio::new(64, 1).unwrap()),
        Err(MusicError::InvalidDuration(_))
    ));
}

#[test]
fn tuplet_ratios() {
    assert_eq!(
        Tuplet::new(0, 2, DurationBase::Quarter),
        Err(MusicError::InvalidTupletRatio { actual: 0, base: 2 })
    );
    assert_eq!(
        Tuplet::new(3, 0, DurationBase::Quarter),
        Err(MusicError::InvalidTupletRatio { actual: 3, base: 0 })
    );
    assert_eq!(
        Tuplet::new(0, 0, DurationBase::Quarter),
        Err(MusicError::InvalidTupletRatio { actual: 0, base: 0 })
    );
    assert_eq!(Tuplet::new(2, 3, DurationBase::Quarter), Err(MusicError::UnsupportedTuplet));
    assert_eq!(Tuplet::new(4, 4, DurationBase::Quarter), Err(MusicError::UnsupportedTuplet));
    for (actual, base) in [(3u8, 2u8), (5, 4), (6, 4), (7, 4), (255, 1)] {
        let t = Tuplet::new(actual, base, DurationBase::Eighth).unwrap();
        assert_eq!(t.actual_notes(), actual);
        assert_eq!(t.base_notes(), base);
        assert_eq!(t.base_duration(), DurationBase::Eighth);
        assert_eq!(t.ratio(), Ratio::new(base as u64, actual as u64).unwrap());
    }
    let triplet = Tuplet::new(3, 2, DurationBase::Quarter).unwrap();
    assert_eq!((triplet.ratio().num(), triplet.ratio().den()), (2, 3));
}

#[test]
fn tuplet_of_another_base_is_a_typed_error() {
    let triplet = Tuplet::new(3, 2, DurationBase::Quarter).unwrap();
    let note = Duration::new(DurationBase::Eighth).with_tuplet(triplet);
    assert_eq!(note.in_quarters(), Err(MusicError::TupletDurationMismatch));
    assert_eq!(note.in_whole(), Err(MusicError::TupletDurationMismatch));
    assert_eq!(note.in_seconds(120), Err(MusicError::TupletDurationMismatch));
}

#[test]
fn dots_add_halves_and_stop_at_three() {
    let half = Duration::new(DurationBase::Half);
    assert_eq!(quarters(&half.dotted(0)), 2.0);
    assert_eq!(quarters(&half.dotted(1)), 3.0);
    assert_eq!(quarters(&half.dotted(2)), 3.5);
    assert_eq!(quarters(&half.dotted(3)), 3.75);
    assert_eq!(half.dotted(4).dots(), 3);
    assert_eq!(half.dotted(255).dots(), 3);
    assert_eq!(quarters(&half.dotted(200)), 3.75);
    let shortest = Duration::new(DurationBase::SixtyFourth).dotted(3);
    let q = shortest.in_quarters().unwrap();
    assert_eq!((q.num(), q.den()), (15, 128));
    let longest = Duration::new(DurationBase::Maxima).dotted(3);
    assert_eq!(quarters(&longest), 60.0);
}

#[test]
fn exact_parts_of_a_length() {
    let tuplet = Tuplet::new(5, 4, DurationBase::Eighth).unwrap();
    let note = Duration::new(DurationBase::Eighth).dotted(1).with_tuplet(tuplet);
    let q = note.in_quarters().unwrap();
    assert_eq!((q.num(), q.den()), (8 * 3 * 4, 16 * 2 * 5));
    let w = note.in_whole().unwrap();
    assert_eq!((w.num(), w.den()), (8 * 3 * 4, 16 * 2 * 5 * 4));
    let s = note.in_seconds(90).unwrap();
    assert_eq!((s.num(), s.den()), (60 * 8 * 3 * 4, 90 * 16 * 2 * 5));
    assert_eq!(value(Duration::new(DurationBase::Quarter).in_seconds(120).unwrap()), 0.5);
    assert_eq!(value(Duration::new(DurationBase::Whole).in_seconds(60).unwrap()), 4.0);
}

#[test]
fn from_quarters_reads_every_plain_note_back() {
    let bases = [
        DurationBase::Maxima,
        DurationBase::Longa,
        DurationBase::Breve,
        DurationBase::Whole,
        DurationBase::Half,
        DurationBase::Quarter,
        DurationBase::Eighth,
        DurationBase::Sixteenth,
        DurationBase::ThirtySecond,
        DurationBase::SixtyFourth,
    ];
    for base in bases {
        for dots in 0u8..=3 {
            let d = Duration::new(base).dotted(dots);
            assert_eq!(Duration::from_quarters(d.in_quarters().unwrap()), d);
            assert_eq!(Duration::from_whole(d.in_whole().unwrap()), d);
        }
    }
}

#[test]
fn from_quarters_approximates_other_lengths() {
    // 1.25 lies between a quarter note and a dotted one: one dot is appended
    // and the result is longer than the input.
    let d = Duration::from_quarters(Ratio::new(5, 4).unwrap());
    assert_eq!(d, Duration::new(DurationBase::Quarter).dotted(1));
    // 2/3 has no exact note value: the eighth note below it, with dots.
    let d = Duration::from_quarters(Ratio::new(2, 3).unwrap());
    assert_eq!(d, Duration::new(DurationBase::Eighth).dotted(1));
    // Below the shortest base the answer is a quarter note.
    let d = Duration::from_quarters(Ratio::new(1, 100).unwrap());
    assert_eq!(d, Duration::new(DurationBase::Quarter));
    let d = Duration::from_quarters(Ratio::new(0, 1).unwrap());
    assert_eq!(d, Duration::new(DurationBase::Quarter));
    // Above the longest base with three dots the answer stops there.
    let d = Duration::from_quarters(Ratio::new(1000, 1).unwrap());
    assert_eq!(d, Duration::new(DurationBase::Maxima).dotted(3));
    let d = Duration::from_quarters(Ratio::new(u64::MAX, 1).unwrap());
    assert_eq!(d, Duration::new(DurationBase::Maxima).dotted(3));
    let d = Duration::from_quarters(Ratio::new(1, u64::MAX).unwrap());
    assert_eq!(d, Duration::new(DurationBase::Quarter));
    let d = Duration::from_quarters(Ratio::new(5, 1).unwrap());
    assert_eq!(d, Duration::new(DurationBase::Whole).dotted(1));
}

#[test]
fn ratios_compare_by_value() {
    assert_eq!(Ratio::new(1, 0), None);
    let half = Ratio::new(1, 2).unwrap();
    let two_quarters = Ratio::new(2, 4).unwrap();
    assert_eq!(half, two_quarters);
    assert_ne!(half, Ratio::new(2, 3).unwrap());
    assert!(half.less_than(&Ratio::new(2, 3).unwrap()));
    assert!(!half.less_than(&two_quarters));
    assert!(!Ratio::new(2, 3).unwrap().less_than(&half));
    assert_eq!(Ratio::from_integer(7), Ratio::new(14, 2).unwrap());
    assert_eq!((Ratio::from_integer(7).num(), Ratio::from_integer(7).den()), (7, 1));
    let big = Ratio::new(u64::MAX, u64::MAX).unwrap();
    assert_eq!(big, Ratio::from_integer(1));
    assert!(Ratio::new(u64::MAX - 1, u64::MAX).unwrap().less_than(&big));
}

#[test]
fn tones_are_played_in_turn() {
    let tones = vec![Tuning::new(PitchClass::C, 4), Tuning::new(PitchClass::E, 4)];
    let values = vec![
        Duration::new(DurationBase::Quarter),
        Duration::new(DurationBase::Half),
        Duration::new(DurationBase::Eighth),
    ];
    assert_eq!(
        arpeggiate(&tones, &values, 90),
        vec![
            Note::new(PitchClass::C, 4).with_velocity(90),
            Note::new(PitchClass::E, 4).with_duration(values[1]).with_velocity(90),
            Note::new(PitchClass::C, 4).with_duration(values[2]).with_velocity(90),
        ]
    );
    assert_eq!(arpeggiate(&vec![], &values, 90), vec![]);
    assert_eq!(arpeggiate(&tones, &vec![], 90), vec![]);
}
