use simple_compose::PitchClass::{
    ASharpOrBFlat, CSharpOrDFlat, DSharpOrEFlat, FSharpOrGFlat, GSharpOrAFlat, A, B, C, D, E, F, G,
};
use simple_compose::{parse_intervals, Interval, MusicError, PitchClass, Scale, ScaleType, Tuning};

fn first_octave(scale_type: ScaleType, steps: usize) -> Vec<PitchClass> {
    let scale = Tuning::new(PitchClass::C, 4).scale(scale_type).unwrap();
    (1..=steps as u8).map(|d| scale.degree(d).unwrap().class).collect()
}

#[test]
fn c_major_degrees() {
    let scale = Scale::new(Tuning::new(PitchClass::C, 4), ScaleType::Major).unwrap();
    let expected = [
        PitchClass::C,
        PitchClass::D,
        PitchClass::E,
        PitchClass::F,
        PitchClass::G,
        PitchClass::A,
        PitchClass::B,
    ];
    for (i, class) in expected.iter().enumerate() {
        let t = scale.degree(i as u8 + 1).unwrap();
        assert_eq!((t.class, t.octave), (*class, 4));
    }
    assert_eq!(scale.degree(8).unwrap(), scale.degree(1).unwrap());
    assert_eq!(scale.root(), Tuning::new(PitchClass::C, 4));
    assert_eq!(scale.scale_type(), ScaleType::Major);
}

#[test]
fn pentatonic_degrees_wrap_at_five() {
    let scale = Tuning::new(PitchClass::C, 4).scale(ScaleType::PentatonicMajor).unwrap();
    let classes: Vec<PitchClass> = (1..=5).map(|d| scale.degree(d).unwrap().class).collect();
    assert_eq!(
        classes,
        vec![PitchClass::C, PitchClass::D, PitchClass::E, PitchClass::G, PitchClass::A]
    );
    assert_eq!(scale.degree(6).unwrap(), scale.degree(1).unwrap());
    assert_eq!(scale.degree(7).unwrap(), scale.degree(2).unwrap());
    assert_eq!(scale.degree(11).unwrap(), scale.degree(1).unwrap());
    for d in 1u8..=250 {
        assert_eq!(scale.degree(d + 5).unwrap(), scale.degree(d).unwrap());
        assert_eq!(scale.degree(d).unwrap(), scale.degree(d).unwrap());
    }
}

#[test]
fn degree_zero_is_refused() {
    let scale = Tuning::new(PitchClass::C, 4).scale(ScaleType::Major).unwrap();
    assert_eq!(scale.degree(0), Err(MusicError::InvalidScaleDegree(0)));
    static EMPTY: [i8; 0] = [];
    let bare = Scale::new(Tuning::new(PitchClass::C, 4), ScaleType::Custom(&EMPTY)).unwrap();
    assert_eq!(bare.degree(1), Err(MusicError::InvalidScaleDegree(1)));
    assert!(bare.contains(&Tuning::new(PitchClass::C, 0)));
    assert!(!bare.contains(&Tuning::new(PitchClass::D, 4)));
}

#[test]
fn membership_ignores_the_octave() {
    let scale = Tuning::new(PitchClass::D, 3).scale(ScaleType::Major).unwrap();
    for class in [
        PitchClass::D,
        PitchClass::E,
        PitchClass::FSharpOrGFlat,
        PitchClass::G,
        PitchClass::A,
        PitchClass::B,
        PitchClass::CSharpOrDFlat,
    ] {
        assert!(scale.contains(&Tuning::new(class, -5)));
        assert!(scale.contains(&Tuning::new(class, 9)));
    }
    for class in [
        PitchClass::C,
        PitchClass::DSharpOrEFlat,
        PitchClass::F,
        PitchClass::GSharpOrAFlat,
        PitchClass::ASharpOrBFlat,
        PitchClass::Silent,
    ] {
        assert!(!scale.contains(&Tuning::new(class, 3)));
    }
}

#[test]
fn patterns_of_the_named_scales() {
    assert_eq!(first_octave(ScaleType::NaturalMinor, 7), vec![C, D, DSharpOrEFlat, F, G, GSharpOrAFlat, ASharpOrBFlat]);
    assert_eq!(first_octave(ScaleType::HarmonicMinor, 7), vec![C, D, DSharpOrEFlat, F, G, GSharpOrAFlat, B]);
    assert_eq!(first_octave(ScaleType::MelodicMinor, 7), vec![C, D, DSharpOrEFlat, F, G, A, B]);
    assert_eq!(first_octave(ScaleType::Dorian, 7), vec![C, D, DSharpOrEFlat, F, G, A, ASharpOrBFlat]);
    assert_eq!(first_octave(ScaleType::Phrygian, 7), vec![C, CSharpOrDFlat, DSharpOrEFlat, F, G, GSharpOrAFlat, ASharpOrBFlat]);
    assert_eq!(first_octave(ScaleType::Lydian, 7), vec![C, D, E, FSharpOrGFlat, G, A, B]);
    assert_eq!(first_octave(ScaleType::Mixolydian, 7), vec![C, D, E, F, G, A, ASharpOrBFlat]);
    assert_eq!(first_octave(ScaleType::Locrian, 7), vec![C, CSharpOrDFlat, DSharpOrEFlat, F, FSharpOrGFlat, GSharpOrAFlat, ASharpOrBFlat]);
    assert_eq!(first_octave(ScaleType::PentatonicMinor, 5), vec![C, DSharpOrEFlat, F, G, ASharpOrBFlat]);
    assert_eq!(first_octave(ScaleType::Blues, 6), vec![C, DSharpOrEFlat, F, FSharpOrGFlat, G, ASharpOrBFlat]);
    assert_eq!(first_octave(ScaleType::WholeTone, 6), vec![C, D, E, FSharpOrGFlat, GSharpOrAFlat, ASharpOrBFlat]);
    assert_eq!(first_octave(ScaleType::Octatonic, 8), vec![C, D, DSharpOrEFlat, F, FSharpOrGFlat, GSharpOrAFlat, A, B]);
    assert_eq!(
        first_octave(ScaleType::Chromatic, 12),
        vec![C, CSharpOrDFlat, D, DSharpOrEFlat, E, F, FSharpOrGFlat, G, GSharpOrAFlat, A, ASharpOrBFlat, B]
    );
    assert_eq!(first_octave(ScaleType::BebopDominant, 8), vec![C, D, E, F, G, A, ASharpOrBFlat, B]);
    assert_eq!(first_octave(ScaleType::Hijaz, 7), vec![C, CSharpOrDFlat, E, F, G, GSharpOrAFlat, B]);
    assert_eq!(first_octave(ScaleType::Hirajoshi, 5), vec![C, D, DSharpOrEFlat, G, GSharpOrAFlat]);
    assert_eq!(first_octave(ScaleType::InSen, 5), vec![C, CSharpOrDFlat, F, G, ASharpOrBFlat]);
}

#[test]
fn custom_patterns() {
    static STEPS: [i8; 3] = [4, 3, 5];
    let scale = Scale::new(Tuning::new(PitchClass::A, 3), ScaleType::Custom(&STEPS)).unwrap();
    let got: Vec<(PitchClass, i8)> =
        (1..=3).map(|d| scale.degree(d).unwrap()).map(|t| (t.class, t.octave)).collect();
    assert_eq!(got, vec![(PitchClass::A, 3), (PitchClass::CSharpOrDFlat, 4), (PitchClass::E, 4)]);
    assert_eq!(scale.degree(4).unwrap(), scale.degree(1).unwrap());
    static WIDE: [i8; 2] = [2, 30];
    assert_eq!(
        Scale::new(Tuning::new(PitchClass::A, 3), ScaleType::Custom(&WIDE)),
        Err(MusicError::InvalidIntervalDegree { degree: 18 })
    );
}

#[test]
fn scales_too_high_are_invalid_pitches() {
    // The cached pitches span three octaves above the first.
    assert!(Scale::new(Tuning::new(PitchClass::C, 123), ScaleType::Major).is_ok());
    assert_eq!(
        Scale::new(Tuning::new(PitchClass::C, 124), ScaleType::Major),
        Err(MusicError::InvalidPitch)
    );
    assert_eq!(
        Scale::new(Tuning::new(PitchClass::D, 124), ScaleType::Major),
        Err(MusicError::InvalidPitch)
    );
}

#[test]
fn scale_generation_is_repeatable() {
    let a = Scale::new(Tuning::new(PitchClass::E, 2), ScaleType::Blues).unwrap();
    let b = Scale::new(Tuning::new(PitchClass::E, 2), ScaleType::Blues).unwrap();
    assert_eq!(a, b);
    assert_eq!(a.clone(), b);
}

#[test]
fn semitone_runs_become_intervals() {
    let parsed = parse_intervals(&[2, 2, 1]).unwrap();
    assert_eq!(
        parsed,
        vec![
            Interval::from_semitones(2).unwrap(),
            Interval::from_semitones(2).unwrap(),
            Interval::from_semitones(1).unwrap(),
        ]
    );
    assert_eq!(parse_intervals(&[]), Ok(vec![]));
    assert_eq!(
        parse_intervals(&[2, 40, 100]),
        Err(MusicError::InvalidIntervalDegree { degree: 24 })
    );
}

#[test]
fn pitches_span_four_octaves() {
    let scale = Scale::new(Tuning::new(PitchClass::A, 3).with_freq(220_000), ScaleType::PentatonicMinor).unwrap();
    assert_eq!(scale.intervals().len(), 5);
    assert_eq!(scale.intervals()[0], Interval::from_semitones(3).unwrap());
    let notes = scale.notes();
    // Six pitches to the octave, the last of them the octave of the root.
    assert_eq!(notes.len(), 24);
    let first: Vec<(PitchClass, i8)> = notes[..6].iter().map(|t| (t.class, t.octave)).collect();
    assert_eq!(first, vec![(A, 3), (C, 4), (D, 4), (E, 4), (G, 4), (A, 4)]);
    for pass in 0..4 {
        for k in 0..6 {
            let note = notes[pass * 6 + k];
            assert_eq!(note.class, notes[k].class);
            assert_eq!(note.octave, notes[k].octave + pass as i8);
            assert_eq!(note.freq, notes[k].freq);
        }
    }
    assert_eq!(notes[0].freq, Some(220_000));
    assert_eq!(notes[6].freq, Some(220_000));
    assert_eq!(notes[1].freq, None);
}
