use simple_compose::{
    Chord, ChordQuality, ChordType, Interval, IntervalQuality, Inversion, MusicError, PitchClass,
    SeventhQuality, Tuning, Voicing,
};

fn classes(chord: &Chord) -> Vec<PitchClass> {
    chord.components().unwrap().iter().map(|c| c.class).collect()
}

fn pitches(chord: &Chord) -> Vec<(PitchClass, i8)> {
    chord.components().unwrap().iter().map(|c| (c.class, c.octave)).collect()
}

#[test]
fn test_breakdown() {
    let pitch_class = PitchClass::C;
    let chord = pitch_class.common_chord(1, 4).unwrap();
    assert_eq!(chord.quality(), ChordQuality::Major);
    let notes = chord.components().unwrap();
    assert_eq!(notes.len(), 3);
    assert_eq!(notes[0].class, PitchClass::C);
    assert_eq!(notes[0].octave, 4);
    assert_eq!(notes[1].class, PitchClass::E);
    assert_eq!(notes[1].octave, 4);
    assert_eq!(notes[2].class, PitchClass::G);
    assert_eq!(notes[2].octave, 4);

    let chord = pitch_class.common_chord(2, 4).unwrap();
    assert_eq!(chord.quality(), ChordQuality::Minor);
    let notes = chord.components().unwrap();
    assert_eq!(notes.len(), 3);
    assert_eq!(notes[0].class, PitchClass::D);
    assert_eq!(notes[0].octave, 4);
    assert_eq!(notes[1].class, PitchClass::F);
    assert_eq!(notes[1].octave, 4);
    assert_eq!(notes[2].class, PitchClass::A);
    assert_eq!(notes[2].octave, 4);

    let chord = pitch_class.common_chord(6, 2).unwrap();
    assert_eq!(chord.quality(), ChordQuality::Minor);
}

#[test]
fn test_breakdown_2() {
    let pitch_class = PitchClass::CSharpOrDFlat;
    let chord = pitch_class.common_chord(1, 4).unwrap();
    let notes = chord.components().unwrap();

    assert_eq!(
        chord,
        Chord::triad(Tuning::new(PitchClass::CSharpOrDFlat, 4), ChordQuality::Major).unwrap()
    );
    assert_eq!(notes.len(), 3);
    assert_eq!(notes[0].class, PitchClass::CSharpOrDFlat);
    assert_eq!(notes[0].octave, 4);
    assert_eq!(notes[1].class, PitchClass::F);
    assert_eq!(notes[1].octave, 4);
    assert_eq!(notes[2].class, PitchClass::GSharpOrAFlat);
    assert_eq!(notes[2].octave, 4);
}

#[test]
fn common_chords_of_c_major() {
    let c = PitchClass::C;
    assert_eq!(classes(&c.common_chord(1, 4).unwrap()), vec![PitchClass::C, PitchClass::E, PitchClass::G]);
    assert_eq!(classes(&c.common_chord(2, 4).unwrap()), vec![PitchClass::D, PitchClass::F, PitchClass::A]);
    assert_eq!(classes(&c.common_chord(3, 4).unwrap()), vec![PitchClass::E, PitchClass::G, PitchClass::B]);
    assert_eq!(classes(&c.common_chord(4, 4).unwrap()), vec![PitchClass::F, PitchClass::A, PitchClass::C]);
    assert_eq!(classes(&c.common_chord(5, 4).unwrap()), vec![PitchClass::G, PitchClass::B, PitchClass::D]);
    assert_eq!(classes(&c.common_chord(6, 2).unwrap()), vec![PitchClass::A, PitchClass::C, PitchClass::E]);
    let d = PitchClass::D;
    assert_eq!(
        classes(&d.common_chord(1, 4).unwrap()),
        vec![PitchClass::D, PitchClass::FSharpOrGFlat, PitchClass::A]
    );
    assert_eq!(classes(&d.common_chord(2, 4).unwrap()), vec![PitchClass::E, PitchClass::G, PitchClass::B]);
    assert_eq!(classes(&d.common_chord(4, 4).unwrap()), vec![PitchClass::G, PitchClass::B, PitchClass::D]);
}

#[test]
fn common_chord_refuses_other_degrees() {
    assert_eq!(PitchClass::C.common_chord(0, 4), Err(MusicError::InvalidScaleDegree(0)));
    assert_eq!(PitchClass::C.common_chord(7, 4), Err(MusicError::InvalidScaleDegree(7)));
    assert_eq!(PitchClass::C.common_chord(255, 4), Err(MusicError::InvalidScaleDegree(255)));
    assert_eq!(PitchClass::B.common_chord(6, 127), Err(MusicError::InvalidPitch));
}

#[test]
fn major_triad_on_c4() {
    let c4 = Tuning::new(PitchClass::C, 4);
    let chord = Chord::triad(c4, ChordQuality::Major).unwrap();
    assert_eq!(
        chord.components().unwrap(),
        vec![c4, Tuning::new(PitchClass::E, 4), Tuning::new(PitchClass::G, 4)]
    );
    assert_eq!(chord.chord_type(), ChordType::Triad);
    assert_eq!(chord.quality(), ChordQuality::Major);
    assert_eq!(chord.inversion(), Inversion::RootPosition);
    assert_eq!(chord.voicing(), Voicing::ClosePosition);
    assert_eq!(chord.root(), c4);
}

#[test]
fn dominant_seventh_on_g4() {
    let g4 = Tuning::new(PitchClass::G, 4);
    let chord = Chord::seventh(g4, SeventhQuality::Dominant7).unwrap();
    assert_eq!(
        chord.components().unwrap(),
        vec![
            g4,
            Tuning::new(PitchClass::B, 4),
            Tuning::new(PitchClass::D, 5),
            Tuning::new(PitchClass::F, 5),
        ]
    );
    assert_eq!(chord.chord_type(), ChordType::Seventh);
    assert_eq!(chord.quality(), ChordQuality::Major);
}

#[test]
fn triads_of_every_quality() {
    let c4 = Tuning::new(PitchClass::C, 4);
    assert_eq!(
        classes(&Chord::triad(c4, ChordQuality::Minor).unwrap()),
        vec![PitchClass::C, PitchClass::DSharpOrEFlat, PitchClass::G]
    );
    assert_eq!(
        classes(&Chord::triad(c4, ChordQuality::Diminished).unwrap()),
        vec![PitchClass::C, PitchClass::DSharpOrEFlat, PitchClass::FSharpOrGFlat]
    );
    assert_eq!(
        classes(&Chord::triad(c4, ChordQuality::Augmented).unwrap()),
        vec![PitchClass::C, PitchClass::E, PitchClass::GSharpOrAFlat]
    );
}

#[test]
fn sevenths_of_every_kind() {
    let c4 = Tuning::new(PitchClass::C, 4);
    let table = [
        (SeventhQuality::Major7, ChordQuality::Major, PitchClass::B),
        (SeventhQuality::Dominant7, ChordQuality::Major, PitchClass::ASharpOrBFlat),
        (SeventhQuality::Minor7, ChordQuality::Minor, PitchClass::ASharpOrBFlat),
        (SeventhQuality::MinorMajor7, ChordQuality::Minor, PitchClass::B),
        (SeventhQuality::HalfDiminished, ChordQuality::Diminished, PitchClass::ASharpOrBFlat),
        (SeventhQuality::FullyDiminished, ChordQuality::Diminished, PitchClass::ASharpOrBFlat),
    ];
    for (kind, base, seventh) in table {
        assert_eq!(kind.base_quality(), base);
        let chord = Chord::seventh(c4, kind).unwrap();
        let tones = classes(&chord);
        assert_eq!(tones.len(), 4);
        assert_eq!(tones[..3], classes(&Chord::triad(c4, base).unwrap())[..]);
        assert_eq!(tones[3], seventh);
    }
}

#[test]
fn close_position_keeps_tones_within_an_octave_of_the_root() {
    let c4 = Tuning::new(PitchClass::C, 4);
    let chord = Chord::triad(c4, ChordQuality::Major)
        .unwrap()
        .with_extension(Interval::from_semitones(14).unwrap())
        .with_extension(Interval::from_semitones(-1).unwrap());
    // The ninth lies in octave 5, which is within one octave above the
    // root's: it stays. One 26 semitones up would lie in octave 6.
    assert_eq!(
        pitches(&chord),
        vec![
            (PitchClass::C, 4),
            (PitchClass::E, 4),
            (PitchClass::G, 4),
            (PitchClass::D, 5),
            (PitchClass::B, 3),
        ]
    );
    let high = Interval {
        quality: IntervalQuality::Major,
        degree: simple_compose::IntervalDegree(9),
        semitones: 26,
        is_descending: false,
    };
    let chord = Chord::triad(c4, ChordQuality::Major).unwrap().with_extension(high);
    assert_eq!(
        pitches(&chord),
        vec![(PitchClass::C, 4), (PitchClass::E, 4), (PitchClass::G, 4), (PitchClass::D, 5)]
    );
}

#[test]
fn open_position_raises_every_second_tone() {
    let g4 = Tuning::new(PitchClass::G, 4);
    let mut chord = Chord::seventh(g4, SeventhQuality::Dominant7).unwrap();
    chord.revoice(Voicing::OpenPosition);
    assert_eq!(chord.voicing(), Voicing::OpenPosition);
    assert_eq!(
        pitches(&chord),
        vec![(PitchClass::G, 4), (PitchClass::B, 4), (PitchClass::D, 6), (PitchClass::F, 5)]
    );
    // The voicing changes octaves only.
    let mut close = Chord::seventh(g4, SeventhQuality::Dominant7).unwrap();
    close.revoice(Voicing::ClosePosition);
    assert_eq!(classes(&chord), classes(&close));
}

#[test]
fn voicings_without_layout_are_refused() {
    let c4 = Tuning::new(PitchClass::C, 4);
    for voicing in [Voicing::Drop2, Voicing::Drop3, Voicing::Cluster] {
        let mut chord = Chord::triad(c4, ChordQuality::Major).unwrap();
        chord.revoice(voicing);
        assert_eq!(chord.components(), Err(MusicError::UnsupportedChord));
    }
}

#[test]
fn tones_outside_the_octaves_are_invalid_pitches() {
    let top = Tuning::new(PitchClass::B, 127);
    let chord = Chord::triad(top, ChordQuality::Major).unwrap();
    assert_eq!(chord.components(), Err(MusicError::InvalidPitch));
    let mut open = Chord::seventh(Tuning::new(PitchClass::C, 127), SeventhQuality::Major7).unwrap();
    assert!(open.components().is_ok());
    open.revoice(Voicing::OpenPosition);
    assert_eq!(open.components(), Err(MusicError::InvalidPitch));
}

#[test]
fn inversion_state_is_kept_and_copies_are_equal() {
    let c4 = Tuning::new(PitchClass::C, 4);
    let mut chord = Chord::triad(c4, ChordQuality::Minor).unwrap();
    chord.invert(Inversion::Second);
    assert_eq!(chord.inversion(), Inversion::Second);
    let copy = chord.clone();
    assert_eq!(copy, chord);
    assert_eq!(copy.components(), chord.components());
    assert_ne!(chord, Chord::triad(c4, ChordQuality::Minor).unwrap());
}

#[test]
fn a_silent_root_gives_silent_tones() {
    let rest = Tuning::new(PitchClass::Silent, 4);
    let chord = Chord::triad(rest, ChordQuality::Major).unwrap();
    assert_eq!(classes(&chord), vec![PitchClass::Silent; 3]);
}

#[test]
fn the_root_keeps_its_frequency() {
    let a4 = Tuning::new(PitchClass::A, 4).with_freq(442_000);
    let chord = Chord::triad(a4, ChordQuality::Major).unwrap();
    let tones = chord.components().unwrap();
    assert_eq!(tones[0].freq, Some(442_000));
    assert_eq!(tones[1].freq, None);
}
