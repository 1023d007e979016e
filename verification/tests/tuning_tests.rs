use simple_compose::{Interval, MusicError, PitchClass, Tuning};

#[test]
fn test_tuning() {
    let tuning = Tuning::new(PitchClass::C, 4);
    assert_eq!(tuning.class, PitchClass::C);
    assert_eq!(tuning.octave, 4);
    let midi = tuning.midi_number().unwrap();
    assert_eq!(midi, 60);
    assert_eq!(
        440.0 * 2f32.powf((midi as f32 - 69.0) / 12.0),
        440.0 * 2f32.powf((60.0 - 69.0) / 12.0)
    );
}

#[test]
fn tuning_test_modulation() {
    let pc = PitchClass::C;
    assert_eq!(pc.modulation(4), PitchClass::E);
    assert_eq!(pc.modulation(-3), PitchClass::A);
    assert_eq!(pc.modulation(12), PitchClass::C);
    assert_eq!(pc.modulation(-12), PitchClass::C);
    assert_eq!(pc.modulation(0), PitchClass::C);
    assert_eq!(PitchClass::Silent.modulation(1), PitchClass::Silent);
}

#[test]
fn test0_test_modulation() {
    assert_eq!(PitchClass::C.modulation(4), PitchClass::E);
    assert_eq!(PitchClass::C.modulation(-3), PitchClass::A);
    assert_eq!(PitchClass::C.modulation(12), PitchClass::C);
    assert_eq!(PitchClass::C.modulation(-12), PitchClass::C);
    assert_eq!(PitchClass::C.modulation(0), PitchClass::C);
    assert_eq!(PitchClass::Silent.modulation(1), PitchClass::Silent);
}

#[test]
fn test_interval() {
    let tuning = Tuning::new(PitchClass::C, 4);
    let new_tuning = tuning.add_interval(&Interval::from_semitones(0).unwrap()).unwrap();
    assert_eq!((new_tuning.class, new_tuning.octave), (PitchClass::C, 4));
    let new_tuning = tuning.add_interval(&Interval::from_semitones(2).unwrap()).unwrap();
    assert_eq!((new_tuning.class, new_tuning.octave), (PitchClass::D, 4));
    let new_tuning = tuning.add_interval(&Interval::from_semitones(4).unwrap()).unwrap();
    assert_eq!((new_tuning.class, new_tuning.octave), (PitchClass::E, 4));
    let new_tuning = tuning.add_interval(&Interval::from_semitones(5).unwrap()).unwrap();
    assert_eq!((new_tuning.class, new_tuning.octave), (PitchClass::F, 4));
    let new_tuning = tuning.add_interval(&Interval::from_semitones(7).unwrap()).unwrap();
    assert_eq!((new_tuning.class, new_tuning.octave), (PitchClass::G, 4));
    let new_tuning = tuning.add_interval(&Interval::from_semitones(9).unwrap()).unwrap();
    assert_eq!((new_tuning.class, new_tuning.octave), (PitchClass::A, 4));
    let new_tuning = tuning.add_interval(&Interval::from_semitones(11).unwrap()).unwrap();
    assert_eq!((new_tuning.class, new_tuning.octave), (PitchClass::B, 4));
}

#[test]
fn test_pitch_class_1() {
    let pitch_class = PitchClass::CSharpOrDFlat;
    assert_eq!(pitch_class.next_basic_degree(0), PitchClass::CSharpOrDFlat);
    assert_eq!(pitch_class.next_basic_degree(1), PitchClass::DSharpOrEFlat);
    assert_eq!(pitch_class.next_basic_degree(2), PitchClass::F);
    assert_eq!(pitch_class.next_basic_degree(3), PitchClass::FSharpOrGFlat);
    assert_eq!(pitch_class.next_basic_degree(4), PitchClass::GSharpOrAFlat);
    assert_eq!(pitch_class.next_basic_degree(5), PitchClass::ASharpOrBFlat);
    assert_eq!(pitch_class.next_basic_degree(6), PitchClass::C);
    assert_eq!(pitch_class.next_basic_degree(7), PitchClass::CSharpOrDFlat);
}

#[test]
fn modulation_by_whole_octaves_is_the_identity() {
    let classes = [
        PitchClass::C,
        PitchClass::CSharpOrDFlat,
        PitchClass::D,
        PitchClass::DSharpOrEFlat,
        PitchClass::E,
        PitchClass::F,
        PitchClass::FSharpOrGFlat,
        PitchClass::G,
        PitchClass::GSharpOrAFlat,
        PitchClass::A,
        PitchClass::ASharpOrBFlat,
        PitchClass::B,
        PitchClass::Silent,
    ];
    for class in classes {
        for k in -10i8..=10 {
            assert_eq!(class.modulation(12 * k), class);
        }
    }
}

#[test]
fn modulation_takes_every_degree() {
    assert_eq!(PitchClass::C.modulation(127), PitchClass::G);
    assert_eq!(PitchClass::C.modulation(-128), PitchClass::E);
    assert_eq!(PitchClass::B.modulation(1), PitchClass::C);
    assert_eq!(PitchClass::Silent.modulation(-128), PitchClass::Silent);
    assert_eq!(PitchClass::Silent.modulation(127), PitchClass::Silent);
}

#[test]
fn next_basic_degree_wraps_and_starts_silence_on_c() {
    assert_eq!(PitchClass::C.next_basic_degree(-1), PitchClass::B);
    assert_eq!(PitchClass::C.next_basic_degree(-128), PitchClass::A);
    assert_eq!(PitchClass::Silent.next_basic_degree(3), PitchClass::C);
}

#[test]
fn pitch_class_encoding() {
    assert_eq!(PitchClass::Silent.index(), 0);
    assert_eq!(PitchClass::C.index(), 1);
    assert_eq!(PitchClass::B.index(), 12);
    for value in 1u8..=12 {
        assert_eq!(PitchClass::from_index(value).index(), value);
    }
}

#[test]
fn octave_carries_at_the_wraparound() {
    let b4 = Tuning::new(PitchClass::B, 4);
    let up = b4.add_interval(&Interval::from_semitones(1).unwrap()).unwrap();
    assert_eq!((up.class, up.octave), (PitchClass::C, 5));
    let c4 = Tuning::new(PitchClass::C, 4);
    let down = c4.add_interval(&Interval::from_semitones(-1).unwrap()).unwrap();
    assert_eq!((down.class, down.octave), (PitchClass::B, 3));
    let far = c4.add_interval(&Interval::from_semitones(-13).unwrap()).unwrap();
    assert_eq!((far.class, far.octave), (PitchClass::B, 2));
    let octave = c4.add_interval(&Interval::from_semitones(12).unwrap()).unwrap();
    assert_eq!((octave.class, octave.octave), (PitchClass::C, 5));
}

#[test]
fn octave_outside_the_byte_is_an_invalid_pitch() {
    let top = Tuning::new(PitchClass::B, 127);
    assert_eq!(
        top.add_interval(&Interval::from_semitones(1).unwrap()),
        Err(MusicError::InvalidPitch)
    );
    let bottom = Tuning::new(PitchClass::C, -128);
    assert_eq!(
        bottom.add_interval(&Interval::from_semitones(-1).unwrap()),
        Err(MusicError::InvalidPitch)
    );
}

#[test]
fn silence_stays_silent_under_an_interval() {
    let rest = Tuning::new(PitchClass::Silent, 4).with_freq(1000);
    let moved = rest.add_interval(&Interval::from_semitones(7).unwrap()).unwrap();
    assert_eq!(moved, Tuning::new(PitchClass::Silent, 4));
}

#[test]
fn frequency_override_is_kept() {
    let tuning = Tuning::new(PitchClass::A, 4).with_freq(442_000);
    assert_eq!(tuning.freq, Some(442_000));
    assert_eq!(tuning.class, PitchClass::A);
    assert_eq!(tuning.octave, 4);
    assert_eq!(Tuning::new(PitchClass::A, 4).freq, None);
}

#[test]
fn midi_numbers() {
    assert_eq!(Tuning::new(PitchClass::A, 4).midi_number(), Ok(69));
    assert_eq!(Tuning::new(PitchClass::C, -1).midi_number(), Ok(0));
    assert_eq!(Tuning::new(PitchClass::G, 9).midi_number(), Ok(127));
    assert_eq!(Tuning::new(PitchClass::Silent, 4).midi_number(), Ok(0));
    assert_eq!(Tuning::new(PitchClass::Silent, 100).midi_number(), Ok(0));
}

#[test]
fn midi_numbers_out_of_range_fail() {
    assert_eq!(Tuning::new(PitchClass::GSharpOrAFlat, 9).midi_number(), Err(MusicError::InvalidPitch));
    assert_eq!(Tuning::new(PitchClass::B, -2).midi_number(), Err(MusicError::InvalidPitch));
    assert_eq!(Tuning::new(PitchClass::C, 127).midi_number(), Err(MusicError::InvalidPitch));
    assert_eq!(Tuning::new(PitchClass::C, -128).midi_number(), Err(MusicError::InvalidPitch));
}

#[test]
fn interval_between_pitch_classes() {
    let up = Interval::between(PitchClass::C, PitchClass::G);
    assert_eq!(up, Interval::from_semitones(7).unwrap());
    let down = Interval::between(PitchClass::G, PitchClass::C);
    assert_eq!(down, Interval::from_semitones(-7).unwrap());
    let from_silence = Interval::between(PitchClass::Silent, PitchClass::B);
    assert_eq!(from_silence, Interval::from_semitones(12).unwrap());
}

#[test]
fn pitch_class_labels() {
    assert_eq!(PitchClass::Silent.label(), " ");
    assert_eq!(PitchClass::C.label(), "C");
    assert_eq!(PitchClass::CSharpOrDFlat.label(), "C#/Db");
    assert_eq!(PitchClass::D.label(), "D");
    assert_eq!(PitchClass::DSharpOrEFlat.label(), "D#/Eb");
    assert_eq!(PitchClass::E.label(), "E");
    assert_eq!(PitchClass::F.label(), "F");
    assert_eq!(PitchClass::FSharpOrGFlat.label(), "F#/Gb");
    assert_eq!(PitchClass::G.label(), "G");
    assert_eq!(PitchClass::GSharpOrAFlat.label(), "G#/Ab");
    assert_eq!(PitchClass::A.label(), "A");
    assert_eq!(PitchClass::ASharpOrBFlat.label(), "A#/Bb");
    assert_eq!(PitchClass::B.label(), "B");
}
