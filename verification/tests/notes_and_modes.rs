use minstrel::{Interval, Mode, Note, UnknownMode};

#[test]
fn interval_construction() {
    assert_eq!(Interval::new(4).semitones, 4);
    assert_eq!(Interval::new(0).semitones, 0);
}

#[test]
fn note_addition() {
    assert_eq!(Note::new(3).add(Interval::new(4)), Note::new(7));
    assert_eq!(Note::new(11).add(Interval::new(1)), Note::new(12));
}

#[test]
fn chromatic_run_from_reference() {
    let run = Note::new(0).chromatic_run(12);
    assert_eq!(run.len(), 12);
    for (i, n) in run.iter().enumerate() {
        assert_eq!(n.semitones, i);
    }
}

#[test]
fn octave_disregard_idempotent() {
    for &s in [0usize, 5, 11, 12, 13, 25, 120].iter() {
        let once = Note::new(s).disregard_octave();
        assert_eq!(once.disregard_octave(), once);
        assert!(once.semitones < 12);
    }
    assert_eq!(Note::new(25).disregard_octave(), Note::new(1));
}

#[test]
fn note_names() {
    assert_eq!(Note::new(0).name(), "C");
    assert_eq!(Note::new(1).name(), "Db");
    assert_eq!(Note::new(3).name(), "Eb");
    assert_eq!(Note::new(6).name(), "Gb");
    assert_eq!(Note::new(8).name(), "Ab");
    assert_eq!(Note::new(10).name(), "Bb");
    assert_eq!(Note::new(11).name(), "B");
    assert_eq!(Note::new(13).name(), "Db");
}

#[test]
fn note_names_with_octave() {
    assert_eq!(Note::new(0).name_with_octave(), "C0");
    assert_eq!(Note::new(14).name_with_octave(), "D1");
    assert_eq!(Note::new(8).name_with_octave(), "Ab0");
    assert_eq!(Note::new(123).name_with_octave(), "Eb10");
}

#[test]
fn mode_names_round_trip() {
    for mode in Mode::all() {
        assert_eq!(Mode::from_name(mode.name()), Ok(mode));
    }
}

#[test]
fn unknown_mode_names_rejected() {
    assert_eq!(Mode::from_name("ionian"), Err(UnknownMode));
    assert_eq!(Mode::from_name("Major"), Err(UnknownMode));
    assert_eq!(Mode::from_name("Dorian "), Err(UnknownMode));
    assert_eq!(Mode::from_name(""), Err(UnknownMode));
}

#[test]
fn mode_interval_table() {
    let gaps: Vec<usize> = Mode::Ionian
        .intervals()
        .iter()
        .map(|iv| iv.semitones)
        .collect();
    assert_eq!(gaps, vec![2, 2, 1, 2, 2, 2]);
    let gaps: Vec<usize> = Mode::Locrian
        .intervals()
        .iter()
        .map(|iv| iv.semitones)
        .collect();
    assert_eq!(gaps, vec![1, 2, 2, 1, 2, 2]);
    for mode in Mode::all() {
        let span: usize = mode.intervals().iter().map(|iv| iv.semitones).sum();
        assert!(span == 10 || span == 11);
    }
}

#[test]
fn named_intervals() {
    assert_eq!(Interval::semitone().semitones, 1);
    assert_eq!(Interval::tone().semitones, 2);
    assert_eq!(Note::new(0).add(Interval::tone()), Note::new(2));
}
