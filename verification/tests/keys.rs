use minstrel::{guess_key, Key, Mode, Note};

#[test]
fn construction() {
    assert_eq!(
        Key::new(Note::new(0), Mode::Ionian).notes,
        [
            Note::new(0),
            Note::new(2),
            Note::new(4),
            Note::new(5),
            Note::new(7),
            Note::new(9),
            Note::new(11)
        ]
    );

    assert_eq!(
        Key::new(Note::new(3), Mode::Aeolian).notes,
        [
            Note::new(3),
            Note::new(5),
            Note::new(6),
            Note::new(8),
            Note::new(10),
            Note::new(11),
            Note::new(13)
        ]
    );
}

#[test]
fn octave_disregard() {
    assert_eq!(
        Key::new(Note::new(5), Mode::Ionian).notes_disregarding_octave(),
        [
            Note::new(5),
            Note::new(7),
            Note::new(9),
            Note::new(10),
            Note::new(0),
            Note::new(2),
            Note::new(4)
        ]
    );
}

#[test]
fn normal() {
    assert_eq!(Key::new(Note::new(2), Mode::Dorian).to_string(), "D Dorian");
    assert_eq!(
        Key::new(Note::new(8), Mode::Mixolydian).to_string(),
        "Ab Mixolydian"
    );
}

#[test]
fn alternate() {
    assert_eq!(
        Key::new(Note::new(2), Mode::Dorian).to_string_verbose(),
        "D E F G A B C"
    );

    assert_eq!(
        Key::new(Note::new(8), Mode::Mixolydian).to_string_verbose(),
        "Ab Bb C D Eb F G"
    );
}

#[test]
fn root_kept_and_notes_ascending() {
    for mode in Mode::all() {
        let k = Key::new(Note::new(7), mode);
        assert_eq!(k.notes[0], Note::new(7));
        for i in 0..6 {
            assert!(k.notes[i].semitones < k.notes[i + 1].semitones);
        }
    }
}

#[test]
fn guess_major_triad() {
    let observed = vec![Note::new(0), Note::new(4), Note::new(7)];
    let keys = guess_key(observed, None);
    assert!(keys
        .iter()
        .any(|k| k.notes[0] == Note::new(0) && k.mode == Mode::Ionian));
    assert!(keys
        .iter()
        .any(|k| k.notes[0] == Note::new(9) && k.mode == Mode::Aeolian));
    for k in &keys {
        let reduced = k.notes_disregarding_octave();
        for &pc in [0usize, 4, 7].iter() {
            assert!(reduced.contains(&Note::new(pc)));
        }
    }
}

#[test]
fn guess_full_scale_finds_each_mode_once() {
    let observed: Vec<Note> = [0usize, 2, 4, 5, 7, 9, 11]
        .iter()
        .map(|&s| Note::new(s))
        .collect();
    let keys = guess_key(observed, None);
    assert_eq!(keys.len(), 7);
    let expected = [
        (0usize, Mode::Ionian),
        (2, Mode::Dorian),
        (4, Mode::Phrygian),
        (5, Mode::Mixolydian),
        (7, Mode::Lydian),
        (9, Mode::Aeolian),
        (11, Mode::Locrian),
    ];
    for (k, &(root, mode)) in keys.iter().zip(expected.iter()) {
        assert_eq!(k.notes[0], Note::new(root));
        assert_eq!(k.mode, mode);
    }
}

#[test]
fn guess_with_known_root() {
    let keys = guess_key(
        vec![Note::new(0), Note::new(4), Note::new(7)],
        Some(Note::new(0)),
    );
    let modes: Vec<Mode> = keys.iter().map(|k| k.mode).collect();
    assert_eq!(modes, vec![Mode::Ionian, Mode::Lydian, Mode::Mixolydian]);
    for k in &keys {
        assert_eq!(k.notes[0], Note::new(0));
    }
}

#[test]
fn guess_reduces_observed_octaves() {
    let high = guess_key(
        vec![Note::new(12), Note::new(16), Note::new(19)],
        Some(Note::new(0)),
    );
    let low = guess_key(
        vec![Note::new(0), Note::new(4), Note::new(7)],
        Some(Note::new(0)),
    );
    assert_eq!(high.len(), low.len());
    for (h, l) in high.iter().zip(low.iter()) {
        assert_eq!(h.notes, l.notes);
        assert_eq!(h.mode, l.mode);
    }
}

#[test]
fn guess_empty_observation_matches_all() {
    assert_eq!(guess_key(Vec::new(), None).len(), 84);
    assert_eq!(guess_key(Vec::new(), Some(Note::new(3))).len(), 7);
}
