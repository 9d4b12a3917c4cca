use vstd::prelude::*;

use crate::interval::Interval;

verus! {

/// An enumeration over the seven musical modes.
#[derive(Debug, Eq, PartialEq, Copy, Clone, Structural)]
pub enum Mode {
    Ionian,
    Dorian,
    Phrygian,
    Lydian,
    Mixolydian,
    Aeolian,
    Locrian,
}

/// The error returned when a string matches none of the seven mode names.
#[derive(Debug, Eq, PartialEq, Copy, Clone, Structural)]
pub struct UnknownMode;

/// The interval table of the modes: the semitone gap between scale degree
/// `i` and degree `i + 1`, for `i` in `0..6`. The seventh gap, leading back
/// to the octave, is never materialized, since a key stores exactly seven
/// notes. Row by row (Ionian first): 2,2,1,2,2,2 / 2,1,2,2,2,1 /
/// 1,2,2,2,1,2 / 2,2,1,2,2,1 / 2,2,2,1,2,2 / 2,1,2,2,1,2 / 1,2,2,1,2,2.
pub open spec fn mode_interval(m: Mode, i: int) -> int {
    match m {
        Mode::Ionian => if i == 2 { 1 } else { 2 },
        Mode::Dorian => if i == 1 || i == 5 { 1 } else { 2 },
        Mode::Phrygian => if i == 0 || i == 4 { 1 } else { 2 },
        Mode::Lydian => if i == 2 || i == 5 { 1 } else { 2 },
        Mode::Mixolydian => if i == 3 { 1 } else { 2 },
        Mode::Aeolian => if i == 1 || i == 4 { 1 } else { 2 },
        Mode::Locrian => if i == 0 || i == 3 { 1 } else { 2 },
    }
}

/// The fixed enumeration order of the modes, as an index into the seven
/// variants: Ionian through Locrian.
pub open spec fn mode_at(i: int) -> Mode {
    if i == 0 {
        Mode::Ionian
    } else if i == 1 {
        Mode::Dorian
    } else if i == 2 {
        Mode::Phrygian
    } else if i == 3 {
        Mode::Lydian
    } else if i == 4 {
        Mode::Mixolydian
    } else if i == 5 {
        Mode::Aeolian
    } else {
        Mode::Locrian
    }
}

/// The canonical name of a mode.
pub open spec fn mode_name_spec(m: Mode) -> Seq<char> {
    match m {
        Mode::Ionian => "Ionian"@,
        Mode::Dorian => "Dorian"@,
        Mode::Phrygian => "Phrygian"@,
        Mode::Lydian => "Lydian"@,
        Mode::Mixolydian => "Mixolydian"@,
        Mode::Aeolian => "Aeolian"@,
        Mode::Locrian => "Locrian"@,
    }
}

/// Which mode, if any, a string names: an exact, case-sensitive match
/// against one of the seven canonical names.
pub open spec fn mode_of_name(s: Seq<char>) -> Option<Mode> {
    if s == "Ionian"@ {
        Some(Mode::Ionian)
    } else if s == "Dorian"@ {
        Some(Mode::Dorian)
    } else if s == "Phrygian"@ {
        Some(Mode::Phrygian)
    } else if s == "Lydian"@ {
        Some(Mode::Lydian)
    } else if s == "Mixolydian"@ {
        Some(Mode::Mixolydian)
    } else if s == "Aeolian"@ {
        Some(Mode::Aeolian)
    } else if s == "Locrian"@ {
        Some(Mode::Locrian)
    } else {
        None
    }
}

impl Mode {
    /// The mode's six intervals: the semitone gaps between its first seven
    /// scale degrees, in order.
    pub fn intervals(self) -> (r: [Interval; 6])
        ensures
            forall|i: int| 0 <= i < 6 ==> r@[i].semitones == mode_interval(self, i),
    {
        match self {
            Mode::Ionian => [
                Interval::new(2),
                Interval::new(2),
                Interval::new(1),
                Interval::new(2),
                Interval::new(2),
                Interval::new(2),
            ],
            Mode::Dorian => [
                Interval::new(2),
                Interval::new(1),
                Interval::new(2),
                Interval::new(2),
                Interval::new(2),
                Interval::new(1),
            ],
            Mode::Phrygian => [
                Interval::new(1),
                Interval::new(2),
                Interval::new(2),
                Interval::new(2),
                Interval::new(1),
                Interval::new(2),
            ],
            Mode::Lydian => [
                Interval::new(2),
                Interval::new(2),
                Interval::new(1),
                Interval::new(2),
                Interval::new(2),
                Interval::new(1),
            ],
            Mode::Mixolydian => [
                Interval::new(2),
                Interval::new(2),
                Interval::new(2),
                Interval::new(1),
                Interval::new(2),
                Interval::new(2),
            ],
            Mode::Aeolian => [
                Interval::new(2),
                Interval::new(1),
                Interval::new(2),
                Interval::new(2),
                Interval::new(1),
                Interval::new(2),
            ],
            Mode::Locrian => [
                Interval::new(1),
                Interval::new(2),
                Interval::new(2),
                Interval::new(1),
                Interval::new(2),
                Interval::new(2),
            ],
        }
    }

    /// All seven modes, in their fixed enumeration order.
    pub fn all() -> (r: Vec<Mode>)
        ensures
            r@.len() == 7,
            forall|i: int| 0 <= i < 7 ==> r@[i] == mode_at(i),
    {
        let mut modes: Vec<Mode> = Vec::new();
        modes.push(Mode::Ionian);
        modes.push(Mode::Dorian);
        modes.push(Mode::Phrygian);
        modes.push(Mode::Lydian);
        modes.push(Mode::Mixolydian);
        modes.push(Mode::Aeolian);
        modes.push(Mode::Locrian);
        modes
    }

    /// The mode's canonical name.
    pub fn name(self) -> (r: &'static str)
        ensures
            r@ == mode_name_spec(self),
    {
        match self {
            Mode::Ionian => "Ionian",
            Mode::Dorian => "Dorian",
            Mode::Phrygian => "Phrygian",
            Mode::Lydian => "Lydian",
            Mode::Mixolydian => "Mixolydian",
            Mode::Aeolian => "Aeolian",
            Mode::Locrian => "Locrian",
        }
    }

    /// Parses a mode name: succeeds exactly on the seven canonical names,
    /// case-sensitively, and fails with `UnknownMode` on anything else.
    pub fn from_name(s: &str) -> (r: Result<Mode, UnknownMode>)
        ensures
            r == match mode_of_name(s@) {
                Some(m) => Ok::<Mode, UnknownMode>(m),
                None => Err::<Mode, UnknownMode>(UnknownMode),
            },
    {
        let t: String = s.to_owned();
        if t == "Ionian".to_owned() {
            Ok(Mode::Ionian)
        } else if t == "Dorian".to_owned() {
            Ok(Mode::Dorian)
        } else if t == "Phrygian".to_owned() {
            Ok(Mode::Phrygian)
        } else if t == "Lydian".to_owned() {
            Ok(Mode::Lydian)
        } else if t == "Mixolydian".to_owned() {
            Ok(Mode::Mixolydian)
        } else if t == "Aeolian".to_owned() {
            Ok(Mode::Aeolian)
        } else if t == "Locrian".to_owned() {
            Ok(Mode::Locrian)
        } else {
            Err(UnknownMode)
        }
    }
}

/// Law: mode names round-trip — parsing a mode's canonical name yields
/// that mode back, for every mode.
pub proof fn lemma_mode_name_round_trip(m: Mode)
    ensures
        mode_of_name(mode_name_spec(m)) == Some(m),
{
    reveal_strlit("Ionian");
    reveal_strlit("Dorian");
    reveal_strlit("Phrygian");
    reveal_strlit("Lydian");
    reveal_strlit("Mixolydian");
    reveal_strlit("Aeolian");
    reveal_strlit("Locrian");
    // Names of equal length are told apart by their first character.
    assert("Ionian"@[0] == 'I');
    assert("Dorian"@[0] == 'D');
    assert("Lydian"@[0] == 'L');
    assert("Aeolian"@[0] == 'A');
    assert("Locrian"@[0] == 'L');
    assert("Phrygian"@[0] == 'P');
    assert("Mixolydian"@[0] == 'M');
    assert("Lydian"@[1] == 'y');
    assert("Locrian"@[1] == 'o');
    assert("Aeolian"@ != "Locrian"@);
    match m {
        Mode::Ionian => assert(mode_of_name("Ionian"@) == Some(Mode::Ionian)),
        Mode::Dorian => assert(mode_of_name("Dorian"@) == Some(Mode::Dorian)),
        Mode::Phrygian => assert(mode_of_name("Phrygian"@) == Some(Mode::Phrygian)),
        Mode::Lydian => assert(mode_of_name("Lydian"@) == Some(Mode::Lydian)),
        Mode::Mixolydian => assert(mode_of_name("Mixolydian"@) == Some(Mode::Mixolydian)),
        Mode::Aeolian => assert(mode_of_name("Aeolian"@) == Some(Mode::Aeolian)),
        Mode::Locrian => assert(mode_of_name("Locrian"@) == Some(Mode::Locrian)),
    }
}

} // verus!
