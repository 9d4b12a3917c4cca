use vstd::prelude::*;

verus! {

/// An interval, represented as a number of semitones.
#[derive(Debug, Eq, PartialEq, Copy, Clone, Structural)]
pub struct Interval {
    pub semitones: usize,
}

impl Interval {
    /// Creates a new `Interval` spanning the given number of semitones.
    pub fn new(semitones: usize) -> (r: Self)
        ensures
            r.semitones == semitones,
    {
        Self { semitones }
    }

    /// A semitone interval.
    pub fn semitone() -> (r: Self)
        ensures
            r.semitones == 1,
    {
        Self { semitones: 1 }
    }

    /// A whole tone interval (two semitones).
    pub fn tone() -> (r: Self)
        ensures
            r.semitones == 2,
    {
        Self { semitones: 2 }
    }
}

} // verus!
