use vstd::prelude::*;
use vstd::string::StringExecFns;

use crate::interval::Interval;

verus! {

/// The pitch class of a semitone offset: the offset reduced modulo the
/// twelve semitones of an octave, normalized into `[0, 12)`.
pub open spec fn pitch_class(semitones: int) -> int {
    semitones % 12
}

/// The fixed spelling table for the twelve pitch classes, preferring flats.
pub open spec fn note_name_spec(p: int) -> Seq<char> {
    if p == 0 {
        "C"@
    } else if p == 1 {
        "Db"@
    } else if p == 2 {
        "D"@
    } else if p == 3 {
        "Eb"@
    } else if p == 4 {
        "E"@
    } else if p == 5 {
        "F"@
    } else if p == 6 {
        "Gb"@
    } else if p == 7 {
        "G"@
    } else if p == 8 {
        "Ab"@
    } else if p == 9 {
        "A"@
    } else if p == 10 {
        "Bb"@
    } else {
        "B"@
    }
}

/// The character for one decimal digit.
pub open spec fn digit_char(d: int) -> char {
    if d == 0 {
        '0'
    } else if d == 1 {
        '1'
    } else if d == 2 {
        '2'
    } else if d == 3 {
        '3'
    } else if d == 4 {
        '4'
    } else if d == 5 {
        '5'
    } else if d == 6 {
        '6'
    } else if d == 7 {
        '7'
    } else if d == 8 {
        '8'
    } else {
        '9'
    }
}

/// The decimal rendering of a non-negative number, most significant
/// digit first, with no leading zeros except on zero itself.
pub open spec fn decimal_digits(n: int) -> Seq<char>
    decreases n,
{
    if n < 10 {
        seq![digit_char(n)]
    } else {
        decimal_digits(n / 10).push(digit_char(n % 10))
    }
}

/// An absolute pitch: a semitone offset from the reference pitch
/// (pitch class 0, octave 0).
#[derive(Debug, Eq, PartialEq, Copy, Clone, Structural)]
pub struct Note {
    pub semitones: usize,
}

impl Note {
    /// Creates a new `Note` at the given semitone offset.
    pub fn new(semitones: usize) -> (r: Self)
        ensures
            r.semitones == semitones,
    {
        Self { semitones }
    }

    /// Returns the note lying `interval` above this one.
    pub fn add(self, interval: Interval) -> (r: Self)
        requires
            self.semitones + interval.semitones <= usize::MAX,
        ensures
            r.semitones == self.semitones + interval.semitones,
    {
        Self { semitones: self.semitones + interval.semitones }
    }

    /// The ascending chromatic run starting at this note: `count` notes,
    /// each one semitone above the previous.
    pub fn chromatic_run(self, count: usize) -> (r: Vec<Note>)
        requires
            self.semitones + count <= usize::MAX,
        ensures
            r@.len() == count,
            forall|i: int| 0 <= i < count ==> r@[i].semitones == self.semitones + i,
    {
        let mut run: Vec<Note> = Vec::new();
        let mut i: usize = 0;
        while i < count
            invariant
                i <= count,
                self.semitones + count <= usize::MAX,
                run@.len() == i,
                forall|j: int| 0 <= j < i ==> run@[j].semitones == self.semitones + j,
            decreases count - i,
        {
            run.push(Note { semitones: self.semitones + i });
            i = i + 1;
        }
        run
    }

    /// Reduces this note to its pitch class alone, discarding any octave
    /// information: the result's offset is `self.semitones` modulo 12.
    pub fn disregard_octave(self) -> (r: Self)
        ensures
            r.semitones == pitch_class(self.semitones as int),
            r.semitones < 12,
    {
        Self { semitones: self.semitones % 12 }
    }

    /// The note's canonical full name: its pitch-class letter and
    /// accidental followed by its octave number, octave 0 being the
    /// reference octave.
    pub fn name_with_octave(&self) -> (r: String)
        ensures
            r@ == note_name_spec(pitch_class(self.semitones as int)) + decimal_digits(
                self.semitones as int / 12,
            ),
    {
        let mut s = self.name();
        append_decimal(&mut s, self.semitones / 12);
        s
    }

    /// The note's compact name: its pitch-class letter and accidental,
    /// without an octave suffix.
    pub fn name(&self) -> (r: String)
        ensures
            r@ == note_name_spec(pitch_class(self.semitones as int)),
    {
        let p = self.semitones % 12;
        if p == 0 {
            "C".to_owned()
        } else if p == 1 {
            "Db".to_owned()
        } else if p == 2 {
            "D".to_owned()
        } else if p == 3 {
            "Eb".to_owned()
        } else if p == 4 {
            "E".to_owned()
        } else if p == 5 {
            "F".to_owned()
        } else if p == 6 {
            "Gb".to_owned()
        } else if p == 7 {
            "G".to_owned()
        } else if p == 8 {
            "Ab".to_owned()
        } else if p == 9 {
            "A".to_owned()
        } else if p == 10 {
            "Bb".to_owned()
        } else {
            "B".to_owned()
        }
    }
}

/// The one-character string for one decimal digit.
fn digit_str(d: usize) -> (r: &'static str)
    requires
        d < 10,
    ensures
        r@ == seq![digit_char(d as int)],
{
    if d == 0 {
        proof {
            reveal_strlit("0");
            assert("0"@ =~= seq![digit_char(0)]);
        }
        "0"
    } else if d == 1 {
        proof {
            reveal_strlit("1");
            assert("1"@ =~= seq![digit_char(1)]);
        }
        "1"
    } else if d == 2 {
        proof {
            reveal_strlit("2");
            assert("2"@ =~= seq![digit_char(2)]);
        }
        "2"
    } else if d == 3 {
        proof {
            reveal_strlit("3");
            assert("3"@ =~= seq![digit_char(3)]);
        }
        "3"
    } else if d == 4 {
        proof {
            reveal_strlit("4");
            assert("4"@ =~= seq![digit_char(4)]);
        }
        "4"
    } else if d == 5 {
        proof {
            reveal_strlit("5");
            assert("5"@ =~= seq![digit_char(5)]);
        }
        "5"
    } else if d == 6 {
        proof {
            reveal_strlit("6");
            assert("6"@ =~= seq![digit_char(6)]);
        }
        "6"
    } else if d == 7 {
        proof {
            reveal_strlit("7");
            assert("7"@ =~= seq![digit_char(7)]);
        }
        "7"
    } else if d == 8 {
        proof {
            reveal_strlit("8");
            assert("8"@ =~= seq![digit_char(8)]);
        }
        "8"
    } else {
        proof {
            reveal_strlit("9");
            assert("9"@ =~= seq![digit_char(9)]);
        }
        "9"
    }
}

/// Appends the decimal rendering of `n` to `s`.
fn append_decimal(s: &mut String, n: usize)
    ensures
        final(s)@ == old(s)@ + decimal_digits(n as int),
    decreases n,
{
    if n < 10 {
        s.append(digit_str(n));
    } else {
        append_decimal(s, n / 10);
        s.append(digit_str(n % 10));
        proof {
            assert(old(s)@ + decimal_digits(n as int / 10) + seq![digit_char(n as int % 10)]
                =~= old(s)@ + decimal_digits(n as int));
        }
    }
}

/// Law: reducing a note to its pitch class is idempotent — applying
/// `disregard_octave` twice gives the same note as applying it once.
pub proof fn lemma_pitch_class_idempotent(semitones: int)
    ensures
        pitch_class(pitch_class(semitones)) == pitch_class(semitones),
{
    assert(0 <= semitones % 12 < 12) by (nonlinear_arith);
    assert((semitones % 12) % 12 == semitones % 12) by (nonlinear_arith)
        requires
            0 <= semitones % 12 < 12,
    ;
}

} // verus!
