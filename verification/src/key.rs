use vstd::prelude::*;
use vstd::string::StringExecFns;

use crate::mode::{mode_at, mode_interval, mode_name_spec, Mode};
use crate::note::{note_name_spec, pitch_class, Note};

verus! {

/// The pitch of scale degree `i` (counted from 0) of the scale built on
/// `root` in mode `m`: the root plus the mode's first `i` interval gaps.
pub open spec fn scale_note(root: int, m: Mode, i: int) -> int
    decreases i,
{
    if i <= 0 {
        root
    } else {
        scale_note(root, m, i - 1) + mode_interval(m, i - 1)
    }
}

/// A collection of seven notes, categorised by a `Mode`.
#[derive(Debug, Copy, Clone)]
pub struct Key {
    pub notes: [Note; 7],
    pub mode: Mode,
}

/// Well-formedness of a key: its seven notes are exactly the scale built
/// on its first note in its mode.
pub open spec fn key_wf(k: Key) -> bool {
    forall|i: int|
        0 <= i < 7 ==> (#[trigger] k.notes@[i]).semitones == scale_note(
            k.notes@[0].semitones as int,
            k.mode,
            i,
        )
}

/// Whether the scale on `root` in mode `m` contains a note of pitch
/// class `p`.
pub open spec fn key_has_pitch_class(root: int, m: Mode, p: int) -> bool {
    exists|i: int| 0 <= i < 7 && pitch_class(#[trigger] scale_note(root, m, i)) == p
}

/// Whether the scale on `root` in mode `m` contains every observed note's
/// pitch class.
pub open spec fn candidate_matches(root: int, m: Mode, observed: Seq<Note>) -> bool {
    forall|j: int|
        0 <= j < observed.len() ==> key_has_pitch_class(
            root,
            m,
            pitch_class((#[trigger] observed[j]).semitones as int),
        )
}

/// The seven (root, mode) candidates examined for one root, in mode
/// enumeration order.
pub open spec fn root_candidates(root: int) -> Seq<(int, Mode)> {
    Seq::new(7, |i: int| (root, mode_at(i)))
}

/// The ordered list of (root, mode) candidates that the key search
/// examines: the seven modes of the known root when one is given, and
/// otherwise all seven modes of each of the twelve chromatic roots,
/// roots outermost and ascending.
pub open spec fn candidate_list(root_note: Option<Note>) -> Seq<(int, Mode)> {
    match root_note {
        Some(r) => Seq::new(7, |i: int| (r.semitones as int, mode_at(i))),
        None => Seq::new(84, |i: int| (i / 7, mode_at(i % 7))),
    }
}

/// The subsequence of `cands` whose scales contain every observed pitch
/// class, in the order of `cands`.
pub open spec fn matching_candidates(cands: Seq<(int, Mode)>, observed: Seq<Note>) -> Seq<
    (int, Mode),
>
    decreases cands.len(),
{
    if cands.len() == 0 {
        Seq::empty()
    } else {
        let rest = matching_candidates(cands.drop_last(), observed);
        if candidate_matches(cands.last().0, cands.last().1, observed) {
            rest.push(cands.last())
        } else {
            rest
        }
    }
}

/// The (root, mode) pair that identifies a key.
pub open spec fn key_id(k: Key) -> (int, Mode) {
    (k.notes@[0].semitones as int, k.mode)
}

/// The (root, mode) pairs of a sequence of keys.
pub open spec fn key_ids(keys: Seq<Key>) -> Seq<(int, Mode)> {
    keys.map_values(|k: Key| key_id(k))
}

/// The default rendering of a key: its root's compact name and its
/// mode's name, separated by one space.
pub open spec fn key_display_spec(k: Key) -> Seq<char> {
    note_name_spec(pitch_class(k.notes@[0].semitones as int)) + " "@ + mode_name_spec(k.mode)
}

/// The verbose rendering of a key: the compact names of its seven notes,
/// space-separated, with no trailing space.
pub open spec fn key_notes_display_spec(k: Key) -> Seq<char> {
    note_name_spec(pitch_class(k.notes@[0].semitones as int)) + " "@ + note_name_spec(
        pitch_class(k.notes@[1].semitones as int),
    ) + " "@ + note_name_spec(pitch_class(k.notes@[2].semitones as int)) + " "@ + note_name_spec(
        pitch_class(k.notes@[3].semitones as int),
    ) + " "@ + note_name_spec(pitch_class(k.notes@[4].semitones as int)) + " "@ + note_name_spec(
        pitch_class(k.notes@[5].semitones as int),
    ) + " "@ + note_name_spec(pitch_class(k.notes@[6].semitones as int))
}

impl Key {
    /// Creates a new `Key` on the given `root_note` and `mode`, folding
    /// the mode's six intervals over the root.
    pub fn new(root_note: Note, mode: Mode) -> (r: Self)
        requires
            root_note.semitones + 11 <= usize::MAX,
        ensures
            r.mode == mode,
            r.notes@[0] == root_note,
            key_wf(r),
            forall|i: int|
                0 <= i < 6 ==> (#[trigger] r.notes@[i]).semitones < r.notes@[i + 1].semitones,
    {
        let ivs = mode.intervals();
        let ghost root = root_note.semitones as int;
        proof {
            assert(scale_note(root, mode, 0) == root);
            assert(scale_note(root, mode, 1) == root + mode_interval(mode, 0));
            assert(scale_note(root, mode, 2) == scale_note(root, mode, 1) + mode_interval(mode, 1));
            assert(scale_note(root, mode, 3) == scale_note(root, mode, 2) + mode_interval(mode, 2));
            assert(scale_note(root, mode, 4) == scale_note(root, mode, 3) + mode_interval(mode, 3));
            assert(scale_note(root, mode, 5) == scale_note(root, mode, 4) + mode_interval(mode, 4));
            assert(scale_note(root, mode, 6) == scale_note(root, mode, 5) + mode_interval(mode, 5));
            // The six gaps of every mode span at most eleven semitones.
            assert(scale_note(root, mode, 6) <= root + 11);
        }
        let n1 = root_note.add(ivs[0]);
        let n2 = n1.add(ivs[1]);
        let n3 = n2.add(ivs[2]);
        let n4 = n3.add(ivs[3]);
        let n5 = n4.add(ivs[4]);
        let n6 = n5.add(ivs[5]);
        Self { notes: [root_note, n1, n2, n3, n4, n5, n6], mode }
    }

    /// Renders the key in its default form: the root's compact name and
    /// the mode's name, separated by one space, as in `"D Dorian"`.
    pub fn to_string(&self) -> (r: String)
        ensures
            r@ == key_display_spec(*self),
    {
        let mut s = self.notes[0].name();
        s.append(" ");
        s.append(self.mode.name());
        s
    }

    /// Renders the key in its verbose form: the compact names of its
    /// seven notes, space-separated with no trailing space, as in
    /// `"D E F G A B C"`.
    pub fn to_string_verbose(&self) -> (r: String)
        ensures
            r@ == key_notes_display_spec(*self),
    {
        let mut s = self.notes[0].name();
        s.append(" ");
        let t = self.notes[1].name();
        s.append(t.as_str());
        s.append(" ");
        let t = self.notes[2].name();
        s.append(t.as_str());
        s.append(" ");
        let t = self.notes[3].name();
        s.append(t.as_str());
        s.append(" ");
        let t = self.notes[4].name();
        s.append(t.as_str());
        s.append(" ");
        let t = self.notes[5].name();
        s.append(t.as_str());
        s.append(" ");
        let t = self.notes[6].name();
        s.append(t.as_str());
        s
    }

    /// Returns the key's seven notes without regard for octave numbers,
    /// in order: each note reduced to its pitch class.
    ///
    /// See `Note::disregard_octave()` for more detail.
    pub fn notes_disregarding_octave(self) -> (r: [Note; 7])
        ensures
            forall|i: int|
                0 <= i < 7 ==> (#[trigger] r@[i]).semitones == pitch_class(
                    self.notes@[i].semitones as int,
                ),
    {
        [
            self.notes[0].disregard_octave(),
            self.notes[1].disregard_octave(),
            self.notes[2].disregard_octave(),
            self.notes[3].disregard_octave(),
            self.notes[4].disregard_octave(),
            self.notes[5].disregard_octave(),
            self.notes[6].disregard_octave(),
        ]
    }
}

/// Law: in every mode, the seventh scale degree lies ten or eleven
/// semitones above the root, so the six stored intervals plus the
/// implicit seventh interval back to the octave always sum to twelve
/// semitones, that last interval spanning the remaining one or two.
pub proof fn lemma_mode_spans_octave(root: int, m: Mode)
    ensures
        1 <= (root + 12) - scale_note(root, m, 6) <= 2,
{
    assert(scale_note(root, m, 0) == root);
    assert(scale_note(root, m, 1) == root + mode_interval(m, 0));
    assert(scale_note(root, m, 2) == scale_note(root, m, 1) + mode_interval(m, 1));
    assert(scale_note(root, m, 3) == scale_note(root, m, 2) + mode_interval(m, 2));
    assert(scale_note(root, m, 4) == scale_note(root, m, 3) + mode_interval(m, 3));
    assert(scale_note(root, m, 5) == scale_note(root, m, 4) + mode_interval(m, 4));
    assert(scale_note(root, m, 6) == scale_note(root, m, 5) + mode_interval(m, 5));
}

/// Filtering one more candidate appends it exactly when its scale
/// contains every observed pitch class.
proof fn lemma_matching_push(cands: Seq<(int, Mode)>, c: (int, Mode), observed: Seq<Note>)
    ensures
        matching_candidates(cands.push(c), observed) == if candidate_matches(c.0, c.1, observed) {
            matching_candidates(cands, observed).push(c)
        } else {
            matching_candidates(cands, observed)
        },
{
    assert(cands.push(c).drop_last() =~= cands);
    assert(cands.push(c).last() == c);
}

/// The filtered candidates of a concatenation are the concatenation of
/// the filtered candidates.
proof fn lemma_matching_append(a: Seq<(int, Mode)>, b: Seq<(int, Mode)>, observed: Seq<Note>)
    ensures
        matching_candidates(a + b, observed) == matching_candidates(a, observed)
            + matching_candidates(b, observed),
    decreases b.len(),
{
    if b.len() == 0 {
        assert(a + b =~= a);
        assert(matching_candidates(b, observed) =~= Seq::<(int, Mode)>::empty());
        assert(matching_candidates(a, observed) + Seq::<(int, Mode)>::empty() =~= matching_candidates(
            a,
            observed,
        ));
    } else {
        lemma_matching_append(a, b.drop_last(), observed);
        assert((a + b).drop_last() =~= a + b.drop_last());
        assert((a + b).last() == b.last());
        if candidate_matches(b.last().0, b.last().1, observed) {
            assert((matching_candidates(a, observed) + matching_candidates(
                b.drop_last(),
                observed,
            )).push(b.last()) =~= matching_candidates(a, observed) + matching_candidates(
                b.drop_last(),
                observed,
            ).push(b.last()));
        }
    }
}

/// Appends to `key_candidates`, for the given root, each of the seven
/// modes' keys whose scale contains every pitch class observed in
/// `notes`, in mode enumeration order.
fn push_keys_for_root(root_note: Note, notes: &Vec<Note>, key_candidates: &mut Vec<Key>)
    requires
        root_note.semitones + 11 <= usize::MAX,
        forall|i: int| 0 <= i < old(key_candidates)@.len() ==> key_wf(#[trigger] old(key_candidates)@[i]),
    ensures
        forall|i: int|
            0 <= i < final(key_candidates)@.len() ==> key_wf(#[trigger] final(key_candidates)@[i]),
        key_ids(final(key_candidates)@) == key_ids(old(key_candidates)@) + matching_candidates(
            root_candidates(root_note.semitones as int),
            notes@,
        ),
{
    let ghost root = root_note.semitones as int;
    let modes = Mode::all();
    let mut m: usize = 0;
    proof {
        assert(root_candidates(root).take(0) =~= Seq::<(int, Mode)>::empty());
        assert(key_ids(key_candidates@) + Seq::<(int, Mode)>::empty() =~= key_ids(
            key_candidates@,
        ));
    }
    while m < 7
        invariant
            m <= 7,
            root_note.semitones + 11 <= usize::MAX,
            root == root_note.semitones as int,
            modes@.len() == 7,
            forall|i: int| 0 <= i < 7 ==> modes@[i] == mode_at(i),
            forall|i: int| 0 <= i < key_candidates@.len() ==> key_wf(#[trigger] key_candidates@[i]),
            key_ids(key_candidates@) == key_ids(old(key_candidates)@) + matching_candidates(
                root_candidates(root).take(m as int),
                notes@,
            ),
        decreases 7 - m,
    {
        let mode = modes[m];
        let key = Key::new(root_note, mode);
        let reduced = key.notes_disregarding_octave();
        proof {
            assert(forall|i: int|
                0 <= i < 7 ==> (#[trigger] reduced@[i]).semitones == pitch_class(
                    scale_note(root, mode, i),
                ));
        }
        let mut all_match = true;
        let mut j: usize = 0;
        while j < notes.len()
            invariant
                j <= notes@.len(),
                key_wf(key),
                key.mode == mode,
                key.notes@[0] == root_note,
                root == root_note.semitones as int,
                forall|i: int|
                    0 <= i < 7 ==> (#[trigger] reduced@[i]).semitones == pitch_class(
                        scale_note(root, mode, i),
                    ),
                all_match == (forall|jj: int|
                    0 <= jj < j ==> key_has_pitch_class(
                        root,
                        mode,
                        pitch_class((#[trigger] notes@[jj]).semitones as int),
                    )),
            decreases notes@.len() - j,
        {
            let p = notes[j].disregard_octave();
            let mut found = false;
            let mut k: usize = 0;
            while k < 7
                invariant
                    k <= 7,
                    p.semitones == pitch_class(notes@[j as int].semitones as int),
                    forall|i: int|
                        0 <= i < 7 ==> (#[trigger] reduced@[i]).semitones == pitch_class(
                            scale_note(root, mode, i),
                        ),
                    found == (exists|i: int|
                        0 <= i < k && pitch_class(#[trigger] scale_note(root, mode, i))
                            == p.semitones),
                decreases 7 - k,
            {
                if reduced[k].semitones == p.semitones {
                    found = true;
                    proof {
                        assert(pitch_class(scale_note(root, mode, k as int)) == p.semitones);
                    }
                }
                k = k + 1;
            }
            proof {
                assert(found == key_has_pitch_class(
                    root,
                    mode,
                    pitch_class(notes@[j as int].semitones as int),
                ));
            }
            all_match = all_match && found;
            j = j + 1;
        }
        proof {
            assert(all_match == candidate_matches(root, mode, notes@));
            assert(root_candidates(root).take(m + 1 as int) =~= root_candidates(root).take(
                m as int,
            ).push((root, mode_at(m as int))));
            lemma_matching_push(
                root_candidates(root).take(m as int),
                (root, mode_at(m as int)),
                notes@,
            );
        }
        if all_match {
            proof {
                assert(key_id(key) == (root, mode_at(m as int)));
            }
            let ghost before = key_candidates@;
            key_candidates.push(key);
            proof {
                assert(key_ids(key_candidates@) =~= key_ids(before).push(key_id(key)));
            }
        }
        m = m + 1;
    }
    proof {
        assert(root_candidates(root).take(7) =~= root_candidates(root));
    }
}

/// Guesses keys that the given collection of `notes` could belong to:
/// every candidate key whose scale contains each observed note's pitch
/// class, in candidate order. When `root_note` is given only its seven
/// modes are examined; otherwise all twelve chromatic roots are. An
/// empty `notes` collection matches every candidate.
pub fn guess_key(notes: Vec<Note>, root_note: Option<Note>) -> (r: Vec<Key>)
    requires
        root_note matches Some(n) ==> n.semitones + 11 <= usize::MAX,
    ensures
        forall|i: int| 0 <= i < r@.len() ==> key_wf(#[trigger] r@[i]),
        key_ids(r@) == matching_candidates(candidate_list(root_note), notes@),
{
    let mut key_candidates: Vec<Key> = Vec::new();
    match root_note {
        Some(root) => {
            push_keys_for_root(root, &notes, &mut key_candidates);
            proof {
                assert(key_ids(Seq::<Key>::empty()) + matching_candidates(
                    root_candidates(root.semitones as int),
                    notes@,
                ) =~= matching_candidates(root_candidates(root.semitones as int), notes@));
                assert(candidate_list(root_note) =~= root_candidates(root.semitones as int));
            }
        },
        None => {
            let roots = Note::new(0).chromatic_run(12);
            let mut ridx: usize = 0;
            proof {
                assert(candidate_list(root_note).take(0) =~= Seq::<(int, Mode)>::empty());
            }
            while ridx < 12
                invariant
                    ridx <= 12,
                    root_note is None,
                    roots@.len() == 12,
                    forall|i: int| 0 <= i < 12 ==> (#[trigger] roots@[i]).semitones == i,
                    forall|i: int|
                        0 <= i < key_candidates@.len() ==> key_wf(#[trigger] key_candidates@[i]),
                    key_ids(key_candidates@) == matching_candidates(
                        candidate_list(root_note).take(7 * ridx as int),
                        notes@,
                    ),
                decreases 12 - ridx,
            {
                push_keys_for_root(roots[ridx], &notes, &mut key_candidates);
                proof {
                    assert(candidate_list(root_note).take(7 * (ridx + 1) as int)
                        =~= candidate_list(root_note).take(7 * ridx as int) + root_candidates(
                        ridx as int,
                    ));
                    lemma_matching_append(
                        candidate_list(root_note).take(7 * ridx as int),
                        root_candidates(ridx as int),
                        notes@,
                    );
                }
                ridx = ridx + 1;
            }
            proof {
                assert(candidate_list(root_note).take(84) =~= candidate_list(root_note));
            }
        },
    }
    key_candidates
}

} // verus!
