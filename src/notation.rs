//! Notes and measures: a note's highlight state, and the per-measure
//! resolution of accidentals that decides which of them are drawn.

use crate::music::{
    accidental_at, in_semitone_range, pitch_at, pitch_index, semitone_value,
    signature_accidental, to_semitone, Accidental, Clef, KeySignature, Octave, Pitch, Semitone,
};
use crate::random::{draw_below, draw_ratio};
use rand::rngs::ThreadRng;
use vstd::prelude::*;

verus! {

/// How a note is highlighted: untouched, the current target, matched, or
/// answered with a wrong key.
#[derive(Debug, PartialEq, Eq, Structural, Clone, Copy)]
pub enum Highlight {
    Plain,
    Target,
    Correct,
    Incorrect,
}

/// A notated note. `draw_acci` says whether its accidental is drawn.
#[derive(Debug, Clone, Copy)]
pub struct Note {
    pub pitch: Pitch,
    pub accidental: Option<Accidental>,
    pub octave: Octave,
    pub color: Highlight,
    pub draw_acci: bool,
}

impl Note {
    /// The note's semitone, unbounded.
    pub open spec fn semitone(&self) -> int {
        semitone_value(self.pitch, self.accidental, self.octave.0 as int)
    }

    /// The note's semitone fits the 8-bit scale.
    pub open spec fn in_range(&self) -> bool {
        in_semitone_range(self.pitch, self.accidental, self.octave.0 as int)
    }

    /// A plain note whose accidental, if any, is drawn.
    pub open spec fn new_spec(pitch: Pitch, accidental: Option<Accidental>, octave: Octave) -> Note {
        Note { pitch, accidental, octave, color: Highlight::Plain, draw_acci: true }
    }

    pub fn new(pitch: Pitch, accidental: Option<Accidental>, octave: Octave) -> (r: Note)
        ensures
            r == Note::new_spec(pitch, accidental, octave),
    {
        Note { pitch, accidental, octave, color: Highlight::Plain, draw_acci: true }
    }

    pub fn to_semitone(&self) -> (r: Semitone)
        requires
            self.in_range(),
        ensures
            r.0 == self.semitone(),
    {
        to_semitone(self.pitch, self.accidental, self.octave)
    }

    /// The semitone computed without narrowing, for comparisons.
    fn semitone_wide(&self) -> (r: i64)
        ensures
            r == self.semitone(),
    {
        let mut v: i64 = 24 + self.octave.0 as i64 * 12;
        v = v + self.pitch.get_semitone_offset() as i64;
        if let Some(a) = self.accidental {
            v = v + a.get_semitone_offset() as i64;
        }
        v
    }
}

/// The octaves a clef's notes are drawn from: 3 and 4 for the treble clef,
/// 1 and 2 for the bass clef.
pub open spec fn lowest_octave(c: Clef) -> int {
    match c {
        Clef::Sol => 3,
        Clef::Fa => 1,
    }
}

impl Note {
    /// A freshly drawn note for clef `c`: plain, accidental drawn, and in
    /// the clef's two-octave window.
    pub open spec fn drawn_for(&self, c: Clef) -> bool {
        &&& self.color == Highlight::Plain
        &&& self.draw_acci
        &&& lowest_octave(c) <= self.octave.0 <= lowest_octave(c) + 1
    }

    /// The note that the given draws select: `pitch_draw` picks a letter of
    /// A..G, `has_accidental` whether one is written, `accidental_draw` which
    /// of flat, natural, sharp, and `octave_draw` the lower or upper octave
    /// of the clef's window.
    pub fn from_draws(
        pitch_draw: u32,
        has_accidental: bool,
        accidental_draw: u32,
        octave_draw: u32,
        c: Clef,
    ) -> (r: Note)
        requires
            pitch_draw < 7,
            accidental_draw < 3,
            octave_draw < 2,
        ensures
            r == Note::new_spec(
                pitch_at(pitch_draw as int),
                if has_accidental {
                    Some(accidental_at(accidental_draw as int))
                } else {
                    None
                },
                Octave((lowest_octave(c) + octave_draw) as i32),
            ),
            r.drawn_for(c),
            r.in_range(),
    {
        let low: i32 = match c {
            Clef::Sol => 3,
            Clef::Fa => 1,
        };
        let accidental = if has_accidental {
            Some(Accidental::from_index(accidental_draw))
        } else {
            None
        };
        Note::new(Pitch::from_index(pitch_draw), accidental, Octave(low + octave_draw as i32))
    }

    /// A note drawn at random for clef `c`.
    pub fn new_random(rng: &mut ThreadRng, c: Clef) -> (r: Note)
        ensures
            r.drawn_for(c),
            r.in_range(),
    {
        let p = draw_below(rng, 7);
        let has_accidental = draw_ratio(rng, 1, 2);
        let a = draw_below(rng, 3);
        let o = draw_below(rng, 2);
        Note::from_draws(p, has_accidental, a, o, c)
    }
}

/// Notes are equal when they sound the same: enharmonic spellings match and
/// the highlight is ignored.
impl PartialEq for Note {
    fn eq(&self, other: &Self) -> (r: bool) {
        self.semitone_wide() == other.semitone_wide()
    }
}

impl vstd::std_specs::cmp::PartialEqSpecImpl for Note {
    open spec fn obeys_eq_spec() -> bool {
        true
    }

    open spec fn eq_spec(&self, other: &Note) -> bool {
        self.semitone() == other.semitone()
    }
}

/// What resolving one note yields: its effective accidental, whether that
/// accidental is drawn, and the measure's letter memory afterwards.
pub open spec fn resolve(
    memory: Map<Pitch, Accidental>,
    p: Pitch,
    explicit: Option<Accidental>,
    ks: KeySignature,
) -> (Option<Accidental>, bool, Map<Pitch, Accidental>) {
    if memory.contains_key(p) {
        match explicit {
            Some(a) => if a == memory[p] {
                (Some(a), false, memory)
            } else {
                (Some(a), true, memory.insert(p, a))
            },
            None => (Some(memory[p]), false, memory),
        }
    } else {
        match explicit {
            Some(a) => if ks.governs(p) {
                if a == signature_accidental(ks.kind()) {
                    (Some(a), false, memory)
                } else {
                    (Some(a), true, memory.insert(p, a))
                }
            } else {
                (Some(a), a != Accidental::Natural, memory.insert(p, a))
            },
            None => if ks.governs(p) {
                (Some(signature_accidental(ks.kind())), false, memory)
            } else {
                (None, false, memory)
            },
        }
    }
}

/// The letter memory after resolving the first `k` notes of a measure.
pub open spec fn memory_after(notes: Seq<Note>, ks: KeySignature, k: int) -> Map<
    Pitch,
    Accidental,
>
    decreases k,
{
    if k <= 0 {
        Map::empty()
    } else {
        resolve(memory_after(notes, ks, k - 1), notes[k - 1].pitch, notes[k - 1].accidental, ks).2
    }
}

/// Note `i` of a measure with its accidental resolved and its display flag set.
pub open spec fn resolved_note(notes: Seq<Note>, ks: KeySignature, i: int) -> Note {
    let (a, d, _m) = resolve(memory_after(notes, ks, i), notes[i].pitch, notes[i].accidental, ks);
    Note { accidental: a, draw_acci: d, ..notes[i] }
}

/// A measure's notes after accidental resolution, left to right.
pub open spec fn normalized(notes: Seq<Note>, ks: KeySignature) -> Seq<Note> {
    Seq::new(notes.len(), |i: int| resolved_note(notes, ks, i))
}

/// Resolving a note again with its effective accidental written out
/// yields that accidental again and leaves the memory as the first pass did.
proof fn lemma_resolve_again(m: Map<Pitch, Accidental>, p: Pitch, a: Option<Accidental>, ks: KeySignature)
    ensures
        ({
            let r = resolve(m, p, a, ks);
            let again = resolve(m, p, r.0, ks);
            again.0 == r.0 && again.2 == r.2
        }),
{
}

/// Both passes hold the same letter memory after the first `k` notes.
proof fn lemma_memory_after_again(notes: Seq<Note>, ks: KeySignature, k: int)
    requires
        0 <= k <= notes.len(),
    ensures
        memory_after(normalized(notes, ks), ks, k) == memory_after(notes, ks, k),
    decreases k,
{
    if k > 0 {
        lemma_memory_after_again(notes, ks, k - 1);
        let m = memory_after(notes, ks, k - 1);
        lemma_resolve_again(m, notes[k - 1].pitch, notes[k - 1].accidental, ks);
    }
}

/// Resolving a measure a second time, with the resolved accidentals taken as
/// explicit, keeps every note's effective accidental.
pub proof fn lemma_normalized_accidentals_stable(notes: Seq<Note>, ks: KeySignature)
    ensures
        normalized(normalized(notes, ks), ks).len() == notes.len(),
        forall|i: int|
            0 <= i < notes.len() ==> (#[trigger] normalized(normalized(notes, ks), ks)[i]).accidental
                == normalized(notes, ks)[i].accidental,
{
    assert forall|i: int| 0 <= i < notes.len() implies (#[trigger] normalized(
        normalized(notes, ks),
        ks,
    )[i]).accidental == normalized(notes, ks)[i].accidental by {
        lemma_memory_after_again(notes, ks, i);
        lemma_resolve_again(memory_after(notes, ks, i), notes[i].pitch, notes[i].accidental, ks);
    }
}

/// The executable letter memory `mem` holds exactly the map `m`.
pub open spec fn memory_holds(mem: Seq<Option<Accidental>>, m: Map<Pitch, Accidental>) -> bool {
    &&& mem.len() == 7
    &&& forall|q: Pitch|
        #[trigger] mem[pitch_index(q)] == if m.contains_key(q) {
            Some(m[q])
        } else {
            None
        }
}

/// One measure of notes whose accidentals have been resolved.
pub struct Measure {
    pub notes: Vec<Note>,
}

impl Measure {
    /// Resolves the accidentals of `notes`, left to right, against a
    /// memory of the accidental last set for each letter in this measure.
    pub fn new(notes: Vec<Note>, key_sign: KeySignature) -> (r: Measure)
        requires
            key_sign.wf(),
        ensures
            r.notes@ == normalized(notes@, key_sign),
    {
        let mut notes = notes;
        let ghost input = notes@;
        let mut previous: Vec<Option<Accidental>> = vec![None, None, None, None, None, None, None];
        let n = notes.len();
        let mut i: usize = 0;
        while i < n
            invariant
                key_sign.wf(),
                n == input.len(),
                notes@.len() == n,
                i <= n,
                memory_holds(previous@, memory_after(input, key_sign, i as int)),
                forall|j: int| 0 <= j < i ==> notes@[j] == resolved_note(input, key_sign, j),
                forall|j: int| i <= j < n ==> notes@[j] == input[j],
            decreases n - i,
        {
            let ghost m = memory_after(input, key_sign, i as int);
            let note = notes[i];
            let k = note.pitch.index();
            let mut accidental = note.accidental;
            let mut draw = false;
            match previous[k] {
                Some(acci) => {
                    match note.accidental {
                        Some(a) => {
                            if a != acci {
                                previous.set(k, Some(a));
                                draw = true;
                            }
                        },
                        None => {
                            accidental = Some(acci);
                        },
                    }
                },
                None => {
                    match note.accidental {
                        Some(a) => {
                            if key_sign.is_pitch_inside(note.pitch) {
                                if !key_sign.accidental_match(a) {
                                    previous.set(k, Some(a));
                                    draw = true;
                                }
                            } else {
                                previous.set(k, Some(a));
                                draw = a != Accidental::Natural;
                            }
                        },
                        None => {
                            if key_sign.is_pitch_inside(note.pitch) {
                                accidental = Some(key_sign.get_accidental());
                            }
                        },
                    }
                },
            }
            notes.set(i, Note { accidental, draw_acci: draw, ..note });
            proof {
                let r = resolve(m, note.pitch, note.accidental, key_sign);
                assert(memory_after(input, key_sign, i + 1) == r.2);
                assert(notes@[i as int] == resolved_note(input, key_sign, i as int));
                assert forall|q: Pitch| #[trigger]
                    previous@[pitch_index(q)] == if r.2.contains_key(q) {
                        Some(r.2[q])
                    } else {
                        None
                    } by {
                    if q != note.pitch {
                        assert(pitch_index(q) != pitch_index(note.pitch));
                    }
                }
            }
            i = i + 1;
        }
        proof {
            assert(notes@ =~= normalized(input, key_sign));
        }
        Measure { notes }
    }
}

} // verus!
