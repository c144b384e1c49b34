//! Where notation goes on a stave: vertical steps of notes and signature
//! marks, ledger lines, and the characters drawn for accidentals.

use crate::music::{Accidental, Clef, KeySignatureAccidental, Octave, Pitch};
use crate::notation::Note;
use vstd::prelude::*;

verus! {

/// Steps (half gaps) from a clef's reference position down to octave `o`:
/// seven per octave below octave 4 for the treble clef, octave 2 for the
/// bass clef.
pub open spec fn octave_factor(o: int, c: Clef) -> int {
    match c {
        Clef::Sol => (4 - o) * 7,
        Clef::Fa => (2 - o) * 7,
    }
}

/// Steps from the top staff line to letter `p` within the reference octave.
pub open spec fn pitch_factor(p: Pitch, c: Clef) -> int {
    let base: int = match p {
        Pitch::A => -5,
        Pitch::B => -6,
        Pitch::C => 0,
        Pitch::D => -1,
        Pitch::E => -2,
        Pitch::F => -3,
        Pitch::G => -4,
    };
    base + (if c == Clef::Fa {
        2int
    } else {
        0
    }) + 3
}

/// Steps from the top staff line down to a note; a gap is one step.
pub open spec fn note_factor(note: Note, c: Clef) -> int {
    pitch_factor(note.pitch, c) + octave_factor(note.octave.0 as int, c)
}

/// The ledger lines a note `f` steps below the top line needs, each as
/// steps below the top line: every second step from 2 above the top line
/// up to the note, or from 10 (the fifth line below the top, one below the
/// staff) down to the note.
pub open spec fn ledger_seq(f: int) -> Seq<int> {
    if f <= -2 {
        Seq::new(((-f - 2) / 2 + 1) as nat, |i: int| -(2 + 2 * i))
    } else if f >= 10 {
        Seq::new(((f - 10) / 2 + 1) as nat, |i: int| 10 + 2 * i)
    } else {
        Seq::empty()
    }
}

pub fn get_factor_gap_octave(o: &Octave, clef: &Clef) -> (r: i32)
    requires
        i32::MIN <= octave_factor(o.0 as int, *clef) <= i32::MAX,
    ensures
        r == octave_factor(o.0 as int, *clef),
{
    let top: i64 = match clef {
        Clef::Sol => 4,
        Clef::Fa => 2,
    };
    ((top - o.0 as i64) * 7) as i32
}

pub fn get_factor_gap_pitch(p: &Pitch, clef: &Clef) -> (r: i32)
    ensures
        r == pitch_factor(*p, *clef),
{
    let mut r: i32 = match p {
        Pitch::A => -5,
        Pitch::B => -6,
        Pitch::C => 0,
        Pitch::D => -1,
        Pitch::E => -2,
        Pitch::F => -3,
        Pitch::G => -4,
    };
    if *clef == Clef::Fa {
        r = r + 2;
    }
    r + 3
}

impl Note {
    /// Steps from the top staff line down to this note under `clef`.
    pub fn factor_gap(&self, clef: &Clef) -> (r: i32)
        requires
            i32::MIN + 10 <= octave_factor(self.octave.0 as int, *clef) <= i32::MAX - 10,
        ensures
            r == note_factor(*self, *clef),
    {
        get_factor_gap_pitch(&self.pitch, clef) + get_factor_gap_octave(&self.octave, clef)
    }
}

/// The ledger lines of a note `factor` steps below the top staff line, as
/// steps below that line.
pub fn ledger_steps(factor: i32) -> (r: Vec<i32>)
    ensures
        r@.len() == ledger_seq(factor as int).len(),
        forall|i: int| 0 <= i < r@.len() ==> r@[i] == #[trigger] ledger_seq(factor as int)[i],
{
    let mut r: Vec<i32> = Vec::new();
    if factor <= -2 {
        let mut step: i64 = 2;
        while step <= -(factor as i64)
            invariant
                factor <= -2,
                2 <= step <= -factor + 2,
                step % 2 == 0,
                r@.len() == (step - 2) / 2,
                forall|i: int| 0 <= i < r@.len() ==> r@[i] == -(2 + 2 * i),
            decreases -factor - step + 2,
        {
            r.push((-step) as i32);
            step = step + 2;
        }
    } else if factor >= 10 {
        let mut step: i64 = 10;
        while step <= factor as i64
            invariant
                factor >= 10,
                10 <= step <= factor + 2,
                step % 2 == 0,
                r@.len() == (step - 10) / 2,
                forall|i: int| 0 <= i < r@.len() ==> r@[i] == 10 + 2 * i,
            decreases factor - step + 2,
        {
            r.push(step as i32);
            step = step + 2;
        }
    }
    r
}

/// The character drawn for an accidental.
pub fn accidental_glyph(a: Accidental) -> (r: char)
    ensures
        r == match a {
            Accidental::Sharp => '#',
            Accidental::Flat => 'b',
            Accidental::Natural => 'n',
        },
{
    match a {
        Accidental::Sharp => '#',
        Accidental::Flat => 'b',
        Accidental::Natural => 'n',
    }
}

/// The character drawn for each mark of a key signature.
pub fn signature_glyph(t: KeySignatureAccidental) -> (r: char)
    ensures
        r == match t {
            KeySignatureAccidental::Sharp => '#',
            KeySignatureAccidental::Flat => 'b',
        },
{
    match t {
        KeySignatureAccidental::Sharp => '#',
        KeySignatureAccidental::Flat => 'b',
    }
}

} // verus!
