//! Pitch algebra: letters, accidentals, octaves and the absolute semitone
//! scale, plus key signatures over the circle-of-fifths orders.

use crate::random::{draw_below, draw_ratio};
use rand::rngs::ThreadRng;
use vstd::prelude::*;

verus! {

/// An absolute pitch number; letter C at octave 0 is 24.
#[derive(Debug, PartialEq, Eq, Structural, Clone, Copy)]
pub struct Semitone(pub u8);

/// A register index; a piano spans roughly octaves -1 to 7.
#[derive(Debug, PartialEq, Eq, Structural, Clone, Copy, Hash)]
pub struct Octave(pub i32);

/// One of the seven nominal pitch classes.
#[derive(Debug, PartialEq, Eq, Structural, Clone, Copy, Hash)]
pub enum Pitch {
    A,
    B,
    C,
    D,
    E,
    F,
    G,
}

#[derive(Debug, PartialEq, Eq, Structural, Clone, Copy, Hash)]
pub enum Accidental {
    Sharp,
    Flat,
    Natural,
}

#[derive(Debug, PartialEq, Eq, Structural, Clone, Copy)]
pub enum Clef {
    Sol,
    Fa,
}

#[derive(Debug, PartialEq, Eq, Structural, Clone, Copy)]
pub enum KeySignatureAccidental {
    Sharp,
    Flat,
}

/// A key signature: its accidental type and how many letters it alters.
#[derive(Debug, Clone, Copy)]
pub struct KeySignature(pub KeySignatureAccidental, u8);

/// Chromatic offset of a letter within its octave.
pub open spec fn pitch_offset(p: Pitch) -> int {
    match p {
        Pitch::A => 9,
        Pitch::B => 11,
        Pitch::C => 0,
        Pitch::D => 2,
        Pitch::E => 4,
        Pitch::F => 5,
        Pitch::G => 7,
    }
}

/// Raise of an accidental in semitones.
pub open spec fn accidental_offset(a: Accidental) -> int {
    match a {
        Accidental::Sharp => 1,
        Accidental::Flat => -1,
        Accidental::Natural => 0,
    }
}

/// Raise of an optional accidental; an absent one raises nothing.
pub open spec fn optional_offset(a: Option<Accidental>) -> int {
    match a {
        Some(x) => accidental_offset(x),
        None => 0,
    }
}

/// The absolute semitone of a letter, accidental and octave, unbounded.
pub open spec fn semitone_value(p: Pitch, a: Option<Accidental>, o: int) -> int {
    24 + o * 12 + pitch_offset(p) + optional_offset(a)
}

/// A spelling whose semitone fits the 8-bit scale.
pub open spec fn in_semitone_range(p: Pitch, a: Option<Accidental>, o: int) -> bool {
    0 <= semitone_value(p, a, o) <= 255
}

/// The canonical spelling of a position within an octave: sharps and
/// natural letters only.
pub open spec fn spelling_of_remainder(r: int) -> (Pitch, Option<Accidental>) {
    if r == 0 {
        (Pitch::C, None)
    } else if r == 1 {
        (Pitch::C, Some(Accidental::Sharp))
    } else if r == 2 {
        (Pitch::D, None)
    } else if r == 3 {
        (Pitch::D, Some(Accidental::Sharp))
    } else if r == 4 {
        (Pitch::E, None)
    } else if r == 5 {
        (Pitch::F, None)
    } else if r == 6 {
        (Pitch::F, Some(Accidental::Sharp))
    } else if r == 7 {
        (Pitch::G, None)
    } else if r == 8 {
        (Pitch::G, Some(Accidental::Sharp))
    } else if r == 9 {
        (Pitch::A, None)
    } else if r == 10 {
        (Pitch::A, Some(Accidental::Sharp))
    } else {
        (Pitch::B, None)
    }
}

/// The canonical (letter, accidental, octave) of a key number, by floored
/// division of its distance from C0.
pub open spec fn key_number_spelling(n: int) -> (Pitch, Option<Accidental>, int) {
    let (p, a) = spelling_of_remainder((n - 24) % 12);
    (p, a, (n - 24) / 12)
}

/// The circle-of-fifths order in which a signature type alters letters.
pub open spec fn signature_order(t: KeySignatureAccidental) -> Seq<Pitch> {
    match t {
        KeySignatureAccidental::Sharp => seq![
            Pitch::F,
            Pitch::C,
            Pitch::G,
            Pitch::D,
            Pitch::A,
            Pitch::E,
            Pitch::B,
        ],
        KeySignatureAccidental::Flat => seq![
            Pitch::B,
            Pitch::E,
            Pitch::A,
            Pitch::D,
            Pitch::G,
            Pitch::C,
            Pitch::F,
        ],
    }
}

/// The accidental a signature type stands for.
pub open spec fn signature_accidental(t: KeySignatureAccidental) -> Accidental {
    match t {
        KeySignatureAccidental::Sharp => Accidental::Sharp,
        KeySignatureAccidental::Flat => Accidental::Flat,
    }
}

/// Position of a letter in A..G.
pub open spec fn pitch_index(p: Pitch) -> int {
    match p {
        Pitch::A => 0,
        Pitch::B => 1,
        Pitch::C => 2,
        Pitch::D => 3,
        Pitch::E => 4,
        Pitch::F => 5,
        Pitch::G => 6,
    }
}

/// The letter at position `i` of A..G.
pub open spec fn pitch_at(i: int) -> Pitch {
    if i == 0 {
        Pitch::A
    } else if i == 1 {
        Pitch::B
    } else if i == 2 {
        Pitch::C
    } else if i == 3 {
        Pitch::D
    } else if i == 4 {
        Pitch::E
    } else if i == 5 {
        Pitch::F
    } else {
        Pitch::G
    }
}

/// The accidental at position `i` of flat, natural, sharp.
pub open spec fn accidental_at(i: int) -> Accidental {
    if i == 0 {
        Accidental::Flat
    } else if i == 1 {
        Accidental::Natural
    } else {
        Accidental::Sharp
    }
}

impl Accidental {
    /// The accidental at position `i` of flat, natural, sharp.
    pub fn from_index(i: u32) -> (r: Accidental)
        requires
            i < 3,
        ensures
            r == accidental_at(i as int),
    {
        if i == 0 {
            Accidental::Flat
        } else if i == 1 {
            Accidental::Natural
        } else {
            Accidental::Sharp
        }
    }

    pub fn get_semitone_offset(&self) -> (r: i8)
        ensures
            r == accidental_offset(*self),
    {
        match self {
            Self::Sharp => 1,
            Self::Flat => -1,
            Self::Natural => 0,
        }
    }
}

impl Pitch {
    /// Position of the letter in A..G.
    pub fn index(&self) -> (r: usize)
        ensures
            r == pitch_index(*self),
            r < 7,
    {
        match self {
            Self::A => 0,
            Self::B => 1,
            Self::C => 2,
            Self::D => 3,
            Self::E => 4,
            Self::F => 5,
            Self::G => 6,
        }
    }

    /// The letter at position `i` of A..G.
    pub fn from_index(i: u32) -> (r: Pitch)
        requires
            i < 7,
        ensures
            r == pitch_at(i as int),
    {
        if i == 0 {
            Pitch::A
        } else if i == 1 {
            Pitch::B
        } else if i == 2 {
            Pitch::C
        } else if i == 3 {
            Pitch::D
        } else if i == 4 {
            Pitch::E
        } else if i == 5 {
            Pitch::F
        } else {
            Pitch::G
        }
    }

    pub fn get_semitone_offset(&self) -> (r: u8)
        ensures
            r == pitch_offset(*self),
    {
        match self {
            Self::A => 9,
            Self::B => 11,
            Self::C => 0,
            Self::D => 2,
            Self::E => 4,
            Self::F => 5,
            Self::G => 7,
        }
    }
}


/// Whether the first `count` letters of the order of `t` include `p`.
pub open spec fn governs(t: KeySignatureAccidental, count: int, p: Pitch) -> bool {
    exists|i: int| 0 <= i < count && i < 7 && #[trigger] signature_order(t)[i] == p
}

impl KeySignature {
    /// A signature never alters more than the seven letters.
    pub open spec fn wf(&self) -> bool {
        self.count() <= 7
    }

    /// The signature's accidental type.
    pub closed spec fn kind(&self) -> KeySignatureAccidental {
        self.0
    }

    /// How many letters the signature alters.
    pub closed spec fn count(&self) -> int {
        self.1 as int
    }

    /// Whether the signature alters letter `p`.
    pub open spec fn governs(&self, p: Pitch) -> bool {
        governs(self.kind(), self.count(), p)
    }

    /// Builds a signature, clamping the count to at most seven.
    pub fn new(accidental: KeySignatureAccidental, nb: u8) -> (r: KeySignature)
        ensures
            r.wf(),
            r.kind() == accidental,
            r.count() == if nb <= 7 { nb as int } else { 7 },
    {
        let nb = if nb > 7 { 7 } else { nb };
        KeySignature(accidental, nb)
    }

    pub fn get_number(&self) -> (r: u8)
        ensures
            r == self.count(),
    {
        self.1
    }

    /// Whether `p` is among the letters the signature alters.
    pub fn is_pitch_inside(&self, p: Pitch) -> (r: bool)
        requires
            self.wf(),
        ensures
            r == self.governs(p),
    {
        let mut i: u8 = 0;
        while i < self.1
            invariant
                i <= self.1 <= 7,
                forall|j: int| 0 <= j < i ==> signature_order(self.0)[j] != p,
            decreases self.1 - i,
        {
            if signature_pitch(self.0, i as usize) == p {
                return true;
            }
            i = i + 1;
        }
        proof {
            assert forall|j: int| 0 <= j < self.1 && j < 7 implies #[trigger] signature_order(
                self.0,
            )[j] != p by {}
        }
        false
    }

    /// Whether `a` is the accidental the signature stands for; a natural
    /// never is.
    pub fn accidental_match(&self, a: Accidental) -> (r: bool)
        ensures
            r == (a == signature_accidental(self.kind())),
    {
        if self.0 == KeySignatureAccidental::Sharp && a == Accidental::Sharp {
            return true;
        }
        if self.0 == KeySignatureAccidental::Flat && a == Accidental::Flat {
            return true;
        }
        false
    }

    /// The accidental implied for a governed letter.
    pub fn get_accidental(&self) -> (r: Accidental)
        ensures
            r == signature_accidental(self.kind()),
    {
        match self.0 {
            KeySignatureAccidental::Sharp => Accidental::Sharp,
            KeySignatureAccidental::Flat => Accidental::Flat,
        }
    }
}

impl KeySignature {
    /// A signature drawn at random: with chance one in five it alters one
    /// to five letters, otherwise none; sharp or flat by a fair coin.
    pub fn new_random(rng: &mut ThreadRng) -> (r: KeySignature)
        ensures
            r.wf(),
            r.count() <= 5,
    {
        let nontrivial = draw_ratio(rng, 1, 5);
        let count_draw = if nontrivial {
            draw_below(rng, 5)
        } else {
            0
        };
        let sharp = draw_ratio(rng, 1, 2);
        KeySignature::from_draws(nontrivial, count_draw, sharp)
    }

    /// The signature that the given draws select: `nontrivial` whether any
    /// letter is altered, `count_draw` how many beyond the first, `sharp`
    /// whether the type is sharp rather than flat.
    pub fn from_draws(nontrivial: bool, count_draw: u32, sharp: bool) -> (r: KeySignature)
        requires
            count_draw < 5,
        ensures
            r.wf(),
            r.kind() == (if sharp {
                KeySignatureAccidental::Sharp
            } else {
                KeySignatureAccidental::Flat
            }),
            r.count() == (if nontrivial {
                count_draw + 1
            } else {
                0
            }),
    {
        let nb: u8 = if nontrivial {
            (count_draw + 1) as u8
        } else {
            0
        };
        let accidental = if sharp {
            KeySignatureAccidental::Sharp
        } else {
            KeySignatureAccidental::Flat
        };
        KeySignature::new(accidental, nb)
    }

    /// The signature's accidental type.
    pub fn accidental_type(&self) -> (r: KeySignatureAccidental)
        ensures
            r == self.kind(),
    {
        self.0
    }
}

impl Clef {
    /// The clef's name as shown beside a stave.
    pub fn name(&self) -> (r: &'static str)
        ensures
            *self == Clef::Sol ==> r@ == "Sol"@,
            *self == Clef::Fa ==> r@ == "Fa"@,
    {
        match self {
            Clef::Sol => "Sol",
            Clef::Fa => "Fa",
        }
    }

    /// A clef drawn by a fair coin.
    pub fn new_random(rng: &mut ThreadRng) -> Clef {
        let treble = draw_ratio(rng, 1, 2);
        Clef::from_coin(treble)
    }

    /// The clef a coin selects: treble for `true`, bass for `false`.
    pub fn from_coin(treble: bool) -> (r: Clef)
        ensures
            r == (if treble {
                Clef::Sol
            } else {
                Clef::Fa
            }),
    {
        if treble {
            Clef::Sol
        } else {
            Clef::Fa
        }
    }
}

/// Entry `i` of the alteration order of signature type `t`.
pub fn signature_pitch(t: KeySignatureAccidental, i: usize) -> (r: Pitch)
    requires
        i < 7,
    ensures
        r == signature_order(t)[i as int],
{
    match t {
        KeySignatureAccidental::Sharp => {
            if i == 0 {
                Pitch::F
            } else if i == 1 {
                Pitch::C
            } else if i == 2 {
                Pitch::G
            } else if i == 3 {
                Pitch::D
            } else if i == 4 {
                Pitch::A
            } else if i == 5 {
                Pitch::E
            } else {
                Pitch::B
            }
        },
        KeySignatureAccidental::Flat => {
            if i == 0 {
                Pitch::B
            } else if i == 1 {
                Pitch::E
            } else if i == 2 {
                Pitch::A
            } else if i == 3 {
                Pitch::D
            } else if i == 4 {
                Pitch::G
            } else if i == 5 {
                Pitch::C
            } else {
                Pitch::F
            }
        },
    }
}

/// The semitone of a letter, optional accidental and octave.
pub fn to_semitone(pitch: Pitch, accidental: Option<Accidental>, octave: Octave) -> (r: Semitone)
    requires
        in_semitone_range(pitch, accidental, octave.0 as int),
    ensures
        r.0 == semitone_value(pitch, accidental, octave.0 as int),
{
    let o: i64 = octave.0 as i64;
    let mut v: i64 = 24 + o * 12;
    v = v + pitch.get_semitone_offset() as i64;
    if let Some(a) = accidental {
        v = v + a.get_semitone_offset() as i64;
    }
    Semitone(v as u8)
}

/// The canonical spelling of a key number: floored octave and a sharp or
/// natural letter.
pub fn from_key_number(n: Semitone) -> (r: (Pitch, Option<Accidental>, Octave))
    ensures
        (r.0, r.1, r.2.0 as int) == key_number_spelling(n.0 as int),
{
    let octave: i32 = (n.0 / 12) as i32 - 2;
    let rem: u8 = n.0 % 12;
    proof {
        assert((n.0 as int - 24) / 12 == n.0 as int / 12 - 2);
        assert((n.0 as int - 24) % 12 == n.0 as int % 12);
    }
    let (p, a) = if rem == 0 {
        (Pitch::C, None)
    } else if rem == 1 {
        (Pitch::C, Some(Accidental::Sharp))
    } else if rem == 2 {
        (Pitch::D, None)
    } else if rem == 3 {
        (Pitch::D, Some(Accidental::Sharp))
    } else if rem == 4 {
        (Pitch::E, None)
    } else if rem == 5 {
        (Pitch::F, None)
    } else if rem == 6 {
        (Pitch::F, Some(Accidental::Sharp))
    } else if rem == 7 {
        (Pitch::G, None)
    } else if rem == 8 {
        (Pitch::G, Some(Accidental::Sharp))
    } else if rem == 9 {
        (Pitch::A, None)
    } else if rem == 10 {
        (Pitch::A, Some(Accidental::Sharp))
    } else {
        (Pitch::B, None)
    };
    (p, a, Octave(octave))
}

/// Spelling any semitone canonically and converting back gives the same
/// semitone.
pub proof fn lemma_spelling_round_trip(n: int)
    ensures
        ({
            let (p, a, o) = key_number_spelling(n);
            semitone_value(p, a, o) == n
        }),
{
    let r = (n - 24) % 12;
    let q = (n - 24) / 12;
    assert(n - 24 == q * 12 + r && 0 <= r < 12);
}

/// A natural letter at any octave, converted to its semitone and spelled
/// back from that key number, denotes the same semitone.
pub proof fn lemma_natural_key_number_round_trip(p: Pitch, o: int)
    ensures
        ({
            let n = semitone_value(p, None, o);
            let (q, a, o2) = key_number_spelling(n);
            semitone_value(q, a, o2) == n
        }),
{
    lemma_spelling_round_trip(semitone_value(p, None, o));
}

/// F sharp and G flat of the same octave are the same semitone.
pub proof fn lemma_f_sharp_is_g_flat(o: int)
    ensures
        semitone_value(Pitch::F, Some(Accidental::Sharp), o) == semitone_value(
            Pitch::G,
            Some(Accidental::Flat),
            o,
        ),
{
}

} // verus!
