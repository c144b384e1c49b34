use train_piano::layout::{
    accidental_glyph, get_factor_gap_octave, get_factor_gap_pitch, ledger_steps, signature_glyph,
};
use train_piano::music::{Accidental, Clef, KeySignatureAccidental, Octave, Pitch};
use train_piano::notation::Note;

#[test]
fn octave_factors() {
    assert_eq!(get_factor_gap_octave(&Octave(4), &Clef::Sol), 0);
    assert_eq!(get_factor_gap_octave(&Octave(3), &Clef::Sol), 7);
    assert_eq!(get_factor_gap_octave(&Octave(5), &Clef::Sol), -7);
    assert_eq!(get_factor_gap_octave(&Octave(2), &Clef::Fa), 0);
    assert_eq!(get_factor_gap_octave(&Octave(1), &Clef::Fa), 7);
}

#[test]
fn pitch_factors() {
    assert_eq!(get_factor_gap_pitch(&Pitch::C, &Clef::Sol), 3);
    assert_eq!(get_factor_gap_pitch(&Pitch::B, &Clef::Sol), -3);
    assert_eq!(get_factor_gap_pitch(&Pitch::F, &Clef::Sol), 0);
    assert_eq!(get_factor_gap_pitch(&Pitch::C, &Clef::Fa), 5);
    assert_eq!(get_factor_gap_pitch(&Pitch::A, &Clef::Fa), 0);
}

#[test]
fn note_factor_sums_both() {
    let n = Note::new(Pitch::C, None, Octave(3));
    assert_eq!(n.factor_gap(&Clef::Sol), 10);
    let m = Note::new(Pitch::A, Some(Accidental::Flat), Octave(2));
    assert_eq!(m.factor_gap(&Clef::Fa), 0);
}

#[test]
fn ledger_lines() {
    assert_eq!(ledger_steps(-1), Vec::<i32>::new());
    assert_eq!(ledger_steps(-2), vec![-2]);
    assert_eq!(ledger_steps(-3), vec![-2]);
    assert_eq!(ledger_steps(-5), vec![-2, -4]);
    assert_eq!(ledger_steps(0), Vec::<i32>::new());
    assert_eq!(ledger_steps(9), Vec::<i32>::new());
    assert_eq!(ledger_steps(10), vec![10]);
    assert_eq!(ledger_steps(13), vec![10, 12]);
    assert_eq!(ledger_steps(14), vec![10, 12, 14]);
}

#[test]
fn glyphs() {
    assert_eq!(accidental_glyph(Accidental::Sharp), '#');
    assert_eq!(accidental_glyph(Accidental::Flat), 'b');
    assert_eq!(accidental_glyph(Accidental::Natural), 'n');
    assert_eq!(signature_glyph(KeySignatureAccidental::Sharp), '#');
    assert_eq!(signature_glyph(KeySignatureAccidental::Flat), 'b');
}
