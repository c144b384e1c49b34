use train_piano::music::{
    from_key_number, signature_pitch, to_semitone, Accidental, Clef, KeySignature,
    KeySignatureAccidental, Octave, Pitch, Semitone,
};

const LETTERS: [Pitch; 7] = [Pitch::A, Pitch::B, Pitch::C, Pitch::D, Pitch::E, Pitch::F, Pitch::G];

#[test]
fn c0_is_24() {
    assert_eq!(to_semitone(Pitch::C, None, Octave(0)), Semitone(24));
}

#[test]
fn semitone_formula_values() {
    assert_eq!(to_semitone(Pitch::A, None, Octave(-1)), Semitone(21));
    assert_eq!(to_semitone(Pitch::A, None, Octave(4)), Semitone(81));
    assert_eq!(to_semitone(Pitch::B, Some(Accidental::Flat), Octave(3)), Semitone(70));
    assert_eq!(to_semitone(Pitch::E, Some(Accidental::Sharp), Octave(2)), Semitone(53));
    assert_eq!(to_semitone(Pitch::G, Some(Accidental::Natural), Octave(1)), Semitone(43));
    assert_eq!(to_semitone(Pitch::C, None, Octave(-2)), Semitone(0));
    assert_eq!(to_semitone(Pitch::C, Some(Accidental::Sharp), Octave(-2)), Semitone(1));
    assert_eq!(to_semitone(Pitch::B, Some(Accidental::Sharp), Octave(17)), Semitone(24 + 204 + 12));
}

#[test]
fn f_sharp_equals_g_flat_every_octave() {
    for o in -1..=7 {
        assert_eq!(
            to_semitone(Pitch::F, Some(Accidental::Sharp), Octave(o)),
            to_semitone(Pitch::G, Some(Accidental::Flat), Octave(o))
        );
    }
}

#[test]
fn offsets() {
    assert_eq!(Accidental::Sharp.get_semitone_offset(), 1);
    assert_eq!(Accidental::Flat.get_semitone_offset(), -1);
    assert_eq!(Accidental::Natural.get_semitone_offset(), 0);
    let expected = [9u8, 11, 0, 2, 4, 5, 7];
    for (p, e) in LETTERS.iter().zip(expected.iter()) {
        assert_eq!(p.get_semitone_offset(), *e);
    }
}

#[test]
fn key_number_spellings() {
    assert_eq!(from_key_number(Semitone(61)), (Pitch::C, Some(Accidental::Sharp), Octave(3)));
    assert_eq!(from_key_number(Semitone(21)), (Pitch::A, None, Octave(-1)));
    assert_eq!(from_key_number(Semitone(0)), (Pitch::C, None, Octave(-2)));
    assert_eq!(from_key_number(Semitone(23)), (Pitch::B, None, Octave(-1)));
    assert_eq!(from_key_number(Semitone(24)), (Pitch::C, None, Octave(0)));
    assert_eq!(from_key_number(Semitone(66)), (Pitch::F, Some(Accidental::Sharp), Octave(3)));
    assert_eq!(from_key_number(Semitone(127)), (Pitch::G, None, Octave(8)));
}

#[test]
fn key_number_never_flat() {
    for n in 0..=255u8 {
        let (_, a, _) = from_key_number(Semitone(n));
        assert_ne!(a, Some(Accidental::Flat));
        assert_ne!(a, Some(Accidental::Natural));
    }
}

#[test]
fn natural_round_trip_every_letter_and_octave() {
    for p in LETTERS.iter() {
        for o in -1..=7 {
            let s = to_semitone(*p, None, Octave(o));
            let (q, a, o2) = from_key_number(s);
            assert_eq!(to_semitone(q, a, o2), s);
        }
    }
}

#[test]
fn sharp_round_trip_keeps_spelling() {
    let s = to_semitone(Pitch::F, Some(Accidental::Sharp), Octave(4));
    assert_eq!(from_key_number(s), (Pitch::F, Some(Accidental::Sharp), Octave(4)));
}

#[test]
fn key_signature_clamps_count() {
    assert_eq!(KeySignature::new(KeySignatureAccidental::Sharp, 9).get_number(), 7);
    assert_eq!(KeySignature::new(KeySignatureAccidental::Flat, 255).get_number(), 7);
    assert_eq!(KeySignature::new(KeySignatureAccidental::Flat, 3).get_number(), 3);
    assert_eq!(KeySignature::new(KeySignatureAccidental::Flat, 0).get_number(), 0);
}

#[test]
fn sharp_signature_governs_in_fifths_order() {
    let ks = KeySignature::new(KeySignatureAccidental::Sharp, 3);
    assert!(ks.is_pitch_inside(Pitch::F));
    assert!(ks.is_pitch_inside(Pitch::C));
    assert!(ks.is_pitch_inside(Pitch::G));
    assert!(!ks.is_pitch_inside(Pitch::D));
    assert!(!ks.is_pitch_inside(Pitch::B));
}

#[test]
fn flat_signature_governs_in_fifths_order() {
    let ks = KeySignature::new(KeySignatureAccidental::Flat, 2);
    assert!(ks.is_pitch_inside(Pitch::B));
    assert!(ks.is_pitch_inside(Pitch::E));
    assert!(!ks.is_pitch_inside(Pitch::A));
    assert!(!ks.is_pitch_inside(Pitch::F));
    let full = KeySignature::new(KeySignatureAccidental::Flat, 7);
    for p in LETTERS.iter() {
        assert!(full.is_pitch_inside(*p));
    }
}

#[test]
fn empty_signature_governs_nothing() {
    let ks = KeySignature::new(KeySignatureAccidental::Sharp, 0);
    for p in LETTERS.iter() {
        assert!(!ks.is_pitch_inside(*p));
    }
}

#[test]
fn signature_orders() {
    let sharps: Vec<Pitch> = (0..7).map(|i| signature_pitch(KeySignatureAccidental::Sharp, i)).collect();
    assert_eq!(sharps, vec![Pitch::F, Pitch::C, Pitch::G, Pitch::D, Pitch::A, Pitch::E, Pitch::B]);
    let flats: Vec<Pitch> = (0..7).map(|i| signature_pitch(KeySignatureAccidental::Flat, i)).collect();
    assert_eq!(flats, vec![Pitch::B, Pitch::E, Pitch::A, Pitch::D, Pitch::G, Pitch::C, Pitch::F]);
}

#[test]
fn accidental_match_by_type() {
    let sharp = KeySignature::new(KeySignatureAccidental::Sharp, 2);
    let flat = KeySignature::new(KeySignatureAccidental::Flat, 2);
    assert!(sharp.accidental_match(Accidental::Sharp));
    assert!(!sharp.accidental_match(Accidental::Flat));
    assert!(!sharp.accidental_match(Accidental::Natural));
    assert!(flat.accidental_match(Accidental::Flat));
    assert!(!flat.accidental_match(Accidental::Sharp));
    assert!(!flat.accidental_match(Accidental::Natural));
    assert_eq!(sharp.get_accidental(), Accidental::Sharp);
    assert_eq!(flat.get_accidental(), Accidental::Flat);
}

#[test]
fn index_conversions() {
    for (i, p) in LETTERS.iter().enumerate() {
        assert_eq!(p.index(), i);
        assert_eq!(Pitch::from_index(i as u32), *p);
    }
    assert_eq!(Accidental::from_index(0), Accidental::Flat);
    assert_eq!(Accidental::from_index(1), Accidental::Natural);
    assert_eq!(Accidental::from_index(2), Accidental::Sharp);
}

#[test]
fn clef_names() {
    assert_eq!(Clef::Sol.name(), "Sol");
    assert_eq!(Clef::Fa.name(), "Fa");
}

#[test]
fn random_signatures_stay_in_range() {
    let mut rng = rand::thread_rng();
    let mut seen_altered = false;
    for _ in 0..2000 {
        let ks = KeySignature::new_random(&mut rng);
        assert!(ks.get_number() <= 5);
        if ks.get_number() > 0 {
            seen_altered = true;
        }
    }
    assert!(seen_altered);
}

#[test]
fn random_clefs_reach_both() {
    let mut rng = rand::thread_rng();
    let clefs: Vec<Clef> = (0..200).map(|_| Clef::new_random(&mut rng)).collect();
    assert!(clefs.contains(&Clef::Sol));
    assert!(clefs.contains(&Clef::Fa));
}

#[test]
fn signature_draws_select_signature() {
    let ks = KeySignature::from_draws(true, 0, true);
    assert_eq!(ks.get_number(), 1);
    assert_eq!(ks.accidental_type(), KeySignatureAccidental::Sharp);
    let ks = KeySignature::from_draws(true, 4, false);
    assert_eq!(ks.get_number(), 5);
    assert_eq!(ks.accidental_type(), KeySignatureAccidental::Flat);
    let ks = KeySignature::from_draws(false, 3, true);
    assert_eq!(ks.get_number(), 0);
    assert_eq!(ks.accidental_type(), KeySignatureAccidental::Sharp);
}

#[test]
fn accidental_type_reads_kind() {
    let ks = KeySignature::new(KeySignatureAccidental::Flat, 2);
    assert_eq!(ks.accidental_type(), KeySignatureAccidental::Flat);
    assert_eq!(ks.accidental_type(), ks.0);
}

#[test]
fn coin_selects_clef() {
    assert_eq!(Clef::from_coin(true), Clef::Sol);
    assert_eq!(Clef::from_coin(false), Clef::Fa);
}
