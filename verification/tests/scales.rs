use scale_engine::notation::{render, AccidentalProfile};
use scale_engine::pitch::{class_of, primary_of, spellings_of, Accidental, Letter, Spelling};
use scale_engine::scale::{build, relative_key, tone_at, Mode};

fn sp(letter: Letter, accidental: Accidental) -> Spelling {
    Spelling { letter, accidental }
}

fn rendered(p: AccidentalProfile, m: Mode, root: Spelling) -> Vec<String> {
    build(root, m)
        .degrees
        .iter()
        .map(|d| render(p, d))
        .collect()
}

#[test]
fn c_major_is_all_naturals() {
    let names = rendered(
        AccidentalProfile::Ascii,
        Mode::Major,
        sp(Letter::C, Accidental::Natural),
    );
    assert_eq!(names, vec!["C", "D", "E", "F", "G", "A", "B", "C"]);
}

#[test]
fn g_major_seventh_degree_is_f_sharp() {
    let scale = build(sp(Letter::G, Accidental::Natural), Mode::Major);
    let seventh = render(AccidentalProfile::Ascii, &scale.degrees[6]);
    assert_eq!(seventh, "F#");
    assert_ne!(seventh, "Gb");
    let letters: Vec<Letter> = scale.degrees.iter().map(|d| d.letter).collect();
    for i in 0..7 {
        for j in (i + 1)..7 {
            assert_ne!(letters[i], letters[j]);
        }
    }
}

#[test]
fn relative_major_of_a_minor_is_c() {
    let scale = build(sp(Letter::A, Accidental::Natural), Mode::Minor);
    assert_eq!(relative_key(&scale), sp(Letter::C, Accidental::Natural));
}

#[test]
fn relative_minor_of_c_major_is_a() {
    let scale = build(sp(Letter::C, Accidental::Natural), Mode::Major);
    assert_eq!(relative_key(&scale), sp(Letter::A, Accidental::Natural));
}

#[test]
fn every_primary_root_gives_an_unbroken_letter_cycle() {
    for pc in 0..12u8 {
        for mode in [Mode::Major, Mode::Minor] {
            let scale = build(primary_of(pc), mode);
            assert_eq!(scale.degrees.len(), 8);
            assert!(!scale.used_fallback);
            let letters: Vec<Letter> = scale.degrees.iter().map(|d| d.letter).collect();
            for i in 0..7 {
                for j in (i + 1)..7 {
                    assert_ne!(letters[i], letters[j]);
                }
            }
            assert_eq!(letters[7], letters[0]);
        }
    }
}

#[test]
fn enharmonic_roots_sound_the_same_scale() {
    for pc in 0..12u8 {
        for mode in [Mode::Major, Mode::Minor] {
            let reference: Vec<u8> = build(primary_of(pc), mode)
                .degrees
                .iter()
                .map(class_of)
                .collect();
            for alt in spellings_of(pc) {
                let classes: Vec<u8> = build(alt, mode).degrees.iter().map(class_of).collect();
                assert_eq!(classes, reference);
            }
        }
    }
}

#[test]
fn single_tone_query_matches_full_scale() {
    let root = sp(Letter::D, Accidental::Natural);
    let scale = build(root, Mode::Minor);
    for ordinal in 1..=8u8 {
        assert_eq!(
            tone_at(root, Mode::Minor, ordinal),
            scale.degrees[(ordinal - 1) as usize]
        );
    }
}

#[test]
fn a_flat_major_spells_with_flats() {
    let names = rendered(
        AccidentalProfile::Ascii,
        Mode::Major,
        sp(Letter::A, Accidental::Flat),
    );
    assert_eq!(names, vec!["Ab", "Bb", "C", "Db", "Eb", "F", "G", "Ab"]);
}

#[test]
fn g_sharp_major_needs_a_double_sharp() {
    let names = rendered(
        AccidentalProfile::Unicode,
        Mode::Major,
        sp(Letter::G, Accidental::Sharp),
    );
    assert_eq!(
        names,
        vec![
            "G\u{266F}",
            "A\u{266F}",
            "B\u{266F}",
            "C\u{266F}",
            "D\u{266F}",
            "E\u{266F}",
            "F\u{1D12A}",
            "G\u{266F}",
        ]
    );
}

#[test]
fn octave_wraps_back_into_the_circle() {
    let scale = build(sp(Letter::B, Accidental::Natural), Mode::Major);
    let classes: Vec<u8> = scale.degrees.iter().map(class_of).collect();
    assert_eq!(classes, vec![11, 1, 3, 4, 6, 8, 10, 11]);
}
