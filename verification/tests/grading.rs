use scale_engine::grade::{grade_scale, grade_single, Verdict};
use scale_engine::notation::{simplify, AccidentalProfile};
use scale_engine::pitch::{Accidental, Letter, Spelling};
use scale_engine::scale::{build, Mode};

fn sp(letter: Letter, accidental: Accidental) -> Spelling {
    Spelling { letter, accidental }
}

#[test]
fn simplify_maps_unicode_marks_to_ascii() {
    let p = AccidentalProfile::Unicode;
    assert_eq!(simplify(p, "F\u{266F}"), "F#");
    assert_eq!(simplify(p, "B\u{266D}"), "Bb");
    assert_eq!(simplify(p, "C\u{1D12A}"), "C##");
    assert_eq!(simplify(p, "D\u{1D12B}"), "Dbb");
    assert_eq!(simplify(p, "E"), "E");
}

#[test]
fn simplify_checks_double_marks_before_single_ones() {
    assert_eq!(simplify(AccidentalProfile::Ascii, "F##"), "F##");
    assert_eq!(simplify(AccidentalProfile::Ascii, "Abb"), "Abb");
    assert_eq!(simplify(AccidentalProfile::Ascii, "F#"), "F#");
    assert_eq!(simplify(AccidentalProfile::Ascii, "Ab"), "Ab");
}

#[test]
fn simplify_is_idempotent_on_note_text() {
    let samples = ["C", "C#", "Gb", "A##", "Bbb", "F\u{266F}", "G\u{266D}", "E\u{1D12B}"];
    for p in [AccidentalProfile::Unicode, AccidentalProfile::Ascii] {
        for s in samples {
            let once = simplify(p, s);
            let twice = simplify(p, once.as_str());
            assert_eq!(twice, once);
        }
    }
}

#[test]
fn enharmonic_answer_is_recognised_but_not_exact() {
    let verdict = grade_single(
        AccidentalProfile::Ascii,
        &sp(Letter::F, Accidental::Sharp),
        "Gb",
    );
    assert_eq!(verdict, Verdict::EnharmonicOnly);
}

#[test]
fn exact_answer_beats_enharmonic() {
    let p = AccidentalProfile::Unicode;
    let expected = sp(Letter::F, Accidental::Sharp);
    assert_eq!(grade_single(p, &expected, "F\u{266F}"), Verdict::Exact);
    assert_eq!(grade_single(p, &expected, "F#"), Verdict::Exact);
    assert_eq!(grade_single(p, &expected, "f#"), Verdict::Exact);
}

#[test]
fn wrong_answer_is_wrong() {
    let p = AccidentalProfile::Ascii;
    let expected = sp(Letter::F, Accidental::Sharp);
    assert_eq!(grade_single(p, &expected, "G"), Verdict::Wrong);
    assert_eq!(grade_single(p, &expected, "Fb"), Verdict::Wrong);
}

#[test]
fn empty_single_answer_gets_no_verdict() {
    let verdict = grade_single(
        AccidentalProfile::Ascii,
        &sp(Letter::C, Accidental::Natural),
        "",
    );
    assert_eq!(verdict, Verdict::NoAnswer);
}

#[test]
fn empty_scale_answer_gets_no_verdict() {
    let scale = build(sp(Letter::C, Accidental::Natural), Mode::Major);
    let answer: Vec<String> = vec![];
    let verdict = grade_scale(AccidentalProfile::Ascii, &scale.degrees, &answer);
    assert_eq!(verdict, Verdict::NoAnswer);
}

#[test]
fn full_scale_answer_graded_in_order() {
    let scale = build(sp(Letter::C, Accidental::Natural), Mode::Major);
    let right: Vec<String> =
        ["c", "d", "e", "f", "g", "a", "b", "c"].iter().map(|s| s.to_string()).collect();
    assert_eq!(
        grade_scale(AccidentalProfile::Ascii, &scale.degrees, &right),
        Verdict::Exact
    );
    let reordered: Vec<String> =
        ["D", "C", "E", "F", "G", "A", "B", "C"].iter().map(|s| s.to_string()).collect();
    assert_eq!(
        grade_scale(AccidentalProfile::Ascii, &scale.degrees, &reordered),
        Verdict::Wrong
    );
    let short: Vec<String> = ["C", "D", "E"].iter().map(|s| s.to_string()).collect();
    assert_eq!(
        grade_scale(AccidentalProfile::Ascii, &scale.degrees, &short),
        Verdict::Wrong
    );
}

#[test]
fn full_scale_answer_accepts_profile_marks() {
    let scale = build(sp(Letter::G, Accidental::Natural), Mode::Major);
    let answer: Vec<String> =
        ["G", "A", "B", "C", "D", "E", "F\u{266F}", "G"].iter().map(|s| s.to_string()).collect();
    assert_eq!(
        grade_scale(AccidentalProfile::Unicode, &scale.degrees, &answer),
        Verdict::Exact
    );
}
