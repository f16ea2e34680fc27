use scale_engine::grade::Verdict;
use scale_engine::notation::{render, AccidentalProfile};
use scale_engine::pitch::{Accidental, Letter, Spelling};
use scale_engine::scale::Mode;
use scale_engine::trainer::{answer_scale, answer_tone, grade_answer, UserAnswer};
use scale_engine::EngineError;

fn sp(letter: Letter, accidental: Accidental) -> Spelling {
    Spelling { letter, accidental }
}

#[test]
fn seventh_tone_of_g_major() {
    let tone = answer_tone(AccidentalProfile::Ascii, "G", Mode::Major, 7).unwrap();
    assert_eq!(tone, sp(Letter::F, Accidental::Sharp));
}

#[test]
fn invalid_root_is_an_error_value() {
    assert_eq!(
        answer_tone(AccidentalProfile::Ascii, "X", Mode::Major, 2),
        Err(EngineError::InvalidRoot)
    );
    assert!(answer_scale(AccidentalProfile::Ascii, "", Mode::Minor).is_err());
}

#[test]
fn scale_answered_from_free_text() {
    let scale = answer_scale(AccidentalProfile::Unicode, "E\u{266D} major", Mode::Major).unwrap();
    let names: Vec<String> = scale
        .degrees
        .iter()
        .map(|d| render(AccidentalProfile::Unicode, d))
        .collect();
    assert_eq!(
        names,
        vec![
            "E\u{266D}",
            "F",
            "G",
            "A\u{266D}",
            "B\u{266D}",
            "C",
            "D",
            "E\u{266D}",
        ]
    );
}

#[test]
fn graded_round_single_tone() {
    let p = AccidentalProfile::Ascii;
    let scale = answer_scale(p, "C", Mode::Major).unwrap();
    let answer = UserAnswer::SimpleString("e".to_string());
    assert_eq!(grade_answer(p, &scale, 3, &answer), Verdict::Exact);
    let blank = UserAnswer::SimpleString("".to_string());
    assert_eq!(grade_answer(p, &scale, 3, &blank), Verdict::NoAnswer);
}

#[test]
fn graded_round_full_scale() {
    let p = AccidentalProfile::Ascii;
    let scale = answer_scale(p, "A", Mode::Minor).unwrap();
    let answer = UserAnswer::VecOfStrings(
        ["A", "B", "C", "D", "E", "F", "G", "A"].iter().map(|s| s.to_string()).collect(),
    );
    assert_eq!(grade_answer(p, &scale, 4, &answer), Verdict::Exact);
}
