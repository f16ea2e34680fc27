use scale_engine::notation::{render, AccidentalProfile};
use scale_engine::pitch::{spellings_of, Accidental, Letter, Spelling};
use scale_engine::scale::Mode;
use scale_engine::trainer::{
    ask, note_entry, parse_exercise_selection, parse_note_entry, user_input_contains_exit_word,
    ExerciseKind, ExerciseSelection, UserAnswer,
};
use scale_engine::locate::{locate, locate_spelling};
use scale_engine::EngineError;

fn sp(letter: Letter, accidental: Accidental) -> Spelling {
    Spelling { letter, accidental }
}

#[test]
fn locate_finds_every_table_spelling() {
    for p in [AccidentalProfile::Unicode, AccidentalProfile::Ascii] {
        for pc in 0..12u8 {
            for s in spellings_of(pc) {
                let text = render(p, &s);
                assert_eq!(locate(p, text.as_str()), Some(pc));
            }
        }
    }
}

#[test]
fn locate_matches_whole_tokens_only() {
    let p = AccidentalProfile::Ascii;
    assert_eq!(locate(p, "A"), Some(9));
    assert_eq!(locate(p, "A#"), Some(10));
    assert_eq!(locate(p, "A# major"), Some(10));
    assert_eq!(locate(p, "xxAyy"), None);
    assert_eq!(locate(p, "xx A yy"), Some(9));
    assert_eq!(locate(p, "H"), None);
    assert_eq!(locate(p, ""), None);
}

#[test]
fn locate_reports_the_spelling_it_matched() {
    let p = AccidentalProfile::Ascii;
    let found = locate_spelling(p, "Gb major");
    assert_eq!(found, Some((6, sp(Letter::G, Accidental::Flat))));
    let primary_first = locate_spelling(p, "F#");
    assert_eq!(primary_first, Some((6, sp(Letter::F, Accidental::Sharp))));
}

#[test]
fn note_entries_round_trip() {
    for p in [AccidentalProfile::Unicode, AccidentalProfile::Ascii] {
        for pc in 0..12u8 {
            for s in spellings_of(pc) {
                for mode in [Mode::Major, Mode::Minor] {
                    let entry = note_entry(p, &s, mode);
                    let parsed = parse_note_entry(entry.as_str());
                    assert_eq!(parsed, Some((render(p, &s), mode)));
                }
            }
        }
    }
}

#[test]
fn malformed_note_entries_are_rejected() {
    assert_eq!(parse_note_entry("C"), None);
    assert_eq!(parse_note_entry("C dorian"), None);
    assert_eq!(parse_note_entry(""), None);
}

#[test]
fn ask_never_returns_ordinal_one_or_eight() {
    let set: Vec<String> = ["C major", "A minor", "F# major"].iter().map(|s| s.to_string()).collect();
    for _ in 0..300 {
        let (ordinal, entry) = ask(&set).unwrap();
        assert!(ordinal != 1 && ordinal != 8);
        assert!((2..=7).contains(&ordinal));
        assert!(set.contains(&entry));
    }
}

#[test]
fn ask_refuses_an_empty_note_set() {
    let set: Vec<String> = vec![];
    assert_eq!(ask(&set), Err(EngineError::EmptyNoteSet));
}

#[test]
fn exit_words_are_recognised() {
    for word in ["exit", "quit", "q"] {
        let answer = UserAnswer::SimpleString(word.to_string());
        assert!(user_input_contains_exit_word(&answer));
    }
    let answer = UserAnswer::SimpleString("exits".to_string());
    assert!(!user_input_contains_exit_word(&answer));
    let tokens = UserAnswer::VecOfStrings(vec!["C".to_string(), "exit".to_string()]);
    assert!(user_input_contains_exit_word(&tokens));
    let empty = UserAnswer::VecOfStrings(vec![]);
    assert!(!user_input_contains_exit_word(&empty));
}

#[test]
fn exercise_menu_choices() {
    assert_eq!(
        parse_exercise_selection("1"),
        ExerciseSelection::Chosen(ExerciseKind::SingleTone)
    );
    assert_eq!(
        parse_exercise_selection("2"),
        ExerciseSelection::Chosen(ExerciseKind::FullScale)
    );
    assert_eq!(parse_exercise_selection("q"), ExerciseSelection::Quit);
    assert_eq!(parse_exercise_selection("3"), ExerciseSelection::Invalid);
}
