//! The question-and-answer round: drawing a question from the player's
//! note set, resolving a root text to a scale or a single tone, grading
//! whatever was answered, and recognising the exit words.

use crate::grade::{grade_scale, grade_single, scale_grade, single_grade, Verdict};
use crate::locate::{locate_class, locate_spelling, locate_spelling_spec};
use crate::notation::{render, render_seq, str_eq, AccidentalProfile};
use crate::pitch::Spelling;
use crate::scale::{build, scale_seq, tone_at, Mode, Scale};
use crate::EngineError;
use vstd::prelude::*;
use vstd::string::*;

verus! {

/// An answer as the interactive layer hands it over: one token for a
/// single-tone exercise, a token list for a full-scale exercise.
#[derive(Debug)]
pub enum UserAnswer {
    SimpleString(String),
    VecOfStrings(Vec<String>),
}

/// The two exercise shapes.
#[derive(Clone, Copy, PartialEq, Eq, Structural, Debug)]
pub enum ExerciseKind {
    /// Name one degree of a scale.
    SingleTone,
    /// Write out the whole scale.
    FullScale,
}

/// What an exercise-menu input means.
#[derive(Clone, Copy, PartialEq, Eq, Structural, Debug)]
pub enum ExerciseSelection {
    Chosen(ExerciseKind),
    Quit,
    Invalid,
}

/// One of the words that end the session.
pub open spec fn is_exit_word(s: Seq<char>) -> bool {
    s == "exit"@ || s == "quit"@ || s == "q"@
}

/// The answer consists of or contains an exit word.
pub open spec fn contains_exit_word(ans: UserAnswer) -> bool {
    match ans {
        UserAnswer::SimpleString(v) => is_exit_word(v@),
        UserAnswer::VecOfStrings(v) => exists|i: int|
            0 <= i < v.len() && is_exit_word((#[trigger] v[i])@),
    }
}

fn is_exit_str(s: &str) -> (r: bool)
    ensures
        r == is_exit_word(s@),
{
    str_eq(s, "exit") || str_eq(s, "quit") || str_eq(s, "q")
}

/// Whether the player asked to leave: a lone exit word, or an exit word
/// among the tokens of a full-scale answer.
pub fn user_input_contains_exit_word(user_answer: &UserAnswer) -> (r: bool)
    ensures
        r == contains_exit_word(*user_answer),
{
    match user_answer {
        UserAnswer::SimpleString(value) => is_exit_str(value.as_str()),
        UserAnswer::VecOfStrings(values) => {
            let mut i: usize = 0;
            while i < values.len()
                invariant
                    i <= values.len(),
                    *user_answer matches UserAnswer::VecOfStrings(v) && v == *values,
                    forall|y: int| 0 <= y < i ==> !is_exit_word((#[trigger] values@[y])@),
                decreases values.len() - i,
            {
                if is_exit_str(values[i].as_str()) {
                    proof {
                        assert(*user_answer matches UserAnswer::VecOfStrings(v) && is_exit_word(
                            (v[i as int])@,
                        ));
                    }
                    return true;
                }
                i = i + 1;
            }
            false
        },
    }
}

/// The meaning of an exercise-menu input.
pub open spec fn exercise_selection(s: Seq<char>) -> ExerciseSelection {
    if s == "1"@ {
        ExerciseSelection::Chosen(ExerciseKind::SingleTone)
    } else if s == "2"@ {
        ExerciseSelection::Chosen(ExerciseKind::FullScale)
    } else if is_exit_word(s) {
        ExerciseSelection::Quit
    } else {
        ExerciseSelection::Invalid
    }
}

/// Reads an exercise-menu input: `1` asks for single tones, `2` for whole
/// scales, an exit word quits, anything else is invalid.
pub fn parse_exercise_selection(input: &str) -> (r: ExerciseSelection)
    ensures
        r == exercise_selection(input@),
{
    if str_eq(input, "1") {
        ExerciseSelection::Chosen(ExerciseKind::SingleTone)
    } else if str_eq(input, "2") {
        ExerciseSelection::Chosen(ExerciseKind::FullScale)
    } else if is_exit_str(input) {
        ExerciseSelection::Quit
    } else {
        ExerciseSelection::Invalid
    }
}

/// Relies on rand::thread_rng and rand::Rng::gen_range: one draw from the
/// thread-local generator over a non-empty inclusive range.  The result
/// lies within the range; nothing more is promised of a random value.
#[verifier::external_body]
fn random_in_range(lo: usize, hi: usize) -> (r: usize)
    requires
        lo <= hi,
    ensures
        lo <= r <= hi,
{
    rand::Rng::gen_range(&mut rand::thread_rng(), lo..=hi)
}

/// Draws a question: a tone ordinal between two and seven — degrees one
/// and eight are never asked, being trivially the root — and one entry of
/// the player's note set.  An empty note set is refused, never drawn from.
pub fn ask(note_set: &Vec<String>) -> (r: Result<(u8, String), EngineError>)
    ensures
        r is Ok <==> note_set.len() > 0,
        r matches Err(e) ==> e == EngineError::EmptyNoteSet,
        r matches Ok(q) ==> 2 <= q.0 <= 7 && exists|i: int|
            0 <= i < note_set.len() && (#[trigger] note_set@[i])@ == q.1@,
{
    if note_set.len() == 0 {
        return Err(EngineError::EmptyNoteSet);
    }
    let ordinal = random_in_range(2, 7);
    let idx = random_in_range(0, note_set.len() - 1);
    let entry = note_set[idx].clone();
    Ok((ordinal as u8, entry))
}

/// The position of the first space in `s` at or after `from`.
pub open spec fn first_space(s: Seq<char>, from: int) -> Option<int>
    decreases s.len() - from,
{
    if from < 0 || from >= s.len() {
        None
    } else if s[from] == ' ' {
        Some(from)
    } else {
        first_space(s, from + 1)
    }
}

/// The name of a mode, as a note-set entry writes it.
pub open spec fn mode_name(m: Mode) -> Seq<char> {
    match m {
        Mode::Major => "major"@,
        Mode::Minor => "minor"@,
    }
}

/// The reading of a note-set entry: the text before the first space is the
/// root, the text after it must name a mode.
pub open spec fn parse_entry(s: Seq<char>) -> Option<(Seq<char>, Mode)> {
    match first_space(s, 0) {
        None => None,
        Some(i) => {
            let root = s.subrange(0, i);
            let rest = s.subrange(i + 1, s.len() as int);
            if rest == "major"@ {
                Some((root, Mode::Major))
            } else if rest == "minor"@ {
                Some((root, Mode::Minor))
            } else {
                None
            }
        },
    }
}

/// Splits a note-set entry such as a root text followed by `major` or
/// `minor` into its root text and mode.
pub fn parse_note_entry(entry: &str) -> (r: Option<(String, Mode)>)
    ensures
        match r {
            Some(parts) => parse_entry(entry@) == Some((parts.0@, parts.1)),
            None => parse_entry(entry@) is None,
        },
{
    let len = entry.unicode_len();
    let mut i: usize = 0;
    while i < len
        invariant
            i <= len,
            len == entry@.len(),
            first_space(entry@, 0) == first_space(entry@, i as int),
        decreases len - i,
    {
        if entry.get_char(i) == ' ' {
            let root = entry.substring_char(0, i);
            let rest = entry.substring_char(i + 1, len);
            if str_eq(rest, "major") {
                return Some((String::from_str(root), Mode::Major));
            }
            if str_eq(rest, "minor") {
                return Some((String::from_str(root), Mode::Minor));
            }
            return None;
        }
        i = i + 1;
    }
    None
}

/// Writes a note-set entry: the rendered root, a space, the mode's name.
pub fn note_entry(p: AccidentalProfile, root: &Spelling, m: Mode) -> (r: String)
    ensures
        r@ == render_seq(p, *root) + seq![' '] + mode_name(m),
{
    proof {
        reveal_strlit(" ");
    }
    let mut text = render(p, root);
    text.append(" ");
    let r = match m {
        Mode::Major => text.concat("major"),
        Mode::Minor => text.concat("minor"),
    };
    assert(r@ =~= render_seq(p, *root) + seq![' '] + mode_name(m));
    r
}

/// Resolves a root text and derives the whole scale on it.  A text that
/// names no pitch class is an invalid root, reported as a value.
pub fn answer_scale(p: AccidentalProfile, root_text: &str, mode: Mode) -> (r: Result<
    Scale,
    EngineError,
>)
    ensures
        r is Ok <==> locate_class(p, root_text@) is Some,
        r matches Err(e) ==> e == EngineError::InvalidRoot,
        r matches Ok(sc) ==> sc.wf() && sc.mode == mode && (locate_spelling_spec(p, root_text@)
            matches Some(ls) && sc.root == ls.1),
{
    match locate_spelling(p, root_text) {
        Some((_, s)) => Ok(build(s, mode)),
        None => Err(EngineError::InvalidRoot),
    }
}

/// Resolves a root text and answers the single requested degree of the
/// scale on it.
pub fn answer_tone(p: AccidentalProfile, root_text: &str, mode: Mode, ordinal: u8) -> (r: Result<
    Spelling,
    EngineError,
>)
    requires
        1 <= ordinal <= 8,
    ensures
        r is Ok <==> locate_class(p, root_text@) is Some,
        r matches Err(e) ==> e == EngineError::InvalidRoot,
        r matches Ok(t) ==> (locate_spelling_spec(p, root_text@) matches Some(ls) && t == scale_seq(
            ls.1,
            mode,
        )[ordinal as int - 1]),
{
    match locate_spelling(p, root_text) {
        Some((_, s)) => Ok(tone_at(s, mode, ordinal)),
        None => Err(EngineError::InvalidRoot),
    }
}

/// Grades whatever was answered: a lone token is held against the asked
/// degree, a token list against the whole scale.
pub fn grade_answer(p: AccidentalProfile, expected: &Scale, tone_to_find: u8, answer: &UserAnswer)
    -> (r: Verdict)
    requires
        1 <= tone_to_find <= 8,
        expected.degrees@.len() == 8,
    ensures
        r == match *answer {
            UserAnswer::SimpleString(v) => single_grade(
                p,
                expected.degrees@[tone_to_find as int - 1],
                v@,
            ),
            UserAnswer::VecOfStrings(v) => scale_grade(p, expected.degrees@, v@),
        },
{
    match answer {
        UserAnswer::SimpleString(v) => grade_single(
            p,
            &expected.degrees[(tone_to_find - 1) as usize],
            v.as_str(),
        ),
        UserAnswer::VecOfStrings(v) => grade_scale(p, &expected.degrees, v),
    }
}

} // verus!
