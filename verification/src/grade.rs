//! Grading an answer against the computed one: exact after canonical
//! simplification, enharmonically equal (the sound is right, the spelling
//! is not), wrong, or no answer supplied.

use crate::notation::{ieq_seq, ieq_str, render, render_seq, simplify, simplify_seq, AccidentalProfile};
use crate::pitch::{class_of, spelling_class, spellings_of, spellings_seq, Spelling};
use vstd::prelude::*;
use vstd::string::*;

verus! {

/// The outcome of grading an answer.
#[derive(Clone, Copy, PartialEq, Eq, Structural, Debug)]
pub enum Verdict {
    /// Letter and accidental agree after simplification.
    Exact,
    /// The answer names the right pitch class under another spelling.
    EnharmonicOnly,
    /// Neither exact nor enharmonically equal.
    Wrong,
    /// Nothing was answered, so nothing is graded.
    NoAnswer,
}

/// The verdict on a single-tone answer: exact when the simplified forms
/// agree apart from letter case; enharmonically equal when the simplified
/// answer names any spelling of the expected tone's pitch class; wrong
/// otherwise; and no verdict for an empty answer.
pub open spec fn single_grade(p: AccidentalProfile, expected: Spelling, candidate: Seq<char>) -> Verdict {
    if candidate.len() == 0 {
        Verdict::NoAnswer
    } else if ieq_seq(simplify_seq(p, candidate), simplify_seq(p, render_seq(p, expected))) {
        Verdict::Exact
    } else if exists|j: int|
        0 <= j < spellings_seq(spelling_class(expected)).len() && ieq_seq(
            simplify_seq(p, candidate),
            simplify_seq(p, #[trigger] render_seq(p, spellings_seq(spelling_class(expected))[j])),
        ) {
        Verdict::EnharmonicOnly
    } else {
        Verdict::Wrong
    }
}

/// The verdict on a full-scale answer: every degree must agree with the
/// expected spelling after simplification, apart from letter case; a
/// mismatch in length or in any degree is wrong; an empty answer gets no
/// verdict.
pub open spec fn scale_grade(p: AccidentalProfile, expected: Seq<Spelling>, candidate: Seq<String>) -> Verdict {
    if candidate.len() == 0 {
        Verdict::NoAnswer
    } else if candidate.len() == expected.len() && (forall|i: int|
        0 <= i < expected.len() ==> ieq_seq(
            simplify_seq(p, (#[trigger] candidate[i])@),
            simplify_seq(p, render_seq(p, expected[i])),
        )) {
        Verdict::Exact
    } else {
        Verdict::Wrong
    }
}

/// Grades a single-tone answer against the expected spelling.
pub fn grade_single(p: AccidentalProfile, expected: &Spelling, candidate: &str) -> (r: Verdict)
    ensures
        r == single_grade(p, *expected, candidate@),
{
    if candidate.unicode_len() == 0 {
        return Verdict::NoAnswer;
    }
    let cand = simplify(p, candidate);
    let shown = render(p, expected);
    let exp = simplify(p, shown.as_str());
    if ieq_str(cand.as_str(), exp.as_str()) {
        return Verdict::Exact;
    }
    let pc = class_of(expected);
    let spellings = spellings_of(pc);
    let ghost epc = spelling_class(*expected);
    let mut j: usize = 0;
    while j < spellings.len()
        invariant
            j <= spellings.len(),
            spellings@ == spellings_seq(epc),
            epc == spelling_class(*expected),
            candidate@.len() != 0,
            cand@ == simplify_seq(p, candidate@),
            !ieq_seq(simplify_seq(p, candidate@), simplify_seq(p, render_seq(p, *expected))),
            forall|y: int|
                0 <= y < j ==> !ieq_seq(
                    simplify_seq(p, candidate@),
                    simplify_seq(p, #[trigger] render_seq(p, spellings_seq(epc)[y])),
                ),
        decreases spellings.len() - j,
    {
        let alt = render(p, &spellings[j]);
        let alt_simple = simplify(p, alt.as_str());
        if ieq_str(cand.as_str(), alt_simple.as_str()) {
            proof {
                assert(ieq_seq(
                    simplify_seq(p, candidate@),
                    simplify_seq(p, render_seq(p, spellings_seq(epc)[j as int])),
                ));
            }
            return Verdict::EnharmonicOnly;
        }
        j = j + 1;
    }
    Verdict::Wrong
}

/// Grades a full-scale answer, degree by degree, against the expected
/// spellings.
pub fn grade_scale(p: AccidentalProfile, expected: &Vec<Spelling>, candidate: &Vec<String>) -> (r:
    Verdict)
    ensures
        r == scale_grade(p, expected@, candidate@),
{
    if candidate.len() == 0 {
        return Verdict::NoAnswer;
    }
    if candidate.len() != expected.len() {
        return Verdict::Wrong;
    }
    let mut i: usize = 0;
    while i < expected.len()
        invariant
            i <= expected.len(),
            candidate@.len() == expected@.len(),
            forall|y: int|
                0 <= y < i ==> ieq_seq(
                    simplify_seq(p, (#[trigger] candidate@[y])@),
                    simplify_seq(p, render_seq(p, expected@[y])),
                ),
        decreases expected.len() - i,
    {
        let cand = simplify(p, candidate[i].as_str());
        let shown = render(p, &expected[i]);
        let exp = simplify(p, shown.as_str());
        if !ieq_str(cand.as_str(), exp.as_str()) {
            return Verdict::Wrong;
        }
        i = i + 1;
    }
    Verdict::Exact
}

} // verus!
