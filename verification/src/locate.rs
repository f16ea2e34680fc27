//! Finding a pitch class from free text: a spelling counts only when it
//! appears as a complete space-delimited token, so that one note's text is
//! never read inside another's (an `A` is not found inside `A#`).

use crate::notation::{
    lemma_render_chars, lemma_render_injective, note_char, render, render_seq, AccidentalProfile,
};
use crate::pitch::{lemma_spellings_class, spellings_of, spellings_seq, Spelling};
use vstd::prelude::*;

verus! {

/// `note` appears in `text` as a complete space-delimited token.
pub open spec fn token_match(note: Seq<char>, text: Seq<char>) -> bool {
    exists|i: int|
        0 <= i && i + note.len() <= text.len() && #[trigger] text.subrange(
            i,
            i + note.len() as int,
        ) == note && (i == 0 || text[i - 1] == ' ') && (i + note.len() == text.len() || text[i
            + note.len()] == ' ')
}

/// Relies on regex::Regex::new and regex::Regex::is_match: the pattern
/// `(^|[ ])(note)([ ]|$)` matches `text` exactly when `note` occurs in it
/// as a whole space-delimited token.  `note` holds only note characters
/// (letters and accidental symbols), so it contains no space and nothing
/// with a meaning of its own in a regular expression, and the pattern is
/// well formed.
#[verifier::external_body]
fn token_in_text(note: &str, text: &str) -> (r: bool)
    requires
        forall|i: int| 0 <= i < note@.len() ==> note_char(note@[i]),
    ensures
        r == token_match(note@, text@),
{
    let pattern = format!("(^|[ ])({})([ ]|$)", note);
    regex::Regex::new(&pattern).unwrap().is_match(text)
}

/// Some spelling of pitch class `pc` occurs in `text` as a whole token.
pub open spec fn class_matches(p: AccidentalProfile, pc: int, text: Seq<char>) -> bool {
    exists|j: int|
        0 <= j < spellings_seq(pc).len() && #[trigger] token_match(
            render_seq(p, spellings_seq(pc)[j]),
            text,
        )
}

/// The first pitch class at or after `c` that `text` names, walking the
/// circle in order.
pub open spec fn locate_class_from(p: AccidentalProfile, text: Seq<char>, c: int) -> Option<int>
    decreases 12 - c,
{
    if c >= 12 {
        None
    } else if class_matches(p, c, text) {
        Some(c)
    } else {
        locate_class_from(p, text, c + 1)
    }
}

/// The pitch class `text` names, if any: the first of the twelve whose
/// spellings give a whole-token match.
pub open spec fn locate_class(p: AccidentalProfile, text: Seq<char>) -> Option<int> {
    locate_class_from(p, text, 0)
}

/// The position, at or after `j`, of the first spelling in the class's row
/// that occurs in `text` as a whole token.
pub open spec fn class_match_index_from(
    p: AccidentalProfile,
    pc: int,
    text: Seq<char>,
    j: int,
) -> Option<int>
    decreases spellings_seq(pc).len() - j,
{
    if j < 0 || j >= spellings_seq(pc).len() {
        None
    } else if token_match(render_seq(p, spellings_seq(pc)[j]), text) {
        Some(j)
    } else {
        class_match_index_from(p, pc, text, j + 1)
    }
}

/// The spelling under which `text` names its pitch class: the first
/// matching spelling of the first matching class.
pub open spec fn locate_spelling_spec(p: AccidentalProfile, text: Seq<char>) -> Option<
    (int, Spelling),
> {
    match locate_class(p, text) {
        Some(c) => match class_match_index_from(p, c, text, 0) {
            Some(j) => Some((c, spellings_seq(c)[j])),
            None => None,
        },
        None => None,
    }
}

/// Finds the pitch class `text` names together with the spelling it used.
pub fn locate_spelling(p: AccidentalProfile, text: &str) -> (r: Option<(u8, Spelling)>)
    ensures
        match r {
            Some((pc, s)) => pc < 12 && locate_class(p, text@) == Some(pc as int)
                && locate_spelling_spec(p, text@) == Some((pc as int, s)),
            None => locate_class(p, text@) is None,
        },
{
    let mut c: u8 = 0;
    while c < 12
        invariant
            c <= 12,
            forall|x: int| 0 <= x < c ==> !class_matches(p, x, text@),
            locate_class_from(p, text@, 0) == locate_class_from(p, text@, c as int),
        decreases 12 - c,
    {
        let spellings = spellings_of(c);
        let mut j: usize = 0;
        while j < spellings.len()
            invariant
                c < 12,
                j <= spellings.len(),
                spellings@ == spellings_seq(c as int),
                locate_class_from(p, text@, 0) == locate_class_from(p, text@, c as int),
                forall|y: int|
                    0 <= y < j ==> !#[trigger] token_match(
                        render_seq(p, spellings_seq(c as int)[y]),
                        text@,
                    ),
                class_match_index_from(p, c as int, text@, 0) == class_match_index_from(
                    p,
                    c as int,
                    text@,
                    j as int,
                ),
            decreases spellings.len() - j,
        {
            let s = spellings[j];
            let rendered = render(p, &s);
            proof {
                lemma_render_chars(p, s);
            }
            if token_in_text(rendered.as_str(), text) {
                proof {
                    assert(class_matches(p, c as int, text@));
                    assert(locate_class_from(p, text@, c as int) == Some(c as int));
                    assert(class_match_index_from(p, c as int, text@, j as int) == Some(j as int));
                    assert(locate_spelling_spec(p, text@) == Some((c as int, s)));
                }
                return Some((c, s));
            }
            j = j + 1;
        }
        proof {
            assert(!class_matches(p, c as int, text@));
        }
        c = c + 1;
    }
    None
}

/// Finds the pitch class `text` names.
pub fn locate(p: AccidentalProfile, text: &str) -> (r: Option<u8>)
    ensures
        match r {
            Some(pc) => pc < 12 && locate_class(p, text@) == Some(pc as int),
            None => locate_class(p, text@) is None,
        },
{
    match locate_spelling(p, text) {
        Some((pc, _)) => Some(pc),
        None => None,
    }
}

/// Any text matches itself as a whole token.
proof fn lemma_token_match_self(note: Seq<char>)
    ensures
        token_match(note, note),
{
    assert(note.subrange(0, 0 + note.len() as int) =~= note);
}

/// A whole-token match inside space-free text is the whole text.
proof fn lemma_token_match_spaceless(note: Seq<char>, text: Seq<char>)
    requires
        token_match(note, text),
        forall|i: int| 0 <= i < text.len() ==> text[i] != ' ',
    ensures
        note == text,
{
    let i = choose|i: int|
        0 <= i && i + note.len() <= text.len() && #[trigger] text.subrange(i, i + note.len() as int)
            == note && (i == 0 || text[i - 1] == ' ') && (i + note.len() == text.len() || text[i
            + note.len()] == ' ');
    assert(i == 0);
    assert(i + note.len() == text.len());
    assert(text.subrange(0, text.len() as int) =~= text);
}

proof fn lemma_locate_from_skip(p: AccidentalProfile, text: Seq<char>, c: int, target: int)
    requires
        0 <= c <= target <= 12,
        forall|x: int| c <= x < target ==> !class_matches(p, x, text),
    ensures
        locate_class_from(p, text, c) == locate_class_from(p, text, target),
    decreases target - c,
{
    if c < target {
        lemma_locate_from_skip(p, text, c + 1, target);
    }
}

/// Locating a rendered spelling finds the spelling's own pitch class: on
/// the table's own text, lookup is a left inverse of the table.
pub proof fn lemma_locate_inverts_spellings(p: AccidentalProfile, pc: int, s: Spelling)
    requires
        0 <= pc < 12,
        spellings_seq(pc).contains(s),
    ensures
        locate_class(p, render_seq(p, s)) == Some(pc),
{
    let text = render_seq(p, s);
    lemma_render_chars(p, s);
    assert forall|i: int| 0 <= i < text.len() implies text[i] != ' ' by {
        assert(note_char(text[i]));
    }
    let j = choose|j: int| 0 <= j < spellings_seq(pc).len() && spellings_seq(pc)[j] == s;
    lemma_token_match_self(text);
    assert(render_seq(p, spellings_seq(pc)[j]) == text);
    assert(token_match(render_seq(p, spellings_seq(pc)[j]), text));
    assert(class_matches(p, pc, text));
    assert forall|c: int| 0 <= c < pc implies !class_matches(p, c, text) by {
        if class_matches(p, c, text) {
            let jj = choose|jj: int|
                0 <= jj < spellings_seq(c).len() && #[trigger] token_match(
                    render_seq(p, spellings_seq(c)[jj]),
                    text,
                );
            let s2 = spellings_seq(c)[jj];
            lemma_token_match_spaceless(render_seq(p, s2), text);
            lemma_render_injective(p, s2, s);
            assert(spellings_seq(c).contains(s2));
            lemma_spellings_class(c, s2);
            lemma_spellings_class(pc, s);
        }
    }
    lemma_locate_from_skip(p, text, 0, pc);
}

} // verus!
