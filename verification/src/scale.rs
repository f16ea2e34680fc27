//! Deriving a diatonic scale from a root spelling: walk the chromatic
//! circle by the mode's interval formula and, at every step, pick the
//! spelling whose letter continues the unbroken seven-letter cycle.  Where
//! the table has no spelling with the required letter, the step falls back
//! to the primary spelling and the scale is flagged.

use crate::pitch::{
    class_of, letter_at_index, letter_index, letter_index_of, letter_of_index, letter_spelling_at,
    lemma_primary_class, lemma_with_letter_class, primary_of, primary_spelling, spelling_class,
    spelling_with_letter, wrap12, Letter, Spelling,
};
use vstd::prelude::*;

verus! {

/// The two supported modes.
#[derive(Clone, Copy, PartialEq, Eq, Structural, Debug)]
pub enum Mode {
    Major,
    Minor,
}

/// Step `i` of a mode's interval formula, in semitones: the major formula
/// is W-W-H-W-W-W-H, the natural-minor formula W-H-W-W-H-W-W.
pub open spec fn formula_step(m: Mode, i: int) -> int {
    match m {
        Mode::Major => if i == 2 || i == 6 {
            1
        } else {
            2
        },
        Mode::Minor => if i == 1 || i == 4 {
            1
        } else {
            2
        },
    }
}

/// The sum of the first `k` formula steps.
pub open spec fn formula_sum(m: Mode, k: int) -> int
    decreases k,
{
    if k <= 0 {
        0
    } else {
        formula_sum(m, k - 1) + formula_step(m, k - 1)
    }
}

/// Brings a letter position at most one cycle out of range back into [0, 7).
pub open spec fn wrap7(x: int) -> int {
    if x >= 7 {
        x - 7
    } else {
        x
    }
}

/// The pitch class of degree `k + 1` of a scale on a root class.
pub open spec fn degree_class(root_pc: int, m: Mode, k: int) -> int
    decreases k,
{
    if k <= 0 {
        root_pc
    } else {
        wrap12(degree_class(root_pc, m, k - 1) + formula_step(m, k - 1))
    }
}

/// The letter degree `k + 1` must carry: the `k`-th successor of the root's
/// letter in the cyclic alphabet.
pub open spec fn degree_letter(root_letter: Letter, k: int) -> Letter {
    letter_of_index(wrap7(letter_index(root_letter) + k))
}

/// The spelling of degree `k + 1`: the root itself, or the spelling of the
/// degree's class that carries the required letter, or — where the table
/// offers none — the class's primary spelling.
pub open spec fn degree_spelling(root: Spelling, m: Mode, k: int) -> Spelling {
    if k == 0 {
        root
    } else {
        let pc = degree_class(spelling_class(root), m, k);
        match spelling_with_letter(pc, degree_letter(root.letter, k)) {
            Some(s) => s,
            None => primary_spelling(pc),
        }
    }
}

/// The eight degrees of the scale on `root`.
pub open spec fn scale_seq(root: Spelling, m: Mode) -> Seq<Spelling> {
    Seq::new(8, |k: int| degree_spelling(root, m, k))
}

/// No step among the first `k` degrees needed the primary-spelling fallback.
pub open spec fn gap_ok_upto(root: Spelling, m: Mode, k: int) -> bool
    decreases k,
{
    if k <= 1 {
        true
    } else {
        gap_ok_upto(root, m, k - 1) && spelling_with_letter(
            degree_class(spelling_class(root), m, k - 1),
            degree_letter(root.letter, k - 1),
        ) is Some
    }
}

/// Every degree of the scale on `root` finds a spelling with the required
/// letter: the letter cycle is unbroken.
pub open spec fn gap_free(root: Spelling, m: Mode) -> bool {
    gap_ok_upto(root, m, 8)
}

/// A derived scale: the root, the mode, the eight degree spellings (degree
/// eight is the octave of the root), and whether any step fell back to a
/// primary spelling for want of a letter-matching one.
pub struct Scale {
    pub root: Spelling,
    pub mode: Mode,
    pub degrees: Vec<Spelling>,
    pub used_fallback: bool,
}

impl Scale {
    /// The degrees are exactly those the scale derivation yields, and the
    /// fallback flag reports whether the letter cycle broke.
    pub open spec fn wf(self) -> bool {
        &&& self.degrees@ == scale_seq(self.root, self.mode)
        &&& self.used_fallback == !gap_free(self.root, self.mode)
    }
}

/// Derives the full eight-tone scale on `root`.
pub fn build(root: Spelling, mode: Mode) -> (r: Scale)
    ensures
        r.root == root,
        r.mode == mode,
        r.wf(),
        r.degrees@.len() == 8,
{
    let ghost rc = spelling_class(root);
    let mut degrees: Vec<Spelling> = Vec::new();
    degrees.push(root);
    let mut pc: u8 = class_of(&root);
    let mut li: u8 = letter_index_of(root.letter);
    let mut fallback = false;
    let mut k: u8 = 1;
    while k < 8
        invariant
            1 <= k <= 8,
            pc < 12,
            li < 7,
            pc as int == degree_class(rc, mode, k as int - 1),
            li as int == wrap7(letter_index(root.letter) + k as int - 1),
            rc == spelling_class(root),
            degrees@ == scale_seq(root, mode).subrange(0, k as int),
            fallback == !gap_ok_upto(root, mode, k as int),
        decreases 8 - k,
    {
        let step: u8 = match mode {
            Mode::Major => if k == 3 || k == 7 {
                1
            } else {
                2
            },
            Mode::Minor => if k == 2 || k == 5 {
                1
            } else {
                2
            },
        };
        assert(step as int == formula_step(mode, k as int - 1));
        let npc_raw = pc + step;
        let npc = if npc_raw >= 12 {
            npc_raw - 12
        } else {
            npc_raw
        };
        assert(npc as int == degree_class(rc, mode, k as int));
        let nli_raw = li + 1;
        let nli = if nli_raw >= 7 {
            nli_raw - 7
        } else {
            nli_raw
        };
        assert(nli as int == wrap7(letter_index(root.letter) + k as int));
        let wanted = letter_at_index(nli);
        assert(wanted == degree_letter(root.letter, k as int));
        let chosen = match letter_spelling_at(npc, wanted) {
            Some(s) => s,
            None => {
                fallback = true;
                primary_of(npc)
            },
        };
        assert(chosen == degree_spelling(root, mode, k as int));
        degrees.push(chosen);
        assert(degrees@ =~= scale_seq(root, mode).subrange(0, k as int + 1));
        pc = npc;
        li = nli;
        k = k + 1;
    }
    assert(degrees@ =~= scale_seq(root, mode));
    Scale { root, mode, degrees, used_fallback: fallback }
}

/// The single tone at `ordinal` (1 = the root, 8 = its octave) of the scale
/// on `root`.
pub fn tone_at(root: Spelling, mode: Mode, ordinal: u8) -> (r: Spelling)
    requires
        1 <= ordinal <= 8,
    ensures
        r == scale_seq(root, mode)[ordinal as int - 1],
{
    let sc = build(root, mode);
    sc.degrees[(ordinal - 1) as usize]
}

/// The root spelling of the relative key: degree six of a major scale is
/// the root of its relative minor; degree three of a minor scale is the
/// root of its relative major.
pub fn relative_key(scale: &Scale) -> (r: Spelling)
    requires
        scale.degrees@.len() == 8,
    ensures
        r == match scale.mode {
            Mode::Major => scale.degrees@[5],
            Mode::Minor => scale.degrees@[2],
        },
{
    match scale.mode {
        Mode::Major => scale.degrees[5],
        Mode::Minor => scale.degrees[2],
    }
}

/// The seven steps of either formula span exactly one octave.
pub proof fn lemma_formula_sum()
    ensures
        formula_sum(Mode::Major, 7) == 12,
        formula_sum(Mode::Minor, 7) == 12,
{
    reveal_with_fuel(formula_sum, 8);
    assert(formula_sum(Mode::Major, 7) == 12 && formula_sum(Mode::Minor, 7) == 12);
}

/// Degree classes stay within the circle.
pub proof fn lemma_degree_class_range(root_pc: int, m: Mode, k: int)
    requires
        0 <= root_pc < 12,
        0 <= k,
    ensures
        0 <= degree_class(root_pc, m, k) < 12,
    decreases k,
{
    if k > 0 {
        lemma_degree_class_range(root_pc, m, k - 1);
    }
}

/// Every spelling resolves to a class within the circle.
pub proof fn lemma_class_range(s: Spelling)
    ensures
        0 <= spelling_class(s) < 12,
{
}

/// Each degree of a scale sounds the pitch class the formula dictates,
/// whatever spelling was picked for it.
pub proof fn lemma_scale_classes(root: Spelling, m: Mode, k: int)
    requires
        0 <= k < 8,
    ensures
        spelling_class(scale_seq(root, m)[k]) == degree_class(spelling_class(root), m, k),
{
    lemma_class_range(root);
    if k > 0 {
        let pc = degree_class(spelling_class(root), m, k);
        lemma_degree_class_range(spelling_class(root), m, k);
        lemma_with_letter_class(pc, degree_letter(root.letter, k));
        lemma_primary_class(pc);
    }
}

/// Two enharmonic roots yield scales that sound the same: degree by degree,
/// the pitch classes agree.
pub proof fn lemma_enharmonic_roots_same_classes(r1: Spelling, r2: Spelling, m: Mode, k: int)
    requires
        spelling_class(r1) == spelling_class(r2),
        0 <= k < 8,
    ensures
        spelling_class(scale_seq(r1, m)[k]) == spelling_class(scale_seq(r2, m)[k]),
{
    lemma_scale_classes(r1, m, k);
    lemma_scale_classes(r2, m, k);
}

/// From any of the twelve primary spellings, in either mode, no step of the
/// derivation needs the fallback.
#[verifier::rlimit(100)]
#[verifier::spinoff_prover]
pub proof fn lemma_primary_roots_gap_free(pc: int, m: Mode)
    requires
        0 <= pc < 12,
    ensures
        gap_free(primary_spelling(pc), m),
{
    reveal_with_fuel(gap_ok_upto, 9);
    reveal_with_fuel(degree_class, 8);
    if pc == 0 {
        assert(gap_free(primary_spelling(0), m));
    } else if pc == 1 {
        assert(gap_free(primary_spelling(1), m));
    } else if pc == 2 {
        assert(gap_free(primary_spelling(2), m));
    } else if pc == 3 {
        assert(gap_free(primary_spelling(3), m));
    } else if pc == 4 {
        assert(gap_free(primary_spelling(4), m));
    } else if pc == 5 {
        assert(gap_free(primary_spelling(5), m));
    } else if pc == 6 {
        assert(gap_free(primary_spelling(6), m));
    } else if pc == 7 {
        assert(gap_free(primary_spelling(7), m));
    } else if pc == 8 {
        assert(gap_free(primary_spelling(8), m));
    } else if pc == 9 {
        assert(gap_free(primary_spelling(9), m));
    } else if pc == 10 {
        assert(gap_free(primary_spelling(10), m));
    } else {
        assert(gap_free(primary_spelling(11), m));
    }
}

proof fn lemma_gap_ok_at(root: Spelling, m: Mode, k: int, j: int)
    requires
        gap_ok_upto(root, m, k),
        1 <= j < k,
    ensures
        spelling_with_letter(
            degree_class(spelling_class(root), m, j),
            degree_letter(root.letter, j),
        ) is Some,
    decreases k,
{
    if j < k - 1 {
        lemma_gap_ok_at(root, m, k - 1, j);
    }
}

/// On an unbroken letter cycle every degree carries the letter the cycle
/// dictates: the `k`-th successor of the root's letter.
pub proof fn lemma_scale_letter_at(root: Spelling, m: Mode, k: int)
    requires
        gap_free(root, m),
        0 <= k < 8,
    ensures
        scale_seq(root, m)[k].letter == degree_letter(root.letter, k),
{
    if k == 0 {
        assert(letter_of_index(letter_index(root.letter)) == root.letter);
    } else {
        lemma_gap_ok_at(root, m, 8, k);
    }
}

/// A scale whose letter cycle is unbroken uses eight spellings whose first
/// seven letters are pairwise distinct, and whose eighth letter returns to
/// the root's.
pub proof fn lemma_diatonic_letter_cycle(root: Spelling, m: Mode)
    requires
        gap_free(root, m),
    ensures
        scale_seq(root, m).len() == 8,
        forall|i: int, j: int|
            0 <= i < j < 7 ==> (#[trigger] scale_seq(root, m)[i]).letter != (
            #[trigger] scale_seq(root, m)[j]).letter,
        scale_seq(root, m)[7].letter == scale_seq(root, m)[0].letter,
{
    let a = letter_index(root.letter);
    assert forall|i: int, j: int| 0 <= i < j < 7 implies (#[trigger] scale_seq(root, m)[i]).letter
        != (#[trigger] scale_seq(root, m)[j]).letter by {
        lemma_scale_letter_at(root, m, i);
        lemma_scale_letter_at(root, m, j);
        assert(wrap7(a + i) != wrap7(a + j));
        assert(letter_index(letter_of_index(wrap7(a + i))) == wrap7(a + i));
        assert(letter_index(letter_of_index(wrap7(a + j))) == wrap7(a + j));
    }
    lemma_scale_letter_at(root, m, 0);
    lemma_scale_letter_at(root, m, 7);
    assert(wrap7(a + 7) == wrap7(a + 0));
}

} // verus!
