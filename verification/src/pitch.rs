//! The chromatic circle: pitch classes 0..12 and their spellings.
//!
//! A spelling is a letter A..G plus one accidental.  Every spelling resolves
//! to exactly one pitch class under the twelve-tone equal-tempered mapping,
//! and for a given pitch class a letter carries at most one accidental, so
//! the whole table of primary and alternate spellings is a consequence of
//! the modular arithmetic below.

use vstd::prelude::*;

verus! {

/// The seven note letters, in the cyclic alphabet order C-D-E-F-G-A-B that a
/// diatonic scale walks.
#[derive(Clone, Copy, PartialEq, Eq, Structural, Debug)]
pub enum Letter {
    C,
    D,
    E,
    F,
    G,
    A,
    B,
}

/// The accidental of a spelling; at most one per spelling.
#[derive(Clone, Copy, PartialEq, Eq, Structural, Debug)]
pub enum Accidental {
    Natural,
    Sharp,
    Flat,
    DoubleSharp,
    DoubleFlat,
}

/// A spelling of a pitch class: a letter plus an accidental.
#[derive(Clone, Copy, PartialEq, Eq, Structural, Debug)]
pub struct Spelling {
    pub letter: Letter,
    pub accidental: Accidental,
}

/// Position of a letter in the cyclic alphabet C-D-E-F-G-A-B.
pub open spec fn letter_index(l: Letter) -> int {
    match l {
        Letter::C => 0,
        Letter::D => 1,
        Letter::E => 2,
        Letter::F => 3,
        Letter::G => 4,
        Letter::A => 5,
        Letter::B => 6,
    }
}

/// The letter at a position of the cyclic alphabet C-D-E-F-G-A-B.
pub open spec fn letter_of_index(i: int) -> Letter {
    if i == 0 {
        Letter::C
    } else if i == 1 {
        Letter::D
    } else if i == 2 {
        Letter::E
    } else if i == 3 {
        Letter::F
    } else if i == 4 {
        Letter::G
    } else if i == 5 {
        Letter::A
    } else {
        Letter::B
    }
}

/// Semitone position of the bare letter within the octave, starting at C.
pub open spec fn letter_semitone(l: Letter) -> int {
    match l {
        Letter::C => 0,
        Letter::D => 2,
        Letter::E => 4,
        Letter::F => 5,
        Letter::G => 7,
        Letter::A => 9,
        Letter::B => 11,
    }
}

/// Semitone shift of an accidental.
pub open spec fn accidental_offset(a: Accidental) -> int {
    match a {
        Accidental::Natural => 0,
        Accidental::Sharp => 1,
        Accidental::Flat => -1,
        Accidental::DoubleSharp => 2,
        Accidental::DoubleFlat => -2,
    }
}

/// Brings a value at most one octave out of range back into [0, 12).
pub open spec fn wrap12(x: int) -> int {
    if x < 0 {
        x + 12
    } else if x >= 12 {
        x - 12
    } else {
        x
    }
}

/// The pitch class a spelling resolves to.
pub open spec fn spelling_class(s: Spelling) -> int {
    wrap12(letter_semitone(s.letter) + accidental_offset(s.accidental))
}

/// The primary spelling of each pitch class: the naturals, and sharps for
/// the five classes between them.  Primary spellings head the table and give
/// the display form of a scale.
pub open spec fn primary_spelling(pc: int) -> Spelling {
    if pc == 0 {
        Spelling { letter: Letter::C, accidental: Accidental::Natural }
    } else if pc == 1 {
        Spelling { letter: Letter::C, accidental: Accidental::Sharp }
    } else if pc == 2 {
        Spelling { letter: Letter::D, accidental: Accidental::Natural }
    } else if pc == 3 {
        Spelling { letter: Letter::D, accidental: Accidental::Sharp }
    } else if pc == 4 {
        Spelling { letter: Letter::E, accidental: Accidental::Natural }
    } else if pc == 5 {
        Spelling { letter: Letter::F, accidental: Accidental::Natural }
    } else if pc == 6 {
        Spelling { letter: Letter::F, accidental: Accidental::Sharp }
    } else if pc == 7 {
        Spelling { letter: Letter::G, accidental: Accidental::Natural }
    } else if pc == 8 {
        Spelling { letter: Letter::G, accidental: Accidental::Sharp }
    } else if pc == 9 {
        Spelling { letter: Letter::A, accidental: Accidental::Natural }
    } else if pc == 10 {
        Spelling { letter: Letter::A, accidental: Accidental::Sharp }
    } else {
        Spelling { letter: Letter::B, accidental: Accidental::Natural }
    }
}

/// The unique spelling of pitch class `pc` that uses letter `l`, if the five
/// accidentals reach from the letter to the class.
pub open spec fn spelling_with_letter(pc: int, l: Letter) -> Option<Spelling> {
    let d = wrap12(pc - letter_semitone(l));
    if d == 0 {
        Some(Spelling { letter: l, accidental: Accidental::Natural })
    } else if d == 1 {
        Some(Spelling { letter: l, accidental: Accidental::Sharp })
    } else if d == 11 {
        Some(Spelling { letter: l, accidental: Accidental::Flat })
    } else if d == 2 {
        Some(Spelling { letter: l, accidental: Accidental::DoubleSharp })
    } else if d == 10 {
        Some(Spelling { letter: l, accidental: Accidental::DoubleFlat })
    } else {
        None
    }
}

/// The alternate spellings of `pc` among the letters before position `i`,
/// in alphabet order, the primary spelling left out.
pub open spec fn alts_upto(pc: int, i: int) -> Seq<Spelling>
    decreases i,
{
    if i <= 0 {
        Seq::empty()
    } else {
        let prev = alts_upto(pc, i - 1);
        match spelling_with_letter(pc, letter_of_index(i - 1)) {
            Some(s) => if s != primary_spelling(pc) {
                prev.push(s)
            } else {
                prev
            },
            None => prev,
        }
    }
}

/// All alternate (enharmonic) spellings of a pitch class, ordered by letter.
pub open spec fn alternates_seq(pc: int) -> Seq<Spelling> {
    alts_upto(pc, 7)
}

/// Every spelling of a pitch class: the primary one first, then the
/// alternates in letter order.
pub open spec fn spellings_seq(pc: int) -> Seq<Spelling> {
    seq![primary_spelling(pc)] + alternates_seq(pc)
}

/// The pitch class of a spelling.
pub fn class_of(s: &Spelling) -> (r: u8)
    ensures
        r as int == spelling_class(*s),
        r < 12,
{
    let sem: i32 = match s.letter {
        Letter::C => 0,
        Letter::D => 2,
        Letter::E => 4,
        Letter::F => 5,
        Letter::G => 7,
        Letter::A => 9,
        Letter::B => 11,
    };
    let off: i32 = match s.accidental {
        Accidental::Natural => 0,
        Accidental::Sharp => 1,
        Accidental::Flat => -1,
        Accidental::DoubleSharp => 2,
        Accidental::DoubleFlat => -2,
    };
    let x = sem + off;
    let w = if x < 0 {
        x + 12
    } else if x >= 12 {
        x - 12
    } else {
        x
    };
    w as u8
}

/// Position of a letter in the cyclic alphabet.
pub fn letter_index_of(l: Letter) -> (r: u8)
    ensures
        r as int == letter_index(l),
        r < 7,
{
    match l {
        Letter::C => 0,
        Letter::D => 1,
        Letter::E => 2,
        Letter::F => 3,
        Letter::G => 4,
        Letter::A => 5,
        Letter::B => 6,
    }
}

/// The letter at a position of the cyclic alphabet.
pub fn letter_at_index(i: u8) -> (r: Letter)
    requires
        i < 7,
    ensures
        r == letter_of_index(i as int),
{
    match i {
        0 => Letter::C,
        1 => Letter::D,
        2 => Letter::E,
        3 => Letter::F,
        4 => Letter::G,
        5 => Letter::A,
        _ => Letter::B,
    }
}

/// The primary spelling of a pitch class.
pub fn primary_of(pc: u8) -> (r: Spelling)
    requires
        pc < 12,
    ensures
        r == primary_spelling(pc as int),
{
    match pc {
        0 => Spelling { letter: Letter::C, accidental: Accidental::Natural },
        1 => Spelling { letter: Letter::C, accidental: Accidental::Sharp },
        2 => Spelling { letter: Letter::D, accidental: Accidental::Natural },
        3 => Spelling { letter: Letter::D, accidental: Accidental::Sharp },
        4 => Spelling { letter: Letter::E, accidental: Accidental::Natural },
        5 => Spelling { letter: Letter::F, accidental: Accidental::Natural },
        6 => Spelling { letter: Letter::F, accidental: Accidental::Sharp },
        7 => Spelling { letter: Letter::G, accidental: Accidental::Natural },
        8 => Spelling { letter: Letter::G, accidental: Accidental::Sharp },
        9 => Spelling { letter: Letter::A, accidental: Accidental::Natural },
        10 => Spelling { letter: Letter::A, accidental: Accidental::Sharp },
        _ => Spelling { letter: Letter::B, accidental: Accidental::Natural },
    }
}

/// The spelling of `pc` with letter `l`, if one exists.
pub fn letter_spelling_at(pc: u8, l: Letter) -> (r: Option<Spelling>)
    requires
        pc < 12,
    ensures
        r == spelling_with_letter(pc as int, l),
{
    let sem: i32 = match l {
        Letter::C => 0,
        Letter::D => 2,
        Letter::E => 4,
        Letter::F => 5,
        Letter::G => 7,
        Letter::A => 9,
        Letter::B => 11,
    };
    let x = pc as i32 - sem;
    let d = if x < 0 {
        x + 12
    } else if x >= 12 {
        x - 12
    } else {
        x
    };
    if d == 0 {
        Some(Spelling { letter: l, accidental: Accidental::Natural })
    } else if d == 1 {
        Some(Spelling { letter: l, accidental: Accidental::Sharp })
    } else if d == 11 {
        Some(Spelling { letter: l, accidental: Accidental::Flat })
    } else if d == 2 {
        Some(Spelling { letter: l, accidental: Accidental::DoubleSharp })
    } else if d == 10 {
        Some(Spelling { letter: l, accidental: Accidental::DoubleFlat })
    } else {
        None
    }
}

/// The alternate spellings of a pitch class, ordered by letter.
pub fn alternates(pc: u8) -> (r: Vec<Spelling>)
    requires
        pc < 12,
    ensures
        r@ == alternates_seq(pc as int),
{
    let mut v: Vec<Spelling> = Vec::new();
    let prim = primary_of(pc);
    let mut i: u8 = 0;
    while i < 7
        invariant
            pc < 12,
            i <= 7,
            prim == primary_spelling(pc as int),
            v@ == alts_upto(pc as int, i as int),
        decreases 7 - i,
    {
        let l = letter_at_index(i);
        match letter_spelling_at(pc, l) {
            Some(s) => {
                if !(s == prim) {
                    v.push(s);
                }
            },
            None => {},
        }
        i = i + 1;
    }
    v
}

/// Every spelling of a pitch class: primary first, then the alternates.
pub fn spellings_of(pc: u8) -> (r: Vec<Spelling>)
    requires
        pc < 12,
    ensures
        r@ == spellings_seq(pc as int),
{
    let mut v: Vec<Spelling> = Vec::new();
    v.push(primary_of(pc));
    let mut alts = alternates(pc);
    v.append(&mut alts);
    assert(v@ =~= spellings_seq(pc as int));
    v
}

/// A spelling found by letter resolves to the class it was asked for, and
/// carries that letter.
pub proof fn lemma_with_letter_class(pc: int, l: Letter)
    requires
        0 <= pc < 12,
    ensures
        spelling_with_letter(pc, l) matches Some(s) ==> spelling_class(s) == pc && s.letter == l,
{
}

/// Resolving a spelling's class and asking that class for the spelling's
/// letter gives the spelling back.
pub proof fn lemma_class_with_letter(s: Spelling)
    ensures
        spelling_with_letter(spelling_class(s), s.letter) == Some(s),
{
}

/// The primary spelling of a class resolves to that class.
pub proof fn lemma_primary_class(pc: int)
    requires
        0 <= pc < 12,
    ensures
        spelling_class(primary_spelling(pc)) == pc,
{
}

/// Membership in the alternate prefix, characterised by letter position.
pub proof fn lemma_alts_upto_contains(pc: int, i: int, s: Spelling)
    requires
        0 <= i <= 7,
    ensures
        alts_upto(pc, i).contains(s) <==> exists|j: int|
            0 <= j < i && spelling_with_letter(pc, letter_of_index(j)) == Some(s) && s
                != primary_spelling(pc),
    decreases i,
{
    if i > 0 {
        lemma_alts_upto_contains(pc, i - 1, s);
        let prev = alts_upto(pc, i - 1);
        match spelling_with_letter(pc, letter_of_index(i - 1)) {
            Some(t) => {
                if t != primary_spelling(pc) {
                    assert(alts_upto(pc, i) == prev.push(t));
                    if s == t {
                        assert(prev.push(t)[prev.len() as int] == t);
                        assert(alts_upto(pc, i).contains(s));
                    }
                    if prev.contains(s) {
                        let k = choose|k: int| 0 <= k < prev.len() && prev[k] == s;
                        assert(prev.push(t)[k] == s);
                        assert(alts_upto(pc, i).contains(s));
                    }
                    if alts_upto(pc, i).contains(s) && s != t {
                        let k = choose|k: int|
                            0 <= k < prev.push(t).len() && prev.push(t)[k] == s;
                        assert(prev[k] == s);
                        assert(prev.contains(s));
                    }
                }
            },
            None => {},
        }
    }
}

/// Every spelling in a class's table row resolves to that class.
pub proof fn lemma_spellings_class(pc: int, s: Spelling)
    requires
        0 <= pc < 12,
        spellings_seq(pc).contains(s),
    ensures
        spelling_class(s) == pc,
{
    if s != primary_spelling(pc) {
        assert(alternates_seq(pc).contains(s)) by {
            let k = choose|k: int| 0 <= k < spellings_seq(pc).len() && spellings_seq(pc)[k] == s;
            assert(alternates_seq(pc)[k - 1] == s);
        }
        lemma_alts_upto_contains(pc, 7, s);
        let j = choose|j: int|
            0 <= j < 7 && spelling_with_letter(pc, letter_of_index(j)) == Some(s) && s
                != primary_spelling(pc);
        lemma_with_letter_class(pc, letter_of_index(j));
    } else {
        lemma_primary_class(pc);
    }
}

/// Every spelling appears in the table row of its own class.
pub proof fn lemma_spellings_complete(s: Spelling)
    ensures
        spellings_seq(spelling_class(s)).contains(s),
{
    let pc = spelling_class(s);
    if s == primary_spelling(pc) {
        assert(spellings_seq(pc)[0] == s);
    } else {
        lemma_class_with_letter(s);
        let j = letter_index(s.letter);
        assert(letter_of_index(j) == s.letter);
        lemma_alts_upto_contains(pc, 7, s);
        assert(alternates_seq(pc).contains(s));
        let k = choose|k: int| 0 <= k < alternates_seq(pc).len() && alternates_seq(pc)[k] == s;
        assert(spellings_seq(pc)[k + 1] == s);
    }
}

} // verus!
