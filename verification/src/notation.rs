//! Accidental notation: the two symbol profiles, rendering of spellings as
//! text, and reduction of any rendering to the fixed canonical ASCII form
//! used for comparisons.

use crate::pitch::{Accidental, Letter, Spelling};
use vstd::prelude::*;
use vstd::string::*;

verus! {

/// A notation profile: the five accidental symbols used for one session.
#[derive(Clone, Copy, PartialEq, Eq, Structural, Debug)]
pub enum AccidentalProfile {
    /// Unicode musical symbols.
    Unicode,
    /// Plain ASCII symbols.
    Ascii,
}

/// The natural symbol of a profile (never part of a rendered spelling).
pub open spec fn natural_seq(p: AccidentalProfile) -> Seq<char> {
    match p {
        AccidentalProfile::Unicode => seq!['\u{266E}'],
        AccidentalProfile::Ascii => Seq::empty(),
    }
}

/// The sharp symbol of a profile.
pub open spec fn sharp_seq(p: AccidentalProfile) -> Seq<char> {
    match p {
        AccidentalProfile::Unicode => seq!['\u{266F}'],
        AccidentalProfile::Ascii => seq!['#'],
    }
}

/// The flat symbol of a profile.
pub open spec fn flat_seq(p: AccidentalProfile) -> Seq<char> {
    match p {
        AccidentalProfile::Unicode => seq!['\u{266D}'],
        AccidentalProfile::Ascii => seq!['b'],
    }
}

/// The double-sharp symbol of a profile.
pub open spec fn double_sharp_seq(p: AccidentalProfile) -> Seq<char> {
    match p {
        AccidentalProfile::Unicode => seq!['\u{1D12A}'],
        AccidentalProfile::Ascii => seq!['#', '#'],
    }
}

/// The double-flat symbol of a profile.
pub open spec fn double_flat_seq(p: AccidentalProfile) -> Seq<char> {
    match p {
        AccidentalProfile::Unicode => seq!['\u{1D12B}'],
        AccidentalProfile::Ascii => seq!['b', 'b'],
    }
}

/// The symbol a profile assigns to an accidental.
pub open spec fn accidental_symbol_seq(p: AccidentalProfile, a: Accidental) -> Seq<char> {
    match a {
        Accidental::Natural => natural_seq(p),
        Accidental::Sharp => sharp_seq(p),
        Accidental::Flat => flat_seq(p),
        Accidental::DoubleSharp => double_sharp_seq(p),
        Accidental::DoubleFlat => double_flat_seq(p),
    }
}

/// The mark a rendered spelling carries: like the symbol, except that a
/// natural is written bare.
pub open spec fn accidental_mark_seq(p: AccidentalProfile, a: Accidental) -> Seq<char> {
    match a {
        Accidental::Natural => Seq::empty(),
        _ => accidental_symbol_seq(p, a),
    }
}

/// The character a letter is written with.
pub open spec fn letter_char(l: Letter) -> char {
    match l {
        Letter::C => 'C',
        Letter::D => 'D',
        Letter::E => 'E',
        Letter::F => 'F',
        Letter::G => 'G',
        Letter::A => 'A',
        Letter::B => 'B',
    }
}

/// The text of a spelling under a profile: its letter, then its mark.
pub open spec fn render_seq(p: AccidentalProfile, s: Spelling) -> Seq<char> {
    seq![letter_char(s.letter)] + accidental_mark_seq(p, s.accidental)
}

/// `pat` occurs somewhere in `hay`.
pub open spec fn contains_seq(hay: Seq<char>, pat: Seq<char>) -> bool {
    exists|i: int|
        0 <= i && i + pat.len() <= hay.len() && #[trigger] hay.subrange(i, i + pat.len() as int)
            == pat
}

/// The character code used for case-insensitive comparison: ASCII capitals
/// fold to their small form, every other character stands for itself.
pub open spec fn lower_code(c: char) -> int {
    if 65 <= c as int && c as int <= 90 {
        c as int + 32
    } else {
        c as int
    }
}

/// Case-insensitive equality of two character sequences.
pub open spec fn ieq_seq(a: Seq<char>, b: Seq<char>) -> bool {
    a.len() == b.len() && forall|i: int| 0 <= i < a.len() ==> lower_code(a[i]) == lower_code(b[i])
}

/// The canonical ASCII form of a note: its first character — the letter —
/// followed by the first of the profile's accidental symbols found in the
/// rest, double forms consulted before single ones so that a double mark
/// is never read as its single counterpart.  The letter itself is never
/// read as a mark, so a lone `b` stays the note B.
pub open spec fn simplify_seq(p: AccidentalProfile, s: Seq<char>) -> Seq<char> {
    if s.len() == 0 {
        s
    } else {
        let rest = s.subrange(1, s.len() as int);
        if contains_seq(rest, double_sharp_seq(p)) {
            seq![s[0], '#', '#']
        } else if contains_seq(rest, double_flat_seq(p)) {
            seq![s[0], 'b', 'b']
        } else if contains_seq(rest, sharp_seq(p)) {
            seq![s[0], '#']
        } else if contains_seq(rest, flat_seq(p)) {
            seq![s[0], 'b']
        } else {
            s
        }
    }
}

/// The letter character of a letter.
pub fn letter_str(l: Letter) -> (r: &'static str)
    ensures
        r@ == seq![letter_char(l)],
{
    match l {
        Letter::C => {
            proof {
                reveal_strlit("C");
            }
            "C"
        },
        Letter::D => {
            proof {
                reveal_strlit("D");
            }
            "D"
        },
        Letter::E => {
            proof {
                reveal_strlit("E");
            }
            "E"
        },
        Letter::F => {
            proof {
                reveal_strlit("F");
            }
            "F"
        },
        Letter::G => {
            proof {
                reveal_strlit("G");
            }
            "G"
        },
        Letter::A => {
            proof {
                reveal_strlit("A");
            }
            "A"
        },
        Letter::B => {
            proof {
                reveal_strlit("B");
            }
            "B"
        },
    }
}

/// The symbol a profile assigns to an accidental.
pub fn accidental_symbol(p: AccidentalProfile, a: Accidental) -> (r: &'static str)
    ensures
        r@ == accidental_symbol_seq(p, a),
{
    match (p, a) {
        (AccidentalProfile::Unicode, Accidental::Natural) => {
            proof {
                reveal_strlit("\u{266E}");
            }
            "\u{266E}"
        },
        (AccidentalProfile::Unicode, Accidental::Sharp) => {
            proof {
                reveal_strlit("\u{266F}");
            }
            "\u{266F}"
        },
        (AccidentalProfile::Unicode, Accidental::Flat) => {
            proof {
                reveal_strlit("\u{266D}");
            }
            "\u{266D}"
        },
        (AccidentalProfile::Unicode, Accidental::DoubleSharp) => {
            proof {
                reveal_strlit("\u{1D12A}");
            }
            "\u{1D12A}"
        },
        (AccidentalProfile::Unicode, Accidental::DoubleFlat) => {
            proof {
                reveal_strlit("\u{1D12B}");
            }
            "\u{1D12B}"
        },
        (AccidentalProfile::Ascii, Accidental::Natural) => {
            proof {
                reveal_strlit("");
            }
            ""
        },
        (AccidentalProfile::Ascii, Accidental::Sharp) => {
            proof {
                reveal_strlit("#");
            }
            "#"
        },
        (AccidentalProfile::Ascii, Accidental::Flat) => {
            proof {
                reveal_strlit("b");
            }
            "b"
        },
        (AccidentalProfile::Ascii, Accidental::DoubleSharp) => {
            proof {
                reveal_strlit("##");
            }
            "##"
        },
        (AccidentalProfile::Ascii, Accidental::DoubleFlat) => {
            proof {
                reveal_strlit("bb");
            }
            "bb"
        },
    }
}

/// The text of a spelling under a profile.
pub fn render(p: AccidentalProfile, s: &Spelling) -> (r: String)
    ensures
        r@ == render_seq(p, *s),
{
    let base = String::from_str(letter_str(s.letter));
    match s.accidental {
        Accidental::Natural => {
            assert(base@ =~= render_seq(p, *s));
            base
        },
        Accidental::Sharp => {
            let r = base.concat(accidental_symbol(p, Accidental::Sharp));
            assert(r@ =~= render_seq(p, *s));
            r
        },
        Accidental::Flat => {
            let r = base.concat(accidental_symbol(p, Accidental::Flat));
            assert(r@ =~= render_seq(p, *s));
            r
        },
        Accidental::DoubleSharp => {
            let r = base.concat(accidental_symbol(p, Accidental::DoubleSharp));
            assert(r@ =~= render_seq(p, *s));
            r
        },
        Accidental::DoubleFlat => {
            let r = base.concat(accidental_symbol(p, Accidental::DoubleFlat));
            assert(r@ =~= render_seq(p, *s));
            r
        },
    }
}

/// Whether `pat` occurs somewhere in `hay`.
pub fn contains_str(hay: &str, pat: &str) -> (r: bool)
    ensures
        r == contains_seq(hay@, pat@),
{
    let hlen = hay.unicode_len();
    let plen = pat.unicode_len();
    if plen > hlen {
        return false;
    }
    let mut i: usize = 0;
    while i <= hlen - plen
        invariant
            plen <= hlen,
            hlen == hay@.len(),
            plen == pat@.len(),
            i <= hlen - plen + 1,
            forall|k: int| 0 <= k < i ==> #[trigger] hay@.subrange(k, k + plen as int) != pat@,
        decreases hlen - plen - i + 1,
    {
        let mut j: usize = 0;
        let mut ok = true;
        while j < plen
            invariant
                i + plen <= hlen,
                hlen == hay@.len(),
                plen == pat@.len(),
                j <= plen,
                ok <==> (forall|m: int| 0 <= m < j ==> hay@[i + m] == pat@[m]),
            decreases plen - j,
        {
            if hay.get_char(i + j) != pat.get_char(j) {
                ok = false;
            }
            j = j + 1;
        }
        if ok {
            assert(hay@.subrange(i as int, i + plen as int) =~= pat@);
            return true;
        }
        assert(hay@.subrange(i as int, i + plen as int) != pat@) by {
            let m = choose|m: int| 0 <= m < plen && hay@[i + m] != pat@[m];
            assert(hay@.subrange(i as int, i + plen as int)[m] != pat@[m]);
        }
        i = i + 1;
    }
    false
}

/// Exact equality of two pieces of text.
pub fn str_eq(a: &str, b: &str) -> (r: bool)
    ensures
        r == (a@ == b@),
{
    let alen = a.unicode_len();
    let blen = b.unicode_len();
    if alen != blen {
        return false;
    }
    let mut i: usize = 0;
    while i < alen
        invariant
            alen == a@.len(),
            alen == b@.len(),
            i <= alen,
            forall|k: int| 0 <= k < i ==> a@[k] == b@[k],
        decreases alen - i,
    {
        if a.get_char(i) != b.get_char(i) {
            return false;
        }
        i = i + 1;
    }
    assert(a@ =~= b@);
    true
}

/// Case-insensitive equality of two pieces of text.
pub fn ieq_str(a: &str, b: &str) -> (r: bool)
    ensures
        r == ieq_seq(a@, b@),
{
    let alen = a.unicode_len();
    let blen = b.unicode_len();
    if alen != blen {
        return false;
    }
    let mut i: usize = 0;
    while i < alen
        invariant
            alen == a@.len(),
            alen == b@.len(),
            i <= alen,
            forall|k: int| 0 <= k < i ==> lower_code(a@[k]) == lower_code(b@[k]),
        decreases alen - i,
    {
        let ca = a.get_char(i) as u32;
        let cb = b.get_char(i) as u32;
        let la = if 65 <= ca && ca <= 90 {
            ca + 32
        } else {
            ca
        };
        let lb = if 65 <= cb && cb <= 90 {
            cb + 32
        } else {
            cb
        };
        if la != lb {
            return false;
        }
        i = i + 1;
    }
    true
}

/// The canonical ASCII form of a note.
pub fn simplify(p: AccidentalProfile, s: &str) -> (r: String)
    ensures
        r@ == simplify_seq(p, s@),
{
    proof {
        reveal_strlit("##");
        reveal_strlit("bb");
        reveal_strlit("#");
        reveal_strlit("b");
    }
    let len = s.unicode_len();
    if len == 0 {
        return String::from_str(s);
    }
    let rest = s.substring_char(1, len);
    if contains_str(rest, accidental_symbol(p, Accidental::DoubleSharp)) {
        let r = String::from_str(s.substring_char(0, 1)).concat("##");
        assert(r@ =~= simplify_seq(p, s@));
        r
    } else if contains_str(rest, accidental_symbol(p, Accidental::DoubleFlat)) {
        let r = String::from_str(s.substring_char(0, 1)).concat("bb");
        assert(r@ =~= simplify_seq(p, s@));
        r
    } else if contains_str(rest, accidental_symbol(p, Accidental::Sharp)) {
        let r = String::from_str(s.substring_char(0, 1)).concat("#");
        assert(r@ =~= simplify_seq(p, s@));
        r
    } else if contains_str(rest, accidental_symbol(p, Accidental::Flat)) {
        let r = String::from_str(s.substring_char(0, 1)).concat("b");
        assert(r@ =~= simplify_seq(p, s@));
        r
    } else {
        String::from_str(s)
    }
}

/// A one-character pattern occurs exactly where its character occurs.
proof fn lemma_contains_one(h: Seq<char>, ch: char)
    ensures
        contains_seq(h, seq![ch]) <==> (exists|i: int| 0 <= i < h.len() && h[i] == ch),
{
    if exists|i: int| 0 <= i < h.len() && h[i] == ch {
        let i = choose|i: int| 0 <= i < h.len() && h[i] == ch;
        assert(h.subrange(i, i + seq![ch].len() as int) =~= seq![ch]);
    }
    if contains_seq(h, seq![ch]) {
        let pat = seq![ch];
        let i = choose|i: int|
            0 <= i && i + pat.len() <= h.len() && #[trigger] h.subrange(i, i + pat.len() as int)
                == pat;
        assert(h[i] == h.subrange(i, i + 1)[0]);
    }
}

/// A two-character pattern occurs exactly where its characters stand side
/// by side.
proof fn lemma_contains_two(h: Seq<char>, c1: char, c2: char)
    ensures
        contains_seq(h, seq![c1, c2]) <==> (exists|i: int|
            0 <= i && i + 2 <= h.len() && #[trigger] h[i] == c1 && h[i + 1] == c2),
{
    if exists|i: int| 0 <= i && i + 2 <= h.len() && #[trigger] h[i] == c1 && h[i + 1] == c2 {
        let i = choose|i: int| 0 <= i && i + 2 <= h.len() && #[trigger] h[i] == c1 && h[i + 1] == c2;
        assert(h.subrange(i, i + seq![c1, c2].len() as int) =~= seq![c1, c2]);
    }
    if contains_seq(h, seq![c1, c2]) {
        let pat = seq![c1, c2];
        let i = choose|i: int|
            0 <= i && i + pat.len() <= h.len() && #[trigger] h.subrange(i, i + pat.len() as int)
                == pat;
        assert(h[i] == h.subrange(i, i + 2)[0]);
        assert(h[i + 1] == h.subrange(i, i + 2)[1]);
    }
}

/// A canonical simplified note — a first character followed by one of the
/// four ASCII accidental forms — simplifies to itself under either profile.
proof fn lemma_simplify_canonical(p: AccidentalProfile, s0: char, t: Seq<char>)
    requires
        t == seq![s0, '#', '#'] || t == seq![s0, 'b', 'b'] || t == seq![s0, '#'] || t == seq![
            s0,
            'b',
        ],
    ensures
        simplify_seq(p, t) == t,
{
    let rest = t.subrange(1, t.len() as int);
    lemma_contains_one(rest, '\u{1D12A}');
    lemma_contains_one(rest, '\u{1D12B}');
    lemma_contains_one(rest, '\u{266F}');
    lemma_contains_one(rest, '\u{266D}');
    lemma_contains_one(rest, '#');
    lemma_contains_one(rest, 'b');
    lemma_contains_two(rest, '#', '#');
    lemma_contains_two(rest, 'b', 'b');
    if t == seq![s0, '#', '#'] {
        assert(rest =~= seq!['#', '#']);
        match p {
            AccidentalProfile::Unicode => {
                assert(simplify_seq(p, t) == t);
            },
            AccidentalProfile::Ascii => {
                assert(rest[0] == '#' && rest[1] == '#');
                assert(contains_seq(rest, double_sharp_seq(p)));
                assert(simplify_seq(p, t) =~= t);
            },
        }
    } else if t == seq![s0, 'b', 'b'] {
        assert(rest =~= seq!['b', 'b']);
        match p {
            AccidentalProfile::Unicode => {
                assert(simplify_seq(p, t) == t);
            },
            AccidentalProfile::Ascii => {
                assert(!contains_seq(rest, double_sharp_seq(p)));
                assert(rest[0] == 'b' && rest[1] == 'b');
                assert(contains_seq(rest, double_flat_seq(p)));
                assert(simplify_seq(p, t) =~= t);
            },
        }
    } else if t == seq![s0, '#'] {
        assert(rest =~= seq!['#']);
        match p {
            AccidentalProfile::Unicode => {
                assert(simplify_seq(p, t) == t);
            },
            AccidentalProfile::Ascii => {
                assert(!contains_seq(rest, double_sharp_seq(p)));
                assert(!contains_seq(rest, double_flat_seq(p)));
                assert(rest[0] == '#');
                assert(contains_seq(rest, sharp_seq(p)));
                assert(simplify_seq(p, t) =~= t);
            },
        }
    } else {
        assert(rest =~= seq!['b']);
        match p {
            AccidentalProfile::Unicode => {
                assert(simplify_seq(p, t) == t);
            },
            AccidentalProfile::Ascii => {
                assert(!contains_seq(rest, double_sharp_seq(p)));
                assert(!contains_seq(rest, double_flat_seq(p)));
                assert(!contains_seq(rest, sharp_seq(p)));
                assert(rest[0] == 'b');
                assert(contains_seq(rest, flat_seq(p)));
                assert(simplify_seq(p, t) =~= t);
            },
        }
    }
}

/// Simplification is idempotent: once simplified, text is unchanged by a
/// second simplification.
pub proof fn lemma_simplify_idempotent(p: AccidentalProfile, s: Seq<char>)
    ensures
        simplify_seq(p, simplify_seq(p, s)) == simplify_seq(p, s),
{
    let t = simplify_seq(p, s);
    if s.len() == 0 {
        assert(t == s);
    } else {
        let rest = s.subrange(1, s.len() as int);
        if contains_seq(rest, double_sharp_seq(p)) {
            lemma_simplify_canonical(p, s[0], t);
        } else if contains_seq(rest, double_flat_seq(p)) {
            lemma_simplify_canonical(p, s[0], t);
        } else if contains_seq(rest, sharp_seq(p)) {
            lemma_simplify_canonical(p, s[0], t);
        } else if contains_seq(rest, flat_seq(p)) {
            lemma_simplify_canonical(p, s[0], t);
        } else {
            assert(t == s);
        }
    }
}

/// A character that may appear in a rendered spelling.  None of them is a
/// space, and none has a meaning of its own in a regular expression.
pub open spec fn note_char(c: char) -> bool {
    ('A' <= c && c <= 'G') || c == '#' || c == 'b' || c == '\u{266E}' || c == '\u{266F}' || c
        == '\u{266D}' || c == '\u{1D12A}' || c == '\u{1D12B}'
}

/// Rendered spellings are non-empty, space-free note text.
pub proof fn lemma_render_chars(p: AccidentalProfile, s: Spelling)
    ensures
        render_seq(p, s).len() >= 1,
        forall|i: int| 0 <= i < render_seq(p, s).len() ==> note_char(#[trigger] render_seq(p, s)[i]),
{
    let r = render_seq(p, s);
    assert forall|i: int| 0 <= i < r.len() implies note_char(r[i]) by {
        if i == 0 {
            assert(r[i] == letter_char(s.letter));
        } else {
            assert(r[i] == accidental_mark_seq(p, s.accidental)[i - 1]);
        }
    }
}

/// Under one profile, two spellings with the same text are the same spelling.
pub proof fn lemma_render_injective(p: AccidentalProfile, s1: Spelling, s2: Spelling)
    requires
        render_seq(p, s1) == render_seq(p, s2),
    ensures
        s1 == s2,
{
    assert(render_seq(p, s1)[0] == letter_char(s1.letter));
    assert(render_seq(p, s2)[0] == letter_char(s2.letter));
    assert(s1.letter == s2.letter);
    let m1 = accidental_mark_seq(p, s1.accidental);
    let m2 = accidental_mark_seq(p, s2.accidental);
    assert(render_seq(p, s1).len() == 1 + m1.len());
    assert(render_seq(p, s2).len() == 1 + m2.len());
    assert(m1.len() == m2.len());
    assert(m1 =~= m2) by {
        assert forall|i: int| 0 <= i < m1.len() implies m1[i] == m2[i] by {
            assert(render_seq(p, s1)[i + 1] == m1[i]);
            assert(render_seq(p, s2)[i + 1] == m2[i]);
        }
    }
    if m1.len() > 0 {
        assert(m1[0] == m2[0]);
    }
    assert(s1.accidental == s2.accidental);
}

} // verus!
