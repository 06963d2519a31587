//! The joy rule: the letters `j`, `o` and `y` of a text, taken out in order, and
//! the windows of three among them.

use vstd::prelude::*;
use crate::glyph::Glyph;

verus! {

/// The three letters that the rule looks at.
pub open spec fn is_joy_letter(c: char) -> bool {
    c == 'j' || c == 'o' || c == 'y'
}

/// The letters `j`, `o`, `y` of the text in the order in which they stand, all else dropped.
pub open spec fn joy_letters(glyphs: Seq<Glyph>) -> Seq<char>
    decreases glyphs.len(),
{
    if glyphs.len() == 0 {
        Seq::empty()
    } else if is_joy_letter(glyphs.last().ch) {
        joy_letters(glyphs.drop_last()).push(glyphs.last().ch)
    } else {
        joy_letters(glyphs.drop_last())
    }
}

/// The window of three letters that begins at `i` reads `j`, `o`, `y`.
pub open spec fn spells_joy_at(letters: Seq<char>, i: int) -> bool {
    letters[i] == 'j' && letters[i + 1] == 'o' && letters[i + 2] == 'y'
}

/// Every window of three consecutive letters reads `j`, `o`, `y`.
pub open spec fn every_window_spells_joy(letters: Seq<char>) -> bool {
    forall|i: int| 0 <= i && i + 3 <= letters.len() ==> #[trigger] spells_joy_at(letters, i)
}

/// The joy rule: at least three joy letters, and every window of three among them
/// reads `j`, `o`, `y`.
pub open spec fn is_joyful(glyphs: Seq<Glyph>) -> bool {
    joy_letters(glyphs).len() >= 3 && every_window_spells_joy(joy_letters(glyphs))
}

/// The joy rule holds exactly when the joy letters of the text are `j`, `o`, `y`
/// and nothing more: with a fourth letter the second window would have to begin
/// with `j` where the first has its `o`.
pub proof fn lemma_joyful_iff_exactly_joy(glyphs: Seq<Glyph>)
    ensures
        is_joyful(glyphs) <==> joy_letters(glyphs) == seq!['j', 'o', 'y'],
{
    let letters = joy_letters(glyphs);
    if is_joyful(glyphs) {
        assert(spells_joy_at(letters, 0));
        if letters.len() >= 4 {
            assert(spells_joy_at(letters, 1));
        }
        assert(letters =~= seq!['j', 'o', 'y']);
    }
    if letters == seq!['j', 'o', 'y'] {
        assert forall|i: int| 0 <= i && i + 3 <= letters.len() implies #[trigger] spells_joy_at(
            letters,
            i,
        ) by {
            assert(i == 0);
        }
    }
}

/// Tells whether the character is `j`, `o` or `y`.
pub fn joy_letter(c: char) -> (b: bool)
    ensures
        b == is_joy_letter(c),
{
    c == 'j' || c == 'o' || c == 'y'
}

/// Takes the joy letters out of the text, in order.
pub fn collect_joy_letters(glyphs: &Vec<Glyph>) -> (letters: Vec<char>)
    ensures
        letters@ == joy_letters(glyphs@),
{
    let n = glyphs.len();
    let mut letters: Vec<char> = Vec::new();
    let mut i: usize = 0;
    while i < n
        invariant
            n == glyphs.len(),
            i <= n,
            letters@ == joy_letters(glyphs@.take(i as int)),
        decreases n - i,
    {
        assert(glyphs@.take(i + 1).drop_last() == glyphs@.take(i as int));
        if joy_letter(glyphs[i].ch) {
            letters.push(glyphs[i].ch);
        }
        i += 1;
    }
    assert(glyphs@.take(n as int) == glyphs@);
    letters
}

/// Tells whether every window of three consecutive letters reads `j`, `o`, `y`.
pub fn check_windows(letters: &Vec<char>) -> (ok: bool)
    ensures
        ok == every_window_spells_joy(letters@),
{
    let n = letters.len();
    if n < 3 {
        return true;
    }
    let mut i: usize = 0;
    while i < n - 2
        invariant
            n == letters.len(),
            n >= 3,
            i <= n - 2,
            forall|j: int| 0 <= j < i ==> #[trigger] spells_joy_at(letters@, j),
        decreases n - i,
    {
        if !(letters[i] == 'j' && letters[i + 1] == 'o' && letters[i + 2] == 'y') {
            assert(!spells_joy_at(letters@, i as int));
            return false;
        }
        i += 1;
    }
    true
}

/// Applies the joy rule to the text.
pub fn check_joyful(glyphs: &Vec<Glyph>) -> (ok: bool)
    ensures
        ok == is_joyful(glyphs@),
{
    let letters = collect_joy_letters(glyphs);
    let windows = check_windows(&letters);
    windows && letters.len() >= 3
}

} // verus!
