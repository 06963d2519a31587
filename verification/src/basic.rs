//! The basic classifier: three unconditional rules, no reason given.

use vstd::prelude::*;
use crate::glyph::{classify_text, glyphs_of, Glyph};
use crate::outcome::Outcome;

verus! {

/// An alphabetic character sits at `i` and is immediately followed by itself.
pub open spec fn repeat_at(glyphs: Seq<Glyph>, i: int) -> bool {
    &&& 0 <= i
    &&& i + 1 < glyphs.len()
    &&& glyphs[i].ch == glyphs[i + 1].ch
    &&& glyphs[i].alphabetic
}

/// First rule: some alphabetic character appears twice in a row.
pub open spec fn has_adjacent_repeat(glyphs: Seq<Glyph>) -> bool {
    exists|i: int| #[trigger] repeat_at(glyphs, i)
}

/// The characters `first`, `second` stand at `i` and `i + 1`.
pub open spec fn pair_at(glyphs: Seq<Glyph>, first: char, second: char, i: int) -> bool {
    &&& 0 <= i
    &&& i + 1 < glyphs.len()
    &&& glyphs[i].ch == first
    &&& glyphs[i + 1].ch == second
}

/// The two-character string `first``second` occurs somewhere in the text.
pub open spec fn contains_pair(glyphs: Seq<Glyph>, first: char, second: char) -> bool {
    exists|i: int| #[trigger] pair_at(glyphs, first, second, i)
}

/// Second rule, negated: one of `ab`, `cd`, `pq`, `xy` occurs in the text.
pub open spec fn has_forbidden_pair(glyphs: Seq<Glyph>) -> bool {
    ||| contains_pair(glyphs, 'a', 'b')
    ||| contains_pair(glyphs, 'c', 'd')
    ||| contains_pair(glyphs, 'p', 'q')
    ||| contains_pair(glyphs, 'x', 'y')
}

/// The lower-case letters that count as vowels. Upper-case letters do not.
pub open spec fn is_vowel(c: char) -> bool {
    c == 'a' || c == 'e' || c == 'i' || c == 'o' || c == 'u' || c == 'y'
}

/// How many characters of the text are vowels.
pub open spec fn vowel_count(glyphs: Seq<Glyph>) -> nat
    decreases glyphs.len(),
{
    if glyphs.len() == 0 {
        0
    } else {
        vowel_count(glyphs.drop_last()) + if is_vowel(glyphs.last().ch) { 1nat } else { 0nat }
    }
}

/// What the basic classifier answers: nice exactly when all three rules hold.
pub open spec fn basic_outcome(glyphs: Seq<Glyph>) -> Outcome {
    if has_adjacent_repeat(glyphs) && !has_forbidden_pair(glyphs) && vowel_count(glyphs) >= 3 {
        Outcome::Nice
    } else {
        Outcome::Naughty
    }
}

/// Tells whether some alphabetic character is immediately followed by itself.
pub fn find_adjacent_repeat(glyphs: &Vec<Glyph>) -> (found: bool)
    ensures
        found == has_adjacent_repeat(glyphs@),
{
    let n = glyphs.len();
    if n < 2 {
        return false;
    }
    let mut i: usize = 0;
    while i < n - 1
        invariant
            n == glyphs.len(),
            n >= 2,
            i <= n - 1,
            forall|j: int| 0 <= j < i ==> !#[trigger] repeat_at(glyphs@, j),
        decreases n - i,
    {
        if glyphs[i].ch == glyphs[i + 1].ch && glyphs[i].alphabetic {
            assert(repeat_at(glyphs@, i as int));
            return true;
        }
        i += 1;
    }
    false
}

/// Tells whether the two characters occur next to each other, in this order.
pub fn find_pair(glyphs: &Vec<Glyph>, first: char, second: char) -> (found: bool)
    ensures
        found == contains_pair(glyphs@, first, second),
{
    let n = glyphs.len();
    if n < 2 {
        return false;
    }
    let mut i: usize = 0;
    while i < n - 1
        invariant
            n == glyphs.len(),
            n >= 2,
            i <= n - 1,
            forall|j: int| 0 <= j < i ==> !#[trigger] pair_at(glyphs@, first, second, j),
        decreases n - i,
    {
        if glyphs[i].ch == first && glyphs[i + 1].ch == second {
            assert(pair_at(glyphs@, first, second, i as int));
            return true;
        }
        i += 1;
    }
    false
}

/// Tells whether the character is one of `a e i o u y`.
pub fn vowel(c: char) -> (b: bool)
    ensures
        b == is_vowel(c),
{
    c == 'a' || c == 'e' || c == 'i' || c == 'o' || c == 'u' || c == 'y'
}

/// Counts the vowels of the text.
pub fn count_vowels(glyphs: &Vec<Glyph>) -> (count: usize)
    ensures
        count == vowel_count(glyphs@),
{
    let n = glyphs.len();
    let mut count: usize = 0;
    let mut i: usize = 0;
    while i < n
        invariant
            n == glyphs.len(),
            i <= n,
            count <= i,
            count == vowel_count(glyphs@.take(i as int)),
        decreases n - i,
    {
        assert(glyphs@.take(i + 1).drop_last() == glyphs@.take(i as int));
        if vowel(glyphs[i].ch) {
            count += 1;
        }
        i += 1;
    }
    assert(glyphs@.take(n as int) == glyphs@);
    count
}

/// Applies the three basic rules to a classified text.
pub fn classify_glyphs(glyphs: &Vec<Glyph>) -> (outcome: Outcome)
    ensures
        outcome == basic_outcome(glyphs@),
{
    if !find_adjacent_repeat(glyphs) {
        return Outcome::Naughty;
    }
    if find_pair(glyphs, 'a', 'b') || find_pair(glyphs, 'c', 'd') || find_pair(glyphs, 'p', 'q')
        || find_pair(glyphs, 'x', 'y') {
        return Outcome::Naughty;
    }
    if count_vowels(glyphs) < 3 {
        return Outcome::Naughty;
    }
    Outcome::Nice
}

/// The input of both checks: one owned text.
#[derive(Debug)]
pub struct NiceInput {
    pub input: String,
}

impl NiceInput {
    /// Reports the basic verdict on the held text as the word `nice` or `naughty`.
    pub fn is_nice(&self) -> (word: String)
        ensures
            word@ == basic_outcome(glyphs_of(self.input@)).spec_label(),
    {
        classify_basic(self.input.as_str()).label()
    }
}

/// Applies the three basic rules to a text.
pub fn classify_basic(input: &str) -> (outcome: Outcome)
    ensures
        outcome == basic_outcome(glyphs_of(input@)),
{
    let glyphs = classify_text(input);
    classify_glyphs(&glyphs)
}

} // verus!
