//! The sandwich rule and the two code-point range rules.

use vstd::prelude::*;
use crate::glyph::Glyph;

verus! {

/// The three characters from `i` on form a sandwich: the outer two are the same
/// letter, the middle one is another letter.
pub open spec fn sandwich_at(glyphs: Seq<Glyph>, i: int) -> bool {
    &&& 0 <= i
    &&& i + 2 < glyphs.len()
    &&& glyphs[i].ch == glyphs[i + 2].ch
    &&& glyphs[i + 1].ch != glyphs[i].ch
    &&& glyphs[i + 1].alphabetic
    &&& glyphs[i].alphabetic
}

/// Some window of three consecutive characters forms a sandwich.
pub open spec fn has_sandwich(glyphs: Seq<Glyph>) -> bool {
    exists|i: int| #[trigger] sandwich_at(glyphs, i)
}

/// The code point lies strictly between U+2980 and U+2BFF.
pub open spec fn in_symbol_range(c: char) -> bool {
    0x2980 < c as u32 && (c as u32) < 0x2BFF
}

/// The code point lies strictly between U+1F600 and U+1F64F, or strictly between
/// U+1F900 and U+1F9FF.
pub open spec fn in_emoji_range(c: char) -> bool {
    (0x1F600 < c as u32 && (c as u32) < 0x1F64F) || (0x1F900 < c as u32 && (c as u32) < 0x1F9FF)
}

/// Some character of the text lies in the symbol range.
pub open spec fn has_symbol(glyphs: Seq<Glyph>) -> bool {
    exists|i: int| 0 <= i < glyphs.len() && in_symbol_range((#[trigger] glyphs[i]).ch)
}

/// Some character of the text lies in one of the emoji ranges.
pub open spec fn has_emoji(glyphs: Seq<Glyph>) -> bool {
    exists|i: int| 0 <= i < glyphs.len() && in_emoji_range((#[trigger] glyphs[i]).ch)
}

/// Tells whether some window of three consecutive characters forms a sandwich.
pub fn find_sandwich(glyphs: &Vec<Glyph>) -> (found: bool)
    ensures
        found == has_sandwich(glyphs@),
{
    let n = glyphs.len();
    if n < 3 {
        return false;
    }
    let mut i: usize = 0;
    while i < n - 2
        invariant
            n == glyphs.len(),
            n >= 3,
            i <= n - 2,
            forall|j: int| 0 <= j < i ==> !#[trigger] sandwich_at(glyphs@, j),
        decreases n - i,
    {
        let first = glyphs[i];
        let middle = glyphs[i + 1];
        if first.ch == glyphs[i + 2].ch && middle.ch != first.ch && middle.alphabetic
            && first.alphabetic {
            assert(sandwich_at(glyphs@, i as int));
            return true;
        }
        i += 1;
    }
    false
}

/// Tells whether the code point lies in the symbol range.
pub fn symbol(c: char) -> (b: bool)
    ensures
        b == in_symbol_range(c),
{
    let code: u32 = c as u32;
    0x2980 < code && code < 0x2BFF
}

/// Tells whether the code point lies in one of the emoji ranges.
pub fn emoji(c: char) -> (b: bool)
    ensures
        b == in_emoji_range(c),
{
    let code: u32 = c as u32;
    (0x1F600 < code && code < 0x1F64F) || (0x1F900 < code && code < 0x1F9FF)
}

/// Tells whether some character of the text lies in the symbol range.
pub fn find_symbol(glyphs: &Vec<Glyph>) -> (found: bool)
    ensures
        found == has_symbol(glyphs@),
{
    let n = glyphs.len();
    let mut i: usize = 0;
    while i < n
        invariant
            n == glyphs.len(),
            i <= n,
            forall|j: int| 0 <= j < i ==> !in_symbol_range((#[trigger] glyphs@[j]).ch),
        decreases n - i,
    {
        if symbol(glyphs[i].ch) {
            return true;
        }
        i += 1;
    }
    false
}

/// Tells whether some character of the text lies in one of the emoji ranges.
pub fn find_emoji(glyphs: &Vec<Glyph>) -> (found: bool)
    ensures
        found == has_emoji(glyphs@),
{
    let n = glyphs.len();
    let mut i: usize = 0;
    while i < n
        invariant
            n == glyphs.len(),
            i <= n,
            forall|j: int| 0 <= j < i ==> !in_emoji_range((#[trigger] glyphs@[j]).ch),
        decreases n - i,
    {
        if emoji(glyphs[i].ch) {
            return true;
        }
        i += 1;
    }
    false
}

} // verus!
