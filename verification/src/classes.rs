//! Which kinds of character a text holds, and how many decimal digits.

use vstd::prelude::*;
use crate::glyph::Glyph;

verus! {

/// Some character of the text is an upper-case letter.
pub open spec fn has_uppercase(glyphs: Seq<Glyph>) -> bool {
    exists|i: int| 0 <= i < glyphs.len() && (#[trigger] glyphs[i]).uppercase
}

/// Some character of the text is a lower-case letter.
pub open spec fn has_lowercase(glyphs: Seq<Glyph>) -> bool {
    exists|i: int| 0 <= i < glyphs.len() && (#[trigger] glyphs[i]).lowercase
}

/// Some character of the text is a decimal digit.
pub open spec fn has_digit(glyphs: Seq<Glyph>) -> bool {
    exists|i: int| 0 <= i < glyphs.len() && (#[trigger] glyphs[i]).is_decimal_digit()
}

/// The text holds an upper-case letter, a lower-case letter and a decimal digit.
pub open spec fn has_all_kinds(glyphs: Seq<Glyph>) -> bool {
    has_uppercase(glyphs) && has_lowercase(glyphs) && has_digit(glyphs)
}

/// How many characters of the text are decimal digits.
pub open spec fn digit_count(glyphs: Seq<Glyph>) -> nat
    decreases glyphs.len(),
{
    if glyphs.len() == 0 {
        0
    } else {
        digit_count(glyphs.drop_last()) + if glyphs.last().is_decimal_digit() {
            1nat
        } else {
            0nat
        }
    }
}

/// Tells whether the character is one of the ten ASCII decimal digits.
pub fn decimal_digit(c: char) -> (b: bool)
    ensures
        b == ('0' <= c && c <= '9'),
{
    '0' <= c && c <= '9'
}

/// Tells whether the text holds all three kinds of character.
pub fn check_all_kinds(glyphs: &Vec<Glyph>) -> (ok: bool)
    ensures
        ok == has_all_kinds(glyphs@),
{
    let n = glyphs.len();
    let mut upper = false;
    let mut lower = false;
    let mut digit = false;
    let mut i: usize = 0;
    while i < n
        invariant
            n == glyphs.len(),
            i <= n,
            upper == has_uppercase(glyphs@.take(i as int)),
            lower == has_lowercase(glyphs@.take(i as int)),
            digit == has_digit(glyphs@.take(i as int)),
        decreases n - i,
    {
        let g = glyphs[i];
        proof {
            let before = glyphs@.take(i as int);
            let after = glyphs@.take(i + 1);
            assert(after[i as int] == g);
            assert forall|j: int| 0 <= j < i implies before[j] == after[j] by {}
            if has_uppercase(before) {
                let j = choose|j: int| 0 <= j < before.len() && (#[trigger] before[j]).uppercase;
                assert(after[j].uppercase);
            }
            if has_lowercase(before) {
                let j = choose|j: int| 0 <= j < before.len() && (#[trigger] before[j]).lowercase;
                assert(after[j].lowercase);
            }
            if has_digit(before) {
                let j = choose|j: int|
                    0 <= j < before.len() && (#[trigger] before[j]).is_decimal_digit();
                assert(after[j].is_decimal_digit());
            }
            if has_uppercase(after) && !g.uppercase {
                let j = choose|j: int| 0 <= j < after.len() && (#[trigger] after[j]).uppercase;
                assert(before[j].uppercase);
            }
            if has_lowercase(after) && !g.lowercase {
                let j = choose|j: int| 0 <= j < after.len() && (#[trigger] after[j]).lowercase;
                assert(before[j].lowercase);
            }
            if has_digit(after) && !g.is_decimal_digit() {
                let j = choose|j: int|
                    0 <= j < after.len() && (#[trigger] after[j]).is_decimal_digit();
                assert(before[j].is_decimal_digit());
            }
        }
        upper = upper || g.uppercase;
        lower = lower || g.lowercase;
        digit = digit || decimal_digit(g.ch);
        i += 1;
    }
    assert(glyphs@.take(n as int) == glyphs@);
    upper && lower && digit
}

/// Counts the decimal digits of the text.
pub fn count_digits(glyphs: &Vec<Glyph>) -> (count: usize)
    ensures
        count == digit_count(glyphs@),
{
    let n = glyphs.len();
    let mut count: usize = 0;
    let mut i: usize = 0;
    while i < n
        invariant
            n == glyphs.len(),
            i <= n,
            count <= i,
            count == digit_count(glyphs@.take(i as int)),
        decreases n - i,
    {
        assert(glyphs@.take(i + 1).drop_last() == glyphs@.take(i as int));
        if decimal_digit(glyphs[i].ch) {
            count += 1;
        }
        i += 1;
    }
    assert(glyphs@.take(n as int) == glyphs@);
    count
}

} // verus!
