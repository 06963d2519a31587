//! Characters paired with the Unicode properties that the password rules consult.
//!
//! The Unicode tables live in the standard library. Each property gets a name
//! here, and a `Glyph` records the four answers for one character, so that the
//! rules themselves are stated and proved over plain values.

use vstd::prelude::*;

verus! {

/// What `char::is_alphabetic` answers for `c`.
pub uninterp spec fn unicode_alphabetic(c: char) -> bool;

/// What `char::is_uppercase` answers for `c`.
pub uninterp spec fn unicode_uppercase(c: char) -> bool;

/// What `char::is_lowercase` answers for `c`.
pub uninterp spec fn unicode_lowercase(c: char) -> bool;

/// What `char::is_numeric` answers for `c`.
pub uninterp spec fn unicode_numeric(c: char) -> bool;

/// `char::is_alphabetic` looks the character up in the Unicode `Alphabetic` table;
/// the answer depends on the character alone and is named `unicode_alphabetic`.
pub assume_specification[ char::is_alphabetic ](c: char) -> (b: bool)
    ensures
        b == unicode_alphabetic(c),
;

/// `char::is_uppercase` looks the character up in the Unicode `Uppercase` table;
/// the answer depends on the character alone and is named `unicode_uppercase`.
pub assume_specification[ char::is_uppercase ](c: char) -> (b: bool)
    ensures
        b == unicode_uppercase(c),
;

/// `char::is_lowercase` looks the character up in the Unicode `Lowercase` table;
/// the answer depends on the character alone and is named `unicode_lowercase`.
pub assume_specification[ char::is_lowercase ](c: char) -> (b: bool)
    ensures
        b == unicode_lowercase(c),
;

/// `char::is_numeric` tells whether the character is in one of the Unicode number
/// categories; the answer depends on the character alone and is named `unicode_numeric`.
pub assume_specification[ char::is_numeric ](c: char) -> (b: bool)
    ensures
        b == unicode_numeric(c),
;

/// One character together with its Unicode properties.
#[derive(Clone, Copy, Debug, PartialEq, Eq, Structural)]
pub struct Glyph {
    pub ch: char,
    pub alphabetic: bool,
    pub uppercase: bool,
    pub lowercase: bool,
    pub numeric: bool,
}

/// The glyph of a character as Unicode classifies it.
pub open spec fn glyph_of(c: char) -> Glyph {
    Glyph {
        ch: c,
        alphabetic: unicode_alphabetic(c),
        uppercase: unicode_uppercase(c),
        lowercase: unicode_lowercase(c),
        numeric: unicode_numeric(c),
    }
}

/// The glyphs of a text, character by character.
pub open spec fn glyphs_of(text: Seq<char>) -> Seq<Glyph> {
    Seq::new(text.len(), |i: int| glyph_of(text[i]))
}

impl Glyph {
    /// Whether the character is one of the ten ASCII decimal digits.
    pub open spec fn is_decimal_digit(self) -> bool {
        '0' <= self.ch && self.ch <= '9'
    }

    /// The value of a decimal digit character; meaningful only for decimal digits.
    pub open spec fn digit_value(self) -> nat {
        (self.ch as u32 - '0' as u32) as nat
    }

    /// Classifies one character.
    pub fn of(c: char) -> (g: Glyph)
        ensures
            g == glyph_of(c),
    {
        Glyph {
            ch: c,
            alphabetic: c.is_alphabetic(),
            uppercase: c.is_uppercase(),
            lowercase: c.is_lowercase(),
            numeric: c.is_numeric(),
        }
    }
}

/// Classifies every character of a text, in order.
pub fn classify_text(text: &str) -> (glyphs: Vec<Glyph>)
    ensures
        glyphs@ == glyphs_of(text@),
{
    let mut glyphs: Vec<Glyph> = Vec::new();
    for c in it: text.chars()
        invariant
            it.seq() == text@,
            glyphs@ == glyphs_of(text@.take(it.index() as int)),
    {
        glyphs.push(Glyph::of(c));
    }
    assert(text@.take(text@.len() as int) == text@);
    glyphs
}

} // verus!
