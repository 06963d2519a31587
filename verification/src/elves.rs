//! Counting elves and shelves in a text, byte by byte.

use vstd::prelude::*;
use vstd::string::StringSliceAdditionalSpecFns;
use vstd::utf8::encode_utf8;

verus! {

/// The bytes of `elf`.
pub open spec fn elf() -> Seq<u8> {
    seq![0x65u8, 0x6c, 0x66]
}

/// The bytes of `shelf`.
pub open spec fn shelf() -> Seq<u8> {
    seq![0x73u8, 0x68, 0x65, 0x6c, 0x66]
}

/// The nine bytes of `elf on a `, with its closing space.
pub open spec fn elf_on_a() -> Seq<u8> {
    seq![0x65u8, 0x6c, 0x66, 0x20, 0x6f, 0x6e, 0x20, 0x61, 0x20]
}

/// The word stands in the text at `i`.
pub open spec fn occurs_at(text: Seq<u8>, word: Seq<u8>, i: int) -> bool {
    0 <= i && i + word.len() <= text.len() && text.subrange(i, i + word.len()) == word
}

/// What is counted.
pub enum Find {
    /// The word `elf`, also inside another word.
    Elf,
    /// The word `shelf`.
    Shelf,
    /// The word `shelf` right after `elf on a `.
    ElfOnAShelf,
}

/// The find is made at `i`.
pub open spec fn found_at(text: Seq<u8>, find: Find, i: int) -> bool {
    match find {
        Find::Elf => occurs_at(text, elf(), i),
        Find::Shelf => occurs_at(text, shelf(), i),
        Find::ElfOnAShelf => occurs_at(text, shelf(), i) && occurs_at(text, elf_on_a(), i - 9),
    }
}

/// At how many of the first `n` places the find is made.
pub open spec fn count_found(text: Seq<u8>, find: Find, n: int) -> nat
    decreases n,
{
    if n <= 0 {
        0
    } else {
        count_found(text, find, n - 1) + if found_at(text, find, n - 1) {
            1nat
        } else {
            0nat
        }
    }
}

/// The byte continues a character of several bytes.
pub open spec fn is_continuation(b: u8) -> bool {
    b & 0xC0 == 0x80
}

/// Nine bytes before the `shelf` at `i` a character of several bytes is under
/// way: the text cannot be cut there.
pub open spec fn cut_inside_character(text: Seq<u8>, i: int) -> bool {
    occurs_at(text, shelf(), i) && i >= 9 && is_continuation(text[i - 9])
}

/// The counts are defined: no `shelf` asks for a cut inside a character.
pub open spec fn countable(text: Seq<u8>) -> bool {
    forall|i: int| !#[trigger] cut_inside_character(text, i)
}

/// How many elves, how many elves on a shelf, how many shelves without one.
#[derive(Clone, Copy, Debug, PartialEq, Eq, Structural)]
pub struct ElfTally {
    pub elf: usize,
    pub elf_on_a_shelf: usize,
    pub shelf_with_no_elf: usize,
}

/// The tally of a text.
pub open spec fn is_tally_of(text: Seq<u8>, tally: ElfTally) -> bool {
    &&& tally.elf == count_found(text, Find::Elf, text.len() as int)
    &&& tally.elf_on_a_shelf == count_found(text, Find::ElfOnAShelf, text.len() as int)
    &&& tally.shelf_with_no_elf == count_found(text, Find::Shelf, text.len() as int) - count_found(
        text,
        Find::ElfOnAShelf,
        text.len() as int,
    )
}

/// Tells whether the word stands in the text at `i`.
pub fn stands_at(text: &[u8], word: &[u8], i: usize) -> (b: bool)
    ensures
        b == occurs_at(text@, word@, i as int),
{
    let n = text.len();
    let m = word.len();
    if m > n || i > n - m {
        return false;
    }
    let mut k: usize = 0;
    while k < m
        invariant
            n == text.len(),
            m == word.len(),
            i + m <= n,
            k <= m,
            forall|j: int| 0 <= j < k ==> text@[i + j] == word@[j],
        decreases m - k,
    {
        if text[i + k] != word[k] {
            assert(text@.subrange(i as int, i + m)[k as int] != word@[k as int]);
            return false;
        }
        k += 1;
    }
    assert(text@.subrange(i as int, i + m) =~= word@);
    true
}

/// Counts the elves and shelves of a text; there are no counts where a `shelf`
/// asks for a cut inside a character.
pub fn count_elves(text: &[u8]) -> (tally: Option<ElfTally>)
    ensures
        match tally {
            Some(counts) => countable(text@) && is_tally_of(text@, counts),
            None => !countable(text@),
        },
{
    let elf_word: [u8; 3] = [0x65, 0x6c, 0x66];
    let shelf_word: [u8; 5] = [0x73, 0x68, 0x65, 0x6c, 0x66];
    let lead_word: [u8; 9] = [0x65, 0x6c, 0x66, 0x20, 0x6f, 0x6e, 0x20, 0x61, 0x20];
    assert(elf_word@ =~= elf());
    assert(shelf_word@ =~= shelf());
    assert(lead_word@ =~= elf_on_a());
    let n = text.len();
    let mut elves: usize = 0;
    let mut shelves: usize = 0;
    let mut held: usize = 0;
    let mut i: usize = 0;
    while i < n
        invariant
            n == text.len(),
            i <= n,
            elf_word@ == elf(),
            shelf_word@ == shelf(),
            lead_word@ == elf_on_a(),
            elves == count_found(text@, Find::Elf, i as int),
            shelves == count_found(text@, Find::Shelf, i as int),
            held == count_found(text@, Find::ElfOnAShelf, i as int),
            elves <= i,
            held <= shelves <= i,
            forall|j: int| j < i ==> !#[trigger] cut_inside_character(text@, j),
        decreases n - i,
    {
        if stands_at(text, elf_word.as_slice(), i) {
            elves += 1;
        }
        if stands_at(text, shelf_word.as_slice(), i) {
            shelves += 1;
            if i >= 9 {
                let before = text[i - 9];
                if before & 0xC0 == 0x80 {
                    assert(cut_inside_character(text@, i as int));
                    return None;
                }
                if stands_at(text, lead_word.as_slice(), i - 9) {
                    held += 1;
                }
            } else {
                assert(!occurs_at(text@, elf_on_a(), i - 9));
            }
        }
        i += 1;
    }
    assert forall|j: int| !#[trigger] cut_inside_character(text@, j) by {
        if j >= n {
            assert(!occurs_at(text@, shelf(), j));
        }
    }
    Some(ElfTally { elf: elves, elf_on_a_shelf: held, shelf_with_no_elf: shelves - held })
}

/// Counts the elves and shelves of a text, over its UTF-8 bytes.
pub fn shelf_elf(body: &str) -> (tally: Option<ElfTally>)
    ensures
        match tally {
            Some(counts) => countable(encode_utf8(body@)) && is_tally_of(encode_utf8(body@), counts),
            None => !countable(encode_utf8(body@)),
        },
{
    count_elves(body.as_bytes())
}

} // verus!
