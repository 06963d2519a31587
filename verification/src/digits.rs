//! The numbers written in a text: runs of numeric characters, read as decimal
//! numbers and added up.

use vstd::prelude::*;
use crate::glyph::Glyph;

verus! {

/// The length of the run of numeric characters with which the text begins.
pub open spec fn leading_run(glyphs: Seq<Glyph>) -> nat
    decreases glyphs.len(),
{
    if glyphs.len() == 0 || !glyphs[0].numeric {
        0
    } else {
        1 + leading_run(glyphs.drop_first())
    }
}

/// Every character of the run is an ASCII decimal digit.
pub open spec fn all_decimal(run: Seq<Glyph>) -> bool {
    forall|i: int| 0 <= i < run.len() ==> (#[trigger] run[i]).is_decimal_digit()
}

/// The number that a run of decimal digits writes, most significant digit first.
pub open spec fn decimal_value(run: Seq<Glyph>) -> nat
    decreases run.len(),
{
    if run.len() == 0 {
        0
    } else {
        decimal_value(run.drop_last()) * 10 + run.last().digit_value()
    }
}

/// A run reads as a number when it is made of decimal digits and its value fits in 32 bits.
pub open spec fn reads_as_number(run: Seq<Glyph>) -> bool {
    all_decimal(run) && decimal_value(run) <= u32::MAX
}

/// What a run adds to the sum: its value where it is not empty and reads as a
/// number, nothing otherwise.
pub open spec fn run_worth(run: Seq<Glyph>) -> nat {
    if run.len() > 0 && reads_as_number(run) {
        decimal_value(run)
    } else {
        0
    }
}

/// The sum of the numbers in the text. The text is cut at every character that is
/// not numeric; each piece that reads as a number counts, every other piece is skipped.
pub open spec fn number_sum(glyphs: Seq<Glyph>) -> nat
    decreases glyphs.len(),
{
    let k = leading_run(glyphs);
    if k >= glyphs.len() {
        run_worth(glyphs)
    } else {
        run_worth(glyphs.take(k as int)) + number_sum(glyphs.skip(k as int + 1))
    }
}

/// A run of `k` numeric characters that ends the text, or is followed by a
/// character that is not numeric, is the leading run.
pub proof fn lemma_leading_run(glyphs: Seq<Glyph>, k: nat)
    requires
        k <= glyphs.len(),
        forall|j: int| 0 <= j < k ==> (#[trigger] glyphs[j]).numeric,
        k < glyphs.len() ==> !glyphs[k as int].numeric,
    ensures
        leading_run(glyphs) == k,
    decreases k,
{
    if k > 0 {
        let rest = glyphs.drop_first();
        assert forall|j: int| 0 <= j < k - 1 implies (#[trigger] rest[j]).numeric by {
            assert(rest[j] == glyphs[j + 1]);
        }
        lemma_leading_run(rest, (k - 1) as nat);
    }
}

/// A run that does not read as a number does not read as one when it grows.
pub proof fn lemma_unreadable_stays(run: Seq<Glyph>, next: Glyph)
    requires
        !reads_as_number(run),
    ensures
        !reads_as_number(run.push(next)),
{
    let longer = run.push(next);
    assert(longer.drop_last() == run);
    if all_decimal(longer) {
        assert forall|i: int| 0 <= i < run.len() implies (#[trigger] run[i]).is_decimal_digit() by {
            assert(longer[i] == run[i]);
        }
    }
}

/// Adds up the numbers in the text.
pub fn sum_of_numbers(glyphs: &Vec<Glyph>) -> (total: u128)
    ensures
        total == number_sum(glyphs@),
{
    let n = glyphs.len();
    let mut total: u128 = 0;
    let mut start: usize = 0;
    let mut value: u64 = 0;
    let mut readable = true;
    let mut i: usize = 0;
    assert(glyphs@.skip(0) == glyphs@);
    while i < n
        invariant
            n == glyphs.len(),
            start <= i <= n,
            total <= start * 0xffff_ffff,
            total + number_sum(glyphs@.skip(start as int)) == number_sum(glyphs@),
            forall|j: int| start <= j < i ==> (#[trigger] glyphs@[j]).numeric,
            readable == reads_as_number(glyphs@.subrange(start as int, i as int)),
            readable ==> value == decimal_value(glyphs@.subrange(start as int, i as int)),
            value <= u32::MAX,
        decreases n - i,
    {
        let g = glyphs[i];
        let ghost run = glyphs@.subrange(start as int, i as int);
        if g.numeric {
            let ghost longer = glyphs@.subrange(start as int, i + 1);
            assert(longer == run.push(g));
            assert(longer.drop_last() == run);
            if readable && '0' <= g.ch && g.ch <= '9' {
                let next = value * 10 + (g.ch as u32 - '0' as u32) as u64;
                if next <= 0xffff_ffff {
                    value = next;
                } else {
                    readable = false;
                }
            } else {
                proof {
                    if readable {
                        assert(longer[longer.len() - 1] == g);
                    } else {
                        lemma_unreadable_stays(run, g);
                    }
                }
                readable = false;
            }
        } else {
            proof {
                let tail = glyphs@.skip(start as int);
                let k = (i - start) as nat;
                assert forall|j: int| 0 <= j < k implies (#[trigger] tail[j]).numeric by {
                    assert(tail[j] == glyphs@[start + j]);
                }
                lemma_leading_run(tail, k);
                assert(tail.take(k as int) == run);
                assert(tail.skip(k as int + 1) == glyphs@.skip(i + 1));
            }
            if readable && i > start {
                total = total + value as u128;
            }
            assert(total <= (i + 1) * 0xffff_ffff) by (nonlinear_arith)
                requires
                    total <= start * 0xffff_ffff + 0xffff_ffff,
                    start <= i,
            ;
            start = i + 1;
            value = 0;
            readable = true;
            assert(glyphs@.subrange(start as int, start as int).len() == 0);
        }
        i += 1;
    }
    proof {
        let tail = glyphs@.skip(start as int);
        let k = (n - start) as nat;
        assert forall|j: int| 0 <= j < k implies (#[trigger] tail[j]).numeric by {
            assert(tail[j] == glyphs@[start + j]);
        }
        lemma_leading_run(tail, k);
        assert(tail == glyphs@.subrange(start as int, n as int));
    }
    if readable && n > start {
        total = total + value as u128;
    }
    total
}

} // verus!
