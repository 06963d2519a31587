//! Packet numbers folded by exclusive-or, and the cube of the result.

use vstd::prelude::*;
use crate::decimal::{signed_decimal, signed_decimal_text};

verus! {

/// All packet numbers folded by exclusive-or, beginning at zero.
pub open spec fn xor_all(packets: Seq<i32>) -> i32
    decreases packets.len(),
{
    if packets.len() == 0 {
        0
    } else {
        xor_all(packets.drop_last()) ^ packets.last()
    }
}

/// The third power.
pub open spec fn cubed(x: int) -> int {
    x * x * x
}

/// The cube in decimal where it fits in 32 bits.
pub open spec fn cube_text(x: i32) -> Option<Seq<char>> {
    if i32::MIN <= cubed(x as int) <= i32::MAX {
        Some(signed_decimal(cubed(x as int)))
    } else {
        None
    }
}

/// Cubes a number; there is no answer where the cube leaves the 32-bit range.
pub fn cube(x: i32) -> (result: Option<i32>)
    ensures
        result == if i32::MIN <= cubed(x as int) <= i32::MAX {
            Some(cubed(x as int) as i32)
        } else {
            None
        },
{
    let wide = x as i128;
    assert(0 <= wide * wide <= 0x4000_0000_0000_0000) by (nonlinear_arith)
        requires
            -0x8000_0000 <= wide <= 0x7fff_ffff,
    ;
    let square = wide * wide;
    assert(-0x2000_0000_0000_0000_0000_0000 <= square * wide <= 0x2000_0000_0000_0000_0000_0000)
        by (nonlinear_arith)
        requires
            0 <= square <= 0x4000_0000_0000_0000,
            -0x8000_0000 <= wide <= 0x7fff_ffff,
    ;
    let third = square * wide;
    if third < i32::MIN as i128 || third > i32::MAX as i128 {
        None
    } else {
        Some(third as i32)
    }
}

/// Folds the packet numbers by exclusive-or.
pub fn fold_packets(packets: &Vec<i32>) -> (folded: i32)
    ensures
        folded == xor_all(packets@),
{
    let n = packets.len();
    let mut folded: i32 = 0;
    let mut i: usize = 0;
    while i < n
        invariant
            n == packets.len(),
            i <= n,
            folded == xor_all(packets@.take(i as int)),
        decreases n - i,
    {
        assert(packets@.take(i + 1).drop_last() == packets@.take(i as int));
        folded = folded ^ packets[i];
        i += 1;
    }
    assert(packets@.take(n as int) == packets@);
    folded
}

/// Writes the cube of the exclusive-or of two numbers in decimal; there is no
/// answer where the cube leaves the 32-bit range.
pub fn cube_the_bits(one: i32, two: i32) -> (text: Option<String>)
    ensures
        match cube_text(one ^ two) {
            Some(digits) => text matches Some(written) && written@ == digits,
            None => text is None,
        },
{
    match cube(one ^ two) {
        Some(third) => Some(signed_decimal_text(third as i64)),
        None => None,
    }
}

/// Writes the cube of the exclusive-or of all packet numbers in decimal; there is
/// no answer where the cube leaves the 32-bit range.
pub fn sled_id(packets: &Vec<i32>) -> (text: Option<String>)
    ensures
        match cube_text(xor_all(packets@)) {
            Some(digits) => text matches Some(written) && written@ == digits,
            None => text is None,
        },
{
    match cube(fold_packets(packets)) {
        Some(third) => Some(signed_decimal_text(third as i64)),
        None => None,
    }
}

} // verus!
