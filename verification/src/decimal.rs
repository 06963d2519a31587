//! Numbers written out in decimal.

use vstd::prelude::*;
use vstd::string::StringExecFns;

verus! {

/// The character of a decimal digit.
pub open spec fn digit_char(d: nat) -> char {
    ('0' as u8 + d as u8) as char
}

/// A natural number in decimal, without leading zeros.
pub open spec fn decimal(n: nat) -> Seq<char>
    decreases n,
{
    if n < 10 {
        seq![digit_char(n)]
    } else {
        decimal(n / 10).push(digit_char(n % 10))
    }
}

/// An integer in decimal, with a minus sign where it is negative.
pub open spec fn signed_decimal(i: int) -> Seq<char> {
    if i < 0 {
        seq!['-'] + decimal((-i) as nat)
    } else {
        decimal(i as nat)
    }
}

/// The digits of a number from the least significant on.
spec fn digits_reversed(n: nat) -> Seq<u8>
    decreases n,
{
    if n < 10 {
        seq![n as u8]
    } else {
        seq![(n % 10) as u8] + digits_reversed(n / 10)
    }
}

/// The characters of the first `k` digits of a reversed digit string, most
/// significant first.
spec fn written(digits: Seq<u8>, k: int) -> Seq<char>
    decreases k,
{
    if k <= 0 {
        Seq::empty()
    } else {
        seq![digit_char(digits[k - 1] as nat)] + written(digits, k - 1)
    }
}

/// Writing out all reversed digits of a number gives its decimal form; the digits
/// are at least one, and each is below ten.
proof fn lemma_written_all(n: nat)
    ensures
        written(digits_reversed(n), digits_reversed(n).len() as int) == decimal(n),
        digits_reversed(n).len() >= 1,
        forall|i: int| 0 <= i < digits_reversed(n).len() ==> #[trigger] digits_reversed(n)[i] < 10,
    decreases n,
{
    let digits = digits_reversed(n);
    if n < 10 {
        assert(written(digits, 0) == Seq::<char>::empty());
        assert(written(digits, 1) == seq![digit_char(n)] + Seq::<char>::empty());
        assert(written(digits, 1) == decimal(n));
    } else {
        let rest = digits_reversed(n / 10);
        lemma_written_all(n / 10);
        lemma_written_shift(digits, rest, (n % 10) as u8, rest.len() as int);
        assert(digits.len() == rest.len() + 1);
        assert forall|i: int| 0 <= i < digits.len() implies #[trigger] digits[i] < 10 by {
            if i > 0 {
                assert(digits[i] == rest[i - 1]);
            }
        }
    }
}

/// A digit put before a reversed digit string comes last when the string is
/// written out.
proof fn lemma_written_shift(digits: Seq<u8>, rest: Seq<u8>, low: u8, k: int)
    requires
        digits == seq![low] + rest,
        0 <= k <= rest.len(),
    ensures
        written(digits, k + 1) == written(rest, k).push(digit_char(low as nat)),
    decreases k,
{
    if k == 0 {
        assert(written(digits, 0) == Seq::<char>::empty());
        assert(written(digits, 1) == seq![digit_char(digits[0] as nat)] + Seq::<char>::empty());
        assert(written(rest, 0) == Seq::<char>::empty());
        assert(written(digits, 1) == written(rest, 0).push(digit_char(low as nat)));
    } else {
        lemma_written_shift(digits, rest, low, k - 1);
        assert(digits[k] == rest[k - 1]);
        assert(written(digits, k + 1) == seq![digit_char(digits[k] as nat)] + written(digits, k));
        assert(written(rest, k) == seq![digit_char(rest[k - 1] as nat)] + written(rest, k - 1));
        assert(written(digits, k + 1) == written(rest, k).push(digit_char(low as nat)));
    }
}

/// The one-character string of a decimal digit.
fn digit_str(d: u8) -> (text: &'static str)
    requires
        d < 10,
    ensures
        text@ == seq![digit_char(d as nat)],
{
    proof {
        reveal_strlit("0");
        reveal_strlit("1");
        reveal_strlit("2");
        reveal_strlit("3");
        reveal_strlit("4");
        reveal_strlit("5");
        reveal_strlit("6");
        reveal_strlit("7");
        reveal_strlit("8");
        reveal_strlit("9");
    }
    let text = match d {
        0 => "0",
        1 => "1",
        2 => "2",
        3 => "3",
        4 => "4",
        5 => "5",
        6 => "6",
        7 => "7",
        8 => "8",
        _ => "9",
    };
    assert(text@ =~= seq![digit_char(d as nat)]);
    text
}

/// Writes after `text` a natural number in decimal.
pub fn append_decimal(text: &mut String, n: u128)
    ensures
        final(text)@ == old(text)@ + decimal(n as nat),
{
    let mut digits: Vec<u8> = Vec::new();
    let mut rest = n;
    while rest >= 10
        invariant
            digits@ + digits_reversed(rest as nat) == digits_reversed(n as nat),
        decreases rest,
    {
        let ghost before = digits@;
        digits.push((rest % 10) as u8);
        assert(digits@ + digits_reversed((rest / 10) as nat) == before + (seq![(rest % 10) as u8]
            + digits_reversed((rest / 10) as nat)));
        rest = rest / 10;
    }
    digits.push(rest as u8);
    proof {
        lemma_written_all(n as nat);
        assert(digits@ == digits_reversed(n as nat));
    }
    let mut k = digits.len();
    let ghost start = text@;
    let ghost mut done = Seq::<char>::empty();
    assert(done + written(digits@, k as int) == written(digits@, k as int));
    assert(start + done == start);
    while k > 0
        invariant
            k <= digits.len(),
            forall|i: int| 0 <= i < digits.len() ==> #[trigger] digits@[i] < 10,
            text@ == start + done,
            done + written(digits@, k as int) == decimal(n as nat),
        decreases k,
    {
        let d = digits[k - 1];
        text.append(digit_str(d));
        proof {
            let next = done.push(digit_char(d as nat));
            assert(text@ == start + next);
            assert(written(digits@, k as int) == seq![digit_char(d as nat)] + written(
                digits@,
                k - 1,
            ));
            assert(next + written(digits@, k - 1) == done + written(digits@, k as int));
            done = next;
        }
        k -= 1;
    }
    proof {
        assert(written(digits@, 0) == Seq::<char>::empty());
        assert(done + Seq::<char>::empty() == done);
    }
}

/// Writes a natural number in decimal.
pub fn decimal_text(n: u128) -> (text: String)
    ensures
        text@ == decimal(n as nat),
{
    let mut text = String::new();
    append_decimal(&mut text, n);
    assert(Seq::<char>::empty() + decimal(n as nat) == decimal(n as nat));
    text
}

/// Writes after `text` an integer in decimal.
pub fn append_signed_decimal(text: &mut String, i: i64)
    ensures
        final(text)@ == old(text)@ + signed_decimal(i as int),
{
    if i < 0 {
        proof {
            reveal_strlit("-");
        }
        let ghost start = text@;
        text.append("-");
        assert("-"@ =~= seq!['-']);
        let magnitude: u128 = (-(i as i128)) as u128;
        append_decimal(text, magnitude);
        assert(start + seq!['-'] + decimal(magnitude as nat) == start + (seq!['-'] + decimal(
            magnitude as nat,
        )));
    } else {
        append_decimal(text, i as u128);
    }
}

/// Writes an integer in decimal.
pub fn signed_decimal_text(i: i64) -> (text: String)
    ensures
        text@ == signed_decimal(i as int),
{
    let mut text = String::new();
    append_signed_decimal(&mut text, i);
    assert(Seq::<char>::empty() + signed_decimal(i as int) == signed_decimal(i as int));
    text
}

} // verus!
