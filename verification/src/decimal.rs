//! ASCII decimal numbers: the digits of a body length in a request, and the
//! number of a status in a response.

use vstd::prelude::*;
use vstd::slice::slice_subrange;

verus! {

/// Whether `b` is one of the ASCII digits `0` to `9`.
pub open spec fn is_digit(b: u8) -> bool {
    48 <= b <= 57
}

/// Whether every byte of `s` is an ASCII digit.
pub open spec fn all_digits(s: Seq<u8>) -> bool {
    forall|i: int| 0 <= i < s.len() ==> is_digit(#[trigger] s[i])
}

/// The number that the digits `s` denote, most significant digit first. The
/// empty string denotes 0, and leading zeros do not count.
pub open spec fn decimal_value(s: Seq<u8>) -> nat
    decreases s.len(),
{
    if s.len() == 0 {
        0
    } else {
        decimal_value(s.drop_last()) * 10 + (s.last() - 48) as nat
    }
}

/// The decimal digits of `n`, most significant first: `0` for zero, and no
/// leading zero for any other number.
pub open spec fn decimal(n: nat) -> Seq<u8>
    decreases n,
{
    if n < 10 {
        seq![(48 + n) as u8]
    } else {
        decimal(n / 10).push((48 + n % 10) as u8)
    }
}

/// Ten to the power `e`.
spec fn pow10(e: nat) -> nat
    decreases e,
{
    if e == 0 {
        1
    } else {
        10 * pow10((e - 1) as nat)
    }
}

/// Appends the decimal digits of `n` to `out`, found by dividing by ten until
/// nothing is left.
pub fn write_usize(out: &mut Vec<u8>, n: usize)
    ensures
        final(out)@ == old(out)@ + decimal(n as nat),
{
    if n == 0 {
        out.push(48);
        assert(out@ =~= old(out)@ + decimal(0));
        return;
    }
    let mut digits: [u8; 20] = [0u8; 20];
    let mut i: usize = 20;
    let mut rest: usize = n;
    proof {
        reveal_with_fuel(pow10, 21);
        assert(decimal(n as nat) =~= decimal(rest as nat) + digits@.subrange(20, 20));
    }
    while rest > 0
        invariant
            i <= 20,
            rest < pow10(i as nat),
            rest > 0 ==> decimal(n as nat) == decimal(rest as nat) + digits@.subrange(i as int, 20),
            rest == 0 ==> decimal(n as nat) == digits@.subrange(i as int, 20),
        decreases rest,
    {
        let ghost tail = digits@.subrange(i as int, 20);
        let digit: u8 = 48 + (rest % 10) as u8;
        i -= 1;
        digits[i] = digit;
        proof {
            assert(digits@.subrange(i as int, 20) =~= seq![digit] + tail);
            if rest >= 10 {
                assert(decimal(rest as nat) == decimal((rest / 10) as nat).push(digit));
                assert(decimal((rest / 10) as nat).push(digit) + tail =~= decimal(
                    (rest / 10) as nat,
                ) + (seq![digit] + tail));
            } else {
                assert(decimal(rest as nat) =~= seq![digit]);
            }
        }
        rest /= 10;
    }
    let written = slice_subrange(digits.as_slice(), i, 20);
    out.extend_from_slice(written);
    assert(out@ =~= old(out)@ + decimal(n as nat));
}

/// Reads a number from ASCII digits. The result is `None` where a byte is no
/// digit or the number does not fit in 16 bits. Leading zeros are accepted,
/// and the empty string reads as 0.
pub fn parse_u16(bytes: &[u8]) -> (number: Option<u16>)
    ensures
        number == if all_digits(bytes@) && decimal_value(bytes@) <= u16::MAX {
            Some(decimal_value(bytes@) as u16)
        } else {
            None::<u16>
        },
{
    let mut result: u16 = 0;
    let mut i: usize = 0;
    assert(bytes@.take(0) =~= Seq::<u8>::empty());
    while i < bytes.len()
        invariant
            i <= bytes@.len(),
            all_digits(bytes@.take(i as int)),
            result == decimal_value(bytes@.take(i as int)),
        decreases bytes@.len() - i,
    {
        let b = bytes[i];
        if b < 48 || b > 57 {
            assert(!is_digit(bytes@[i as int]));
            return None;
        }
        proof {
            assert(bytes@.take(i + 1).drop_last() =~= bytes@.take(i as int));
            assert(bytes@.take(i + 1).last() == b);
            assert(all_digits(bytes@.take(i + 1)));
            if all_digits(bytes@) {
                lemma_value_of_prefix(bytes@, i + 1);
            }
        }
        result = match result.checked_mul(10) {
            Some(shifted) => shifted,
            None => {
                return None;
            },
        };
        result = match result.checked_add((b - 48) as u16) {
            Some(sum) => sum,
            None => {
                return None;
            },
        };
        i += 1;
    }
    assert(bytes@.take(i as int) =~= bytes@);
    Some(result)
}

/// A prefix of a digit string denotes no more than the whole string.
pub proof fn lemma_value_of_prefix(s: Seq<u8>, k: int)
    requires
        all_digits(s),
        0 <= k <= s.len(),
    ensures
        decimal_value(s.take(k)) <= decimal_value(s),
    decreases s.len(),
{
    if k == s.len() {
        assert(s.take(k) =~= s);
    } else {
        assert(s.drop_last().take(k) =~= s.take(k));
        lemma_value_of_prefix(s.drop_last(), k);
    }
}

/// Writing a number in decimal and reading the digits back gives the number:
/// the digits are all ASCII digits, there is at least one, and the first is
/// `0` only for zero itself, whose digits are the single `0`.
pub proof fn lemma_decimal_round_trip(n: nat)
    ensures
        all_digits(decimal(n)),
        decimal_value(decimal(n)) == n,
        decimal(n).len() >= 1,
        decimal(n)[0] == 48 <==> n == 0,
        n == 0 ==> decimal(n) == seq![48u8],
    decreases n,
{
    if n < 10 {
        assert(decimal(n).drop_last() =~= Seq::<u8>::empty());
        assert(decimal_value(Seq::<u8>::empty()) == 0);
    } else {
        lemma_decimal_round_trip(n / 10);
        assert(decimal(n).drop_last() =~= decimal(n / 10));
    }
}

} // verus!
