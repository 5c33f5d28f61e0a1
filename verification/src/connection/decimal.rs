//! Decimal numbers on the wire.

use crate::trusted::number::{atoi, atoi_u64, digits_end, digits_value, is_digit};
use vstd::prelude::*;

verus! {

/// The decimal digits of `n`, most significant first, without leading zeros.
pub open spec fn decimal(n: nat) -> Seq<u8>
    decreases n,
{
    if n < 10 {
        seq![(48 + n) as u8]
    } else {
        decimal(n / 10).push((48 + n % 10) as u8)
    }
}

/// Appends the decimal digits of `n` to `dst`.
pub fn write_decimal(dst: &mut Vec<u8>, n: u64)
    ensures
        final(dst)@ == old(dst)@ + decimal(n as nat),
    decreases n,
{
    if n >= 10 {
        write_decimal(dst, n / 10);
    }
    let digit: u8 = (n % 10) as u8;
    dst.push(48u8 + digit);
    proof {
        assert(final(dst)@ =~= old(dst)@ + decimal(n as nat)) by {
            if n >= 10 {
                assert(old(dst)@ + decimal((n / 10) as nat).push((48 + n % 10) as u8) =~= (old(dst)@ + decimal((n / 10) as nat)).push((48 + n % 10) as u8));
            }
        }
    }
}

/// Every byte of `decimal(n)` is a digit, and there is at least one.
pub proof fn lemma_decimal_digits(n: nat)
    ensures
        decimal(n).len() >= 1,
        forall|i: int| 0 <= i < decimal(n).len() ==> is_digit(#[trigger] decimal(n)[i]),
    decreases n,
{
    if n >= 10 {
        lemma_decimal_digits(n / 10);
    }
}

/// The digits of `n` write `n`.
pub proof fn lemma_decimal_value(n: nat)
    ensures
        digits_value(decimal(n)) == n,
    decreases n,
{
    if n < 10 {
        assert(decimal(n).drop_last() =~= Seq::<u8>::empty());
        assert(digits_value(decimal(n).drop_last()) == 0);
    } else {
        lemma_decimal_value(n / 10);
        assert(decimal(n).drop_last() =~= decimal(n / 10));
    }
}

/// A run of digits that ends at the text's end or before a byte that is no
/// digit is the whole run.
pub proof fn lemma_digits_end(text: Seq<u8>, from: int, to: int)
    requires
        0 <= from <= to <= text.len(),
        forall|i: int| from <= i < to ==> is_digit(#[trigger] text[i]),
        to < text.len() ==> !is_digit(text[to]),
    ensures
        digits_end(text, from) == to,
    decreases to - from,
{
    if from < to {
        lemma_digits_end(text, from + 1, to);
    }
}

/// Every byte of `line` is a decimal digit.
pub open spec fn all_digits(line: Seq<u8>) -> bool {
    forall|i: int| 0 <= i < line.len() ==> is_digit(#[trigger] line[i])
}

/// The number that `line` writes in decimal: `line` has to be one or more
/// decimal digits and nothing else, and their value has to fit 64 bits.
/// Anything else is no number: an empty line, a sign, a blank, a letter
/// after the digits, a value that is too large.
pub open spec fn decimal_value(line: Seq<u8>) -> Option<u64> {
    if line.len() > 0 && all_digits(line) && digits_value(line) <= u64::MAX {
        Some(digits_value(line) as u64)
    } else {
        None
    }
}

/// On a line of digits and nothing else the number parser reads the whole
/// line.
pub proof fn lemma_atoi_digits(line: Seq<u8>)
    requires
        line.len() > 0,
        all_digits(line),
    ensures
        atoi_u64(line) == decimal_value(line),
{
    assert(is_digit(line[0]));
    lemma_digits_end(line, 0, line.len() as int);
    assert(line.subrange(0, line.len() as int) =~= line);
}

/// Reads `line` as a decimal number.
pub fn parse_decimal(line: &[u8]) -> (number: Option<u64>)
    ensures
        number == decimal_value(line@),
{
    if line.len() == 0 {
        return None;
    }
    let mut i: usize = 0;
    while i < line.len()
        invariant
            i <= line.len(),
            forall|j: int| 0 <= j < i ==> is_digit(#[trigger] line@[j]),
        decreases line.len() - i,
    {
        if line[i] < 48 || line[i] > 57 {
            return None;
        }
        i = i + 1;
    }
    proof {
        lemma_atoi_digits(line@);
    }
    atoi(line)
}

/// The digits of a 64-bit number are read back as the number.
pub proof fn lemma_decimal_round_trip(n: u64)
    ensures
        decimal_value(decimal(n as nat)) == Some(n),
{
    lemma_decimal_digits(n as nat);
    lemma_decimal_value(n as nat);
}

} // verus!
