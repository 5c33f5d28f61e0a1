//! `atoi::atoi`, as it reads an unsigned 64-bit number from ASCII text.

use vstd::prelude::*;

verus! {

/// An ASCII decimal digit, `b'0'` to `b'9'`.
pub open spec fn is_digit(b: u8) -> bool {
    48 <= b <= 57
}

/// The index just past the run of decimal digits that starts at `from`.
pub open spec fn digits_end(text: Seq<u8>, from: int) -> int
    decreases text.len() - from,
{
    if 0 <= from < text.len() && is_digit(text[from]) {
        digits_end(text, from + 1)
    } else {
        from
    }
}

/// The number that a run of decimal digits writes, most significant first.
pub open spec fn digits_value(digits: Seq<u8>) -> nat
    decreases digits.len(),
{
    if digits.len() == 0 {
        0
    } else {
        digits_value(digits.drop_last()) * 10 + (digits.last() - 48) as nat
    }
}

/// What `atoi::<u64>` makes of `text`.
///
/// One leading `+` or `-` is taken as a sign, then the longest run of
/// decimal digits is read; whatever follows is ignored. Text that starts
/// with neither a sign nor a digit gives nothing. After `-` only zero is
/// accepted; otherwise the digits' value is the result if it fits 64 bits.
/// A sign with no digit after it reads as zero.
pub open spec fn atoi_u64(text: Seq<u8>) -> Option<u64> {
    let minus = text.len() > 0 && text[0] == 45;
    let plus = text.len() > 0 && text[0] == 43;
    let start: int = if minus || plus { 1 } else { 0 };
    let end = digits_end(text, start);
    let value = digits_value(text.subrange(start, end));
    if end == 0 {
        None
    } else if minus {
        if value == 0 { Some(0u64) } else { None }
    } else if value <= u64::MAX {
        Some(value as u64)
    } else {
        None
    }
}

/// Calls `atoi::atoi::<u64>`, which parses a decimal number from the start
/// of `text`. The contract restates the crate's checked, signed parser for an
/// unsigned target: see [`atoi_u64`].
#[verifier::external_body]
pub(crate) fn atoi(text: &[u8]) -> (number: Option<u64>)
    ensures
        number == atoi_u64(text@),
{
    atoi::atoi::<u64>(text)
}

} // verus!

verus! {

/// What `str::parse::<u64>` makes of `text`: an optional `+`, then one or
/// more decimal digits and nothing else, whose value fits 64 bits.
pub open spec fn parse_u64(text: Seq<u8>) -> Option<u64> {
    let start: int = if text.len() > 0 && text[0] == 43 { 1 } else { 0 };
    let digits = text.subrange(start, text.len() as int);
    if digits.len() > 0 && digits_end(digits, 0) == digits.len() && digits_value(digits)
        <= u64::MAX {
        Some(digits_value(digits) as u64)
    } else {
        None
    }
}

/// Calls `str::parse::<u64>`, std's parser of unsigned decimal numbers. It
/// takes the whole string or fails: see [`parse_u64`].
#[verifier::external_body]
pub(crate) fn parse(text: &str) -> (number: Result<u64, std::num::ParseIntError>)
    ensures
        match parse_u64(vstd::utf8::encode_utf8(text@)) {
            Some(n) => number == Ok::<u64, std::num::ParseIntError>(n),
            None => number is Err,
        },
{
    text.parse::<u64>()
}

} // verus!
