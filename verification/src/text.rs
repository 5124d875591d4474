//! Decimal text: how numbers are written and read back, and the standard
//! library calls that do it.
use vstd::prelude::*;

verus! {

/// The character of the decimal digit `d` (for `d < 10`).
pub open spec fn digit_char(d: nat) -> char {
    (d + 48) as char
}

/// Whether `c` is one of the decimal digits `0` to `9`.
pub open spec fn is_digit(c: char) -> bool {
    48 <= c as u32 <= 57
}

/// `n` written in decimal, without sign or leading zeros.
pub open spec fn decimal(n: nat) -> Seq<char>
    decreases n,
{
    if n < 10 {
        seq![digit_char(n)]
    } else {
        decimal(n / 10).push(digit_char(n % 10))
    }
}

/// The value of a string of decimal digits.
pub open spec fn digits_value(s: Seq<char>) -> nat
    decreases s.len(),
{
    if s.len() == 0 {
        0
    } else {
        digits_value(s.drop_last()) * 10 + (s.last() as u32 - 48) as nat
    }
}

/// The digits of a number as `str::parse` reads it: a leading `+` is dropped.
pub open spec fn unsigned_digits(s: Seq<char>) -> Seq<char> {
    if s.len() > 0 && s[0] == '+' {
        s.drop_first()
    } else {
        s
    }
}

/// What parsing `s` as a `usize` gives: an optional `+` sign followed by at
/// least one decimal digit and nothing else, whose value fits in a `usize`.
pub open spec fn parsed_usize(s: Seq<char>) -> Option<usize> {
    let d = unsigned_digits(s);
    if d.len() > 0 && (forall|i: int| 0 <= i < d.len() ==> #[trigger] is_digit(d[i])) && digits_value(d) <= usize::MAX {
        Some(digits_value(d) as usize)
    } else {
        None
    }
}

/// Declares the standard library's integer parse error, as an opaque type.
#[verifier::external_type_specification]
#[verifier::external_body]
pub struct ExParseIntError(std::num::ParseIntError);

/// `ParseIntError` derives `Clone` over its one field, so a clone equals the original.
pub assume_specification[<std::num::ParseIntError as Clone>::clone](e: &std::num::ParseIntError) -> (r: std::num::ParseIntError)
    ensures
        r == *e,
;

/// The error that parsing the text `s` as a `usize` gives when it fails. Parsing
/// depends on the text alone, so the same text always fails with the same error.
pub uninterp spec fn parse_failure(s: Seq<char>) -> std::num::ParseIntError;

/// Calls `str::parse::<usize>`. Its documentation gives the accepted text: an
/// optional `+` sign followed by only the digits `0` to `9`, whose value fits
/// the type; anything else, the empty string included, is an error. This
/// contract states exactly that; the error is the one that the text gives,
/// named by `parse_failure`, whose kind is left unsaid.
#[verifier::external_body]
pub(crate) fn parse_usize(s: &str) -> (r: Result<usize, std::num::ParseIntError>)
    ensures
        match r {
            Ok(n) => parsed_usize(s@) == Some(n),
            Err(e) => parsed_usize(s@) is None && e == parse_failure(s@),
        },
{
    s.parse::<usize>()
}

/// Writes `n` with `ToString`, which for a `usize` is its `Display`: the number in
/// decimal, without sign or leading zeros. The contract states that text.
#[verifier::external_body]
pub(crate) fn decimal_text(n: usize) -> (r: String)
    ensures
        r@ == decimal(n as nat),
{
    n.to_string()
}

} // verus!
