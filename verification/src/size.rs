//! Checking a grid dimension that was given as text.
//!
//! The walk itself takes any grid with at least one row and one column. A
//! front end that wants the token to start on the exact middle cell asks
//! for odd dimensions, and this is the check it applies to its arguments.

use vstd::prelude::*;
use vstd::string::StringExecFns;

verus! {

/// Whether the character is one of the ten decimal digits.
pub open spec fn is_digit(c: char) -> bool {
    '0' <= c && c <= '9'
}

/// The number that a string of decimal digits denotes.
pub open spec fn digits_value(digits: Seq<char>) -> nat
    decreases digits.len(),
{
    if digits.len() == 0 {
        0
    } else {
        10 * digits_value(digits.drop_last()) + (digits.last() as nat - '0' as nat) as nat
    }
}

/// The text without a plus sign in front of it.
pub open spec fn unsigned_part(text: Seq<char>) -> Seq<char> {
    if text.len() > 0 && text[0] == '+' {
        text.drop_first()
    } else {
        text
    }
}

/// The size that a text denotes: an optional plus sign and then one or
/// more decimal digits and nothing else, with a value that a `usize` can
/// hold. Any other text denotes no size.
pub open spec fn parsed_size(text: Seq<char>) -> Option<usize> {
    let digits = unsigned_part(text);
    if digits.len() > 0 && (forall|i: int| 0 <= i < digits.len() ==> is_digit(#[trigger] digits[i]))
        && digits_value(digits) <= usize::MAX {
        Some(digits_value(digits) as usize)
    } else {
        None
    }
}

/// The ten decimal digits.
pub open spec fn digit_chars() -> Seq<char> {
    seq!['0', '1', '2', '3', '4', '5', '6', '7', '8', '9']
}

/// A number in decimal, without sign and without leading zeros.
pub open spec fn decimal(v: nat) -> Seq<char>
    decreases v,
{
    if v < 10 {
        seq![digit_chars()[v as int]]
    } else {
        decimal(v / 10).push(digit_chars()[(v % 10) as int])
    }
}

/// What an even size is told.
pub open spec fn odd_complaint(v: nat) -> Seq<char> {
    "Size needs to be odd! "@ + decimal(v) + " is not valid."@
}

/// What a text that denotes no size is told, around the reason that the
/// parser gave.
pub open spec fn malformed_complaint(reason: Seq<char>) -> Seq<char> {
    "Size needs to be valid positive integer! "@ + reason + " is not valid."@
}

/// `core::num::ParseIntError`, the error of the standard library's integer
/// parser. It is carried through unread.
#[verifier::external_type_specification]
#[verifier::external_body]
pub struct ExParseIntError(core::num::ParseIntError);

/// `str::parse::<usize>`: the standard library reads an optional plus sign
/// followed by decimal digits only, and fails on the empty string, on a
/// sign without digits, on any other character and on a value that does
/// not fit. The contract claims that it succeeds exactly on the texts that
/// denote a size, with that size. Of the error nothing is claimed.
#[verifier::external_body]
fn parse_size(s: &str) -> (r: Result<usize, core::num::ParseIntError>)
    ensures
        r is Ok <==> parsed_size(s@) is Some,
        r matches Ok(v) ==> parsed_size(s@) == Some(v),
{
    s.parse::<usize>()
}

/// Appends `v` in decimal.
fn push_decimal(text: &mut String, v: usize)
    ensures
        final(text)@ == old(text)@ + decimal(v as nat),
    decreases v,
{
    let digits: [char; 10] = ['0', '1', '2', '3', '4', '5', '6', '7', '8', '9'];
    if v >= 10 {
        push_decimal(text, v / 10);
    }
    text.push(digits[v % 10]);
}

/// Accepts the text of an odd size. An even size is refused with its
/// value, and a text that denotes no size with the parser's reason.
pub fn is_valid_size(s: &str) -> (r: Result<(), String>)
    ensures
        match parsed_size(s@) {
            Some(v) => if v % 2 == 1 {
                r is Ok
            } else {
                r matches Err(complaint) && complaint@ == odd_complaint(v as nat)
            },
            None => r matches Err(complaint) && exists|reason: Seq<char>|
                complaint@ == malformed_complaint(reason),
        },
{
    match parse_size(s) {
        Ok(v) => {
            if v % 2 == 1 {
                Ok(())
            } else {
                let mut complaint: String = String::from_str("Size needs to be odd! ");
                push_decimal(&mut complaint, v);
                complaint.append(" is not valid.");
                Err(complaint)
            }
        },
        Err(e) => {
            let reason: String = e.to_string();
            let mut complaint: String = String::from_str(
                "Size needs to be valid positive integer! ",
            );
            complaint.append(reason.as_str());
            complaint.append(" is not valid.");
            proof {
                assert(complaint@ == malformed_complaint(reason@));
            }
            Err(complaint)
        },
    }
}

} // verus!
