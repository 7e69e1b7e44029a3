//! Decimal numerals and the integers that they stand for.

use core::num::ParseIntError;
use vstd::prelude::*;

verus! {

/// One of the ten ASCII digits.
pub open spec fn is_digit(c: char) -> bool {
    '0' <= c && c <= '9'
}

/// Every character of `s` is a digit.
pub open spec fn all_digits(s: Seq<char>) -> bool {
    forall|i: int| 0 <= i < s.len() ==> is_digit(#[trigger] s[i])
}

/// The number that the digits `s` stand for, the most significant first.
pub open spec fn digits_value(s: Seq<char>) -> nat
    decreases s.len(),
{
    if s.len() == 0 {
        0
    } else {
        (10 * digits_value(s.drop_last()) + (s.last() as int - '0' as int)) as nat
    }
}

/// The integer that the numeral `s` stands for: one digit or more, after a
/// `+` or, where `signed` holds, a `-`, or after no sign. Nothing else is a
/// numeral: not the empty text, not a sign alone, no blank and no underscore.
pub open spec fn decimal(s: Seq<char>, signed: bool) -> Option<int> {
    if s.len() > 0 && s[0] == '+' {
        if s.len() > 1 && all_digits(s.skip(1)) {
            Some(digits_value(s.skip(1)) as int)
        } else {
            None
        }
    } else if signed && s.len() > 0 && s[0] == '-' {
        if s.len() > 1 && all_digits(s.skip(1)) {
            Some(-(digits_value(s.skip(1)) as int))
        } else {
            None
        }
    } else if s.len() > 0 && all_digits(s) {
        Some(digits_value(s) as int)
    } else {
        None
    }
}

/// The `u32` that the numeral `s` stands for, if it stands for one.
pub open spec fn decimal_u32(s: Seq<char>) -> Option<u32> {
    match decimal(s, false) {
        Some(v) => if v <= u32::MAX {
            Some(v as u32)
        } else {
            None
        },
        None => None,
    }
}

/// The `i64` that the numeral `s` stands for, if it stands for one.
pub open spec fn decimal_i64(s: Seq<char>) -> Option<i64> {
    match decimal(s, true) {
        Some(v) => if i64::MIN <= v <= i64::MAX {
            Some(v as i64)
        } else {
            None
        },
        None => None,
    }
}

/// `core::num::ParseIntError` of std, of which nothing is read but its wording.
#[verifier::external_type_specification]
#[verifier::external_body]
pub struct ExParseIntError(ParseIntError);

/// `str::parse::<u32>` of std: the value of a decimal numeral without a sign
/// or with `+`, where it fits into `u32`; a failure for every other text.
#[verifier::external_body]
fn parse_u32(text: &str) -> (r: Result<u32, ParseIntError>)
    ensures
        match decimal_u32(text@) {
            Some(v) => r matches Ok(x) && x == v,
            None => r is Err,
        },
{
    text.parse::<u32>()
}

/// `str::parse::<i64>` of std: the value of a decimal numeral without a sign
/// or with `+` or `-`, where it fits into `i64`; a failure for every other text.
#[verifier::external_body]
fn parse_i64(text: &str) -> (r: Result<i64, ParseIntError>)
    ensures
        match decimal_i64(text@) {
            Some(v) => r matches Ok(x) && x == v,
            None => r is Err,
        },
{
    text.parse::<i64>()
}

/// `ToString::to_string` of std on a `ParseIntError`: why the text is no number,
/// in words.
#[verifier::external_body]
fn reason_of(e: &ParseIntError) -> String {
    e.to_string()
}

/// An integer type that is read from a decimal numeral.
pub trait Numeric: Sized {
    /// The value that `text` stands for, if it stands for one of this type.
    spec fn from_text(text: Seq<char>) -> Option<Self>;

    /// Reads `text` as a number. The failure says in words why it is none.
    fn parse(text: &str) -> (r: Result<Self, String>)
        ensures
            match Self::from_text(text@) {
                Some(v) => r matches Ok(x) && x == v,
                None => r is Err,
            },
    ;
}

impl Numeric for u32 {
    open spec fn from_text(text: Seq<char>) -> Option<u32> {
        decimal_u32(text)
    }

    fn parse(text: &str) -> (r: Result<u32, String>) {
        match parse_u32(text) {
            Ok(v) => Ok(v),
            Err(e) => Err(reason_of(&e)),
        }
    }
}

impl Numeric for i64 {
    open spec fn from_text(text: Seq<char>) -> Option<i64> {
        decimal_i64(text)
    }

    fn parse(text: &str) -> (r: Result<i64, String>) {
        match parse_i64(text) {
            Ok(v) => Ok(v),
            Err(e) => Err(reason_of(&e)),
        }
    }
}

} // verus!
