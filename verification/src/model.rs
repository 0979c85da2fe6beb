//! The mathematical model that the contracts of this crate speak of.
//!
//! A string is seen as its sequence of characters, a number as the sequence
//! of its decimal digits, left to right.

use crate::error::LuhnError;
use vstd::prelude::*;

verus! {

/// `c` is one of the ASCII digits `'0'` to `'9'`.
pub open spec fn is_digit(c: char) -> bool {
    '0' <= c <= '9'
}

/// `c` may occur in a number: it is a digit or a space.
pub open spec fn is_allowed(c: char) -> bool {
    c == ' ' || is_digit(c)
}

/// The number that the digit `c` stands for.
pub open spec fn digit_value(c: char) -> nat
    recommends
        is_digit(c),
{
    (c as int - '0' as int) as nat
}

/// The digit that stands for `d`.
pub open spec fn digit_char(d: nat) -> char
    recommends
        d <= 9,
{
    ('0' as int + d) as char
}

/// Every character of `s` is a digit or a space.
pub open spec fn well_formed(s: Seq<char>) -> bool {
    forall|i: int| 0 <= i < s.len() ==> is_allowed(#[trigger] s[i])
}

/// Position `i` holds the first character of `s` that is neither a digit nor
/// a space.
pub open spec fn first_offender(s: Seq<char>, i: int) -> bool {
    &&& 0 <= i < s.len()
    &&& !is_allowed(s[i])
    &&& forall|j: int| 0 <= j < i ==> is_allowed(#[trigger] s[j])
}

/// The position of the first character of `s` that is neither a digit nor a
/// space, where there is one.
pub open spec fn offender(s: Seq<char>) -> int
    recommends
        !well_formed(s),
{
    choose|i: int| first_offender(s, i)
}

/// The digits of `s` as numbers, in the order in which they stand in `s`.
/// Every other character is passed over.
pub open spec fn digits(s: Seq<char>) -> Seq<nat>
    decreases s.len(),
{
    if s.len() == 0 {
        Seq::empty()
    } else if is_digit(s.last()) {
        digits(s.drop_last()).push(digit_value(s.last()))
    } else {
        digits(s.drop_last())
    }
}

/// Twice `d`, with the two decimal digits of the product added up:
/// `2 * d` up to 4, and `2 * d - 9` from 5 on.
pub open spec fn doubled_digit(d: nat) -> nat
    recommends
        d <= 9,
{
    if d <= 4 {
        2 * d
    } else {
        (2 * d - 9) as nat
    }
}

/// The Luhn sum of `ds`: going from the last digit to the first, every second
/// digit is doubled (see [`doubled_digit`]) and all are added up. The last
/// digit itself is doubled if `double_last` holds, and taken as it is if not.
pub open spec fn luhn_total(ds: Seq<nat>, double_last: bool) -> nat
    decreases ds.len(),
{
    if ds.len() == 0 {
        0
    } else if double_last {
        luhn_total(ds.drop_last(), false) + doubled_digit(ds.last())
    } else {
        luhn_total(ds.drop_last(), true) + ds.last()
    }
}

/// The sum that a scan from the left keeps under `parity` (0 or 1): a digit
/// whose position among the digits, counted from zero at the left, has this
/// parity is doubled (see [`doubled_digit`]), the others are taken as they are.
pub open spec fn parity_sum(ds: Seq<nat>, parity: int) -> nat
    decreases ds.len(),
{
    if ds.len() == 0 {
        0
    } else if (ds.len() - 1) % 2 == parity {
        parity_sum(ds.drop_last(), parity) + doubled_digit(ds.last())
    } else {
        parity_sum(ds.drop_last(), parity) + ds.last()
    }
}

/// The digit that, put behind `ds`, makes the Luhn sum of the whole a
/// multiple of ten.
pub open spec fn check_digit(ds: Seq<nat>) -> nat {
    ((10 - luhn_total(ds, true) % 10) % 10) as nat
}

/// The Luhn sum of `ds`, whose last digit is its check digit, is a multiple of
/// ten.
pub open spec fn passes(ds: Seq<nat>) -> bool {
    luhn_total(ds, false) % 10 == 0
}

/// What [`luhn_check`](crate::luhn_check) returns for a string with the
/// characters `s`.
///
/// A character that is neither a digit nor a space is an error, reported with
/// the first such character and its position. Fewer than two digits are an
/// error too, reported with their number. Otherwise the result says whether
/// the digits pass the Luhn test.
pub open spec fn luhn_check_spec(s: Seq<char>) -> Result<bool, LuhnError> {
    if !well_formed(s) {
        Err(LuhnError::NonDigit(offender(s) as usize, s[offender(s)]))
    } else if digits(s).len() < 2 {
        Err(LuhnError::Short(digits(s).len() as usize))
    } else {
        Ok(passes(digits(s)))
    }
}

/// What [`luhn_digit`](crate::luhn_digit) returns for a string with the
/// characters `s`.
///
/// A character that is neither a digit nor a space is an error, reported with
/// the first such character and its position. A string without any digit is
/// an error too. Otherwise the result is the check digit of the digits, as a
/// character.
pub open spec fn luhn_digit_spec(s: Seq<char>) -> Result<char, LuhnError> {
    if !well_formed(s) {
        Err(LuhnError::NonDigit(offender(s) as usize, s[offender(s)]))
    } else if digits(s).len() < 1 {
        Err(LuhnError::Short(0))
    } else {
        Ok(digit_char(check_digit(digits(s))))
    }
}

} // verus!
