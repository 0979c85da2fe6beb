//! Single decimal digits: from character to number and back.

use crate::model::{digit_char, digit_value, doubled_digit, is_digit};
use vstd::prelude::*;

verus! {

/// The value of `c` as a decimal digit, or `None` if it is not one.
pub fn decimal_value(c: char) -> (r: Option<u32>)
    ensures
        is_digit(c) ==> r == Some(digit_value(c) as u32),
        !is_digit(c) ==> r is None,
{
    if '0' <= c && c <= '9' {
        Some(c as u32 - '0' as u32)
    } else {
        None
    }
}

/// Twice the digit `d`, less nine where the product has two digits.
pub fn doubled(d: u32) -> (r: u32)
    requires
        d <= 9,
    ensures
        r == doubled_digit(d as nat),
        r <= 9,
{
    if d > 4 {
        1 + 2 * d - 10
    } else {
        2 * d
    }
}

/// The character that stands for the digit `d`.
pub fn decimal_char(d: u32) -> (c: char)
    requires
        d <= 9,
    ensures
        c == digit_char(d as nat),
        is_digit(c),
        digit_value(c) == d,
{
    ('0' as u8 + d as u8) as char
}

} // verus!
