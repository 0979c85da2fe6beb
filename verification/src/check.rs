//! The two public operations: testing a check digit and computing one.

use crate::decimal::decimal_char;
use crate::error::LuhnError;
use crate::laws::lemma_sum_selection;
use crate::model::{
    check_digit, digit_char, digits, first_offender, is_digit, luhn_check_spec, luhn_digit_spec,
    passes, well_formed,
};
use crate::scan::luhn_sum;
use vstd::prelude::*;

verus! {

/// The [Luhn algorithm](https://en.wikipedia.org/wiki/Luhn_algorithm) check
/// digit test, on a string over the alphabet of ASCII digits and spaces.
///
/// Returns `Ok(true)` if the last digit is the check digit of those before
/// it, and `Ok(false)` if it is not. Spaces may stand anywhere and count for
/// nothing. A string with any other character is an error, and so is one
/// with fewer than two digits: a payload digit and a check digit are the
/// least that can be tested.
///
/// # Examples
///
/// ```
/// # use luhn::luhn_check;
/// assert!(luhn_check("158").unwrap());
/// assert!(luhn_check("513").unwrap());
/// assert!(luhn_check("7518").unwrap());
/// ```
pub fn luhn_check(cc_number: &str) -> (r: Result<bool, LuhnError>)
    ensures
        r == luhn_check_spec(cc_number@),
        well_formed(cc_number@) && digits(cc_number@).len() >= 2 ==> r == Ok::<bool, LuhnError>(
            passes(digits(cc_number@)),
        ),
        well_formed(cc_number@) && digits(cc_number@).len() < 2 ==> (r matches Err(
            LuhnError::Short(n),
        ) && n == digits(cc_number@).len()),
        !well_formed(cc_number@) ==> (r matches Err(LuhnError::NonDigit(i, c))
            && first_offender(cc_number@, i as int) && c == cc_number@[i as int]),
{
    let (ndigits, sums): (usize, [u128; 2]) = luhn_sum(cc_number)?;
    if ndigits < 2 {
        return Err(LuhnError::Short(ndigits));
    }
    proof {
        lemma_sum_selection(digits(cc_number@));
    }
    let check: u128 = sums[ndigits % 2];
    Ok(check % 10 == 0)
}

/// The [Luhn algorithm](https://en.wikipedia.org/wiki/Luhn_algorithm) check
/// digit of a number that does not hold one yet, given as a string over the
/// alphabet of ASCII digits and spaces.
///
/// Returns the digit that, written behind the number, makes it pass
/// [`luhn_check`]. Spaces may stand anywhere and count for nothing. A string
/// with any other character is an error, and so is one without a digit.
///
/// # Examples
///
/// ```
/// # use luhn::luhn_digit;
/// assert_eq!('8', luhn_digit("15").unwrap());
/// assert_eq!('3', luhn_digit("51").unwrap());
/// assert_eq!('8', luhn_digit("751").unwrap());
/// ```
pub fn luhn_digit(cc_number: &str) -> (r: Result<char, LuhnError>)
    ensures
        r == luhn_digit_spec(cc_number@),
        well_formed(cc_number@) && digits(cc_number@).len() >= 1 ==> (r matches Ok(c) && is_digit(c)
            && c == digit_char(check_digit(digits(cc_number@)))),
        well_formed(cc_number@) && digits(cc_number@).len() == 0 ==> r == Err::<char, LuhnError>(
            LuhnError::Short(0),
        ),
        !well_formed(cc_number@) ==> (r matches Err(LuhnError::NonDigit(i, c))
            && first_offender(cc_number@, i as int) && c == cc_number@[i as int]),
{
    let (ndigits, sums): (usize, [u128; 2]) = luhn_sum(cc_number)?;
    if ndigits == 0 {
        return Err(LuhnError::Short(ndigits));
    }
    proof {
        lemma_sum_selection(digits(cc_number@));
    }
    let check: u128 = sums[1 - ndigits % 2];
    let residue: u128 = check % 10;
    let digit: u128 = (10 - residue) % 10;
    Ok(decimal_char(digit as u32))
}

} // verus!
