//! What holds of the model, and so of every call of the functions whose
//! contracts are stated over it.

use crate::error::LuhnError;
use crate::model::{
    check_digit, digit_char, digit_value, digits, doubled_digit, first_offender, is_allowed,
    is_digit, luhn_check_spec, luhn_digit_spec, luhn_total, offender, parity_sum, passes,
    well_formed,
};
use vstd::prelude::*;

verus! {

/// A string has at most one first offending character: whoever finds one has
/// found [`offender`], and the string is not well formed.
pub proof fn lemma_offender_unique(s: Seq<char>, i: int)
    requires
        first_offender(s, i),
    ensures
        offender(s) == i,
        !well_formed(s),
{
    let j = offender(s);
    assert(first_offender(s, j));
    if j < i {
        assert(is_allowed(s[j]));
    } else if i < j {
        assert(is_allowed(s[i]));
    }
}

/// Doubling a digit the Luhn way gives a digit again: the sum of the decimal
/// digits of twice the digit, which is twice the digit less nine where that
/// exceeds nine.
pub proof fn lemma_doubled_digit(d: nat)
    requires
        d <= 9,
    ensures
        doubled_digit(d) <= 9,
        doubled_digit(d) == (2 * d) / 10 + (2 * d) % 10,
        2 * d <= 9 ==> doubled_digit(d) == 2 * d,
        2 * d > 9 ==> doubled_digit(d) == 2 * d - 9,
{
}

/// Of the two sums that a scan from the left keeps, the number of digits
/// tells which is which: the sum under the parity of that number is the Luhn
/// sum with the last digit taken as it is, and the sum under the other parity
/// is the Luhn sum with the last digit doubled.
pub proof fn lemma_sum_selection(ds: Seq<nat>)
    ensures
        parity_sum(ds, (ds.len() % 2) as int) == luhn_total(ds, false),
        parity_sum(ds, 1 - ds.len() % 2) == luhn_total(ds, true),
    decreases ds.len(),
{
    if ds.len() > 0 {
        lemma_sum_selection(ds.drop_last());
    }
}

/// What [`digits`] yields are decimal digits, and no more of them than the
/// string has characters.
pub proof fn lemma_digits_bounds(s: Seq<char>)
    ensures
        digits(s).len() <= s.len(),
        forall|k: int| 0 <= k < digits(s).len() ==> #[trigger] digits(s)[k] <= 9,
    decreases s.len(),
{
    if s.len() > 0 {
        lemma_digits_bounds(s.drop_last());
    }
}

/// The digits of two strings written one after the other are the digits of
/// the first followed by those of the second.
pub proof fn lemma_digits_concat(a: Seq<char>, b: Seq<char>)
    ensures
        digits(a + b) == digits(a) + digits(b),
    decreases b.len(),
{
    if b.len() == 0 {
        assert(a + b == a);
    } else {
        lemma_digits_concat(a, b.drop_last());
        assert((a + b).drop_last() == a + b.drop_last());
    }
}

/// In a string of digits and spaces, the digits are the characters that are
/// not spaces: there are as many of the one as of the other.
pub proof fn lemma_digit_count(s: Seq<char>)
    requires
        well_formed(s),
    ensures
        digits(s).len() == s.filter(|c: char| c != ' ').len(),
    decreases s.len(),
{
    reveal(Seq::filter);
    if s.len() > 0 {
        lemma_digit_count(s.drop_last());
    }
}

/// In a string of digits alone, every character is one digit of the number.
pub proof fn lemma_only_digits(s: Seq<char>)
    requires
        forall|i: int| 0 <= i < s.len() ==> is_digit(#[trigger] s[i]),
    ensures
        well_formed(s),
        digits(s) == s.map_values(|c: char| digit_value(c)),
    decreases s.len(),
{
    if s.len() > 0 {
        lemma_only_digits(s.drop_last());
    }
}

/// Spaces are transparent: a space put anywhere into a string of digits and
/// spaces changes neither what [`luhn_check`](crate::luhn_check) returns nor
/// what [`luhn_digit`](crate::luhn_digit) returns.
pub proof fn lemma_insert_space(s: Seq<char>, k: int)
    requires
        well_formed(s),
        0 <= k <= s.len(),
    ensures
        well_formed(s.insert(k, ' ')),
        digits(s.insert(k, ' ')) == digits(s),
        luhn_check_spec(s.insert(k, ' ')) == luhn_check_spec(s),
        luhn_digit_spec(s.insert(k, ' ')) == luhn_digit_spec(s),
{
    let head = s.subrange(0, k);
    let tail = s.subrange(k, s.len() as int);
    assert(s == head + tail);
    assert(head.push(' ').drop_last() == head);
    lemma_digits_concat(head, tail);
    lemma_digits_concat(head.push(' '), tail);
}

/// Spaces are transparent: a space taken out of a string of digits and spaces
/// changes neither what [`luhn_check`](crate::luhn_check) returns nor what
/// [`luhn_digit`](crate::luhn_digit) returns.
pub proof fn lemma_remove_space(s: Seq<char>, k: int)
    requires
        well_formed(s),
        0 <= k < s.len(),
        s[k] == ' ',
    ensures
        well_formed(s.remove(k)),
        digits(s.remove(k)) == digits(s),
        luhn_check_spec(s.remove(k)) == luhn_check_spec(s),
        luhn_digit_spec(s.remove(k)) == luhn_digit_spec(s),
{
    let t = s.remove(k);
    assert forall|i: int| 0 <= i < t.len() implies is_allowed(#[trigger] t[i]) by {
        if i < k {
            assert(t[i] == s[i]);
        } else {
            assert(t[i] == s[i + 1]);
        }
    }
    assert(t.insert(k, ' ') == s);
    lemma_insert_space(t, k);
}

/// The check digit is a decimal digit, and the only one that makes the number
/// pass when written behind it.
pub proof fn lemma_check_digit_unique(ds: Seq<nat>, d: nat)
    requires
        d <= 9,
    ensures
        check_digit(ds) <= 9,
        passes(ds.push(d)) <==> d == check_digit(ds),
{
    assert(ds.push(d).drop_last() == ds);
}

/// Round trip: a string of digits and spaces with at least one digit has a
/// check digit, and with that digit written behind it the string passes
/// [`luhn_check`](crate::luhn_check).
pub proof fn lemma_round_trip(s: Seq<char>)
    requires
        well_formed(s),
        digits(s).len() >= 1,
    ensures
        ({
            &&& luhn_digit_spec(s) matches Ok(c)
            &&& is_digit(c)
            &&& luhn_check_spec(s.push(c)) == Ok::<bool, LuhnError>(true)
        }),
{
    let ds = digits(s);
    let d = check_digit(ds);
    let c = digit_char(d);
    lemma_check_digit_unique(ds, d);
    assert(s.push(c).drop_last() == s);
    assert(digits(s.push(c)) == ds.push(d));
}

/// Round trip for a number written without spaces: every non-empty string of
/// digits has a check digit, and with that digit written behind it the string
/// passes [`luhn_check`](crate::luhn_check).
pub proof fn lemma_round_trip_of_digits(s: Seq<char>)
    requires
        s.len() >= 1,
        forall|i: int| 0 <= i < s.len() ==> is_digit(#[trigger] s[i]),
    ensures
        ({
            &&& luhn_digit_spec(s) matches Ok(c)
            &&& is_digit(c)
            &&& luhn_check_spec(s.push(c)) == Ok::<bool, LuhnError>(true)
        }),
{
    lemma_only_digits(s);
    lemma_round_trip(s);
}

} // verus!
