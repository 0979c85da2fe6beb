//! The single pass over the input that both public operations rest on.

use crate::decimal::{decimal_value, doubled};
use crate::error::LuhnError;
use crate::laws::{lemma_digits_bounds, lemma_offender_unique};
use crate::model::{
    digit_value, digits, doubled_digit, first_offender, is_allowed, is_digit, offender,
    parity_sum, well_formed,
};
use vstd::prelude::*;

verus! {

/// A sequence of characters is no longer than its UTF-8 encoding.
proof fn lemma_chars_within_bytes(s: Seq<char>)
    ensures
        s.len() <= vstd::utf8::encode_utf8(s).len(),
    decreases s.len(),
{
    if s.len() > 0 {
        lemma_chars_within_bytes(s.drop_first());
    }
}

/// What the character at position `i` adds to the digits read before it.
proof fn lemma_digits_step(s: Seq<char>, i: int)
    requires
        0 <= i < s.len(),
    ensures
        digits(s.take(i + 1)) == if is_digit(s[i]) {
            digits(s.take(i)).push(digit_value(s[i]))
        } else {
            digits(s.take(i))
        },
{
    assert(s.take(i + 1).drop_last() == s.take(i));
}

/// What one more digit adds to the sum kept under `parity`.
proof fn lemma_parity_sum_push(ds: Seq<nat>, d: nat, parity: int)
    ensures
        parity_sum(ds.push(d), parity) == parity_sum(ds, parity) + if ds.len() % 2 == parity {
            doubled_digit(d)
        } else {
            d
        },
{
    assert(ds.push(d).drop_last() == ds);
}

/// Neither sum of a scan exceeds nine times the number of digits.
proof fn lemma_parity_sum_bound(ds: Seq<nat>, parity: int)
    requires
        forall|k: int| 0 <= k < ds.len() ==> #[trigger] ds[k] <= 9,
    ensures
        parity_sum(ds, parity) <= 9 * ds.len(),
    decreases ds.len(),
{
    if ds.len() > 0 {
        lemma_parity_sum_bound(ds.drop_last(), parity);
    }
}

/// Reads `cc_number` once, from left to right.
///
/// Spaces are passed over. Each digit is added to two running sums: doubled
/// to the sum whose index is the parity of the digit's position among the
/// digits read so far, and as it is to the other. The result is the number of
/// digits together with the two sums. Which of the two is the Luhn sum is
/// known once the number of digits is: see
/// [`lemma_sum_selection`](crate::laws::lemma_sum_selection).
///
/// The first character that is neither a digit nor a space ends the scan with
/// [`LuhnError::NonDigit`], which carries its position and the character.
/// Positions count characters, not bytes, and spaces count too. The scan
/// never returns [`LuhnError::Short`]: how many digits are enough is for the
/// caller to say.
///
/// The sums are `u128`, which holds nine times the length of any string.
pub fn luhn_sum(cc_number: &str) -> (r: Result<(usize, [u128; 2]), LuhnError>)
    ensures
        r is Ok <==> well_formed(cc_number@),
        match r {
            Ok((count, sums)) => {
                &&& count == digits(cc_number@).len()
                &&& sums[0] == parity_sum(digits(cc_number@), 0)
                &&& sums[1] == parity_sum(digits(cc_number@), 1)
            },
            Err(LuhnError::NonDigit(i, c)) => {
                &&& first_offender(cc_number@, i as int)
                &&& i == offender(cc_number@)
                &&& c == cc_number@[i as int]
            },
            Err(LuhnError::Short(_)) => false,
        },
{
    let ghost s = cc_number@;
    // A string has no more characters than bytes, and its bytes are counted
    // in `usize`: neither the position nor the number of digits can overflow.
    let bytes: usize = cc_number.as_bytes().len();
    proof {
        lemma_chars_within_bytes(s);
    }
    let mut valid: usize = 0;
    let mut sums: [u128; 2] = [0; 2];
    let mut i: usize = 0;
    for c in it: cc_number.chars()
        invariant
            s == cc_number@,
            it.seq() == s,
            i == it.index(),
            s.len() <= bytes,
            valid == digits(s.take(i as int)).len(),
            valid <= i,
            sums[0] == parity_sum(digits(s.take(i as int)), 0),
            sums[1] == parity_sum(digits(s.take(i as int)), 1),
            forall|j: int| 0 <= j < i ==> is_allowed(#[trigger] s[j]),
    {
        let ghost seen = digits(s.take(i as int));
        proof {
            lemma_digits_step(s, i as int);
            lemma_digits_bounds(s.take(i as int));
            lemma_parity_sum_bound(seen, 0);
            lemma_parity_sum_bound(seen, 1);
        }
        if c != ' ' {
            match decimal_value(c) {
                Some(d) => {
                    proof {
                        lemma_parity_sum_push(seen, d as nat, 0);
                        lemma_parity_sum_push(seen, d as nat, 1);
                    }
                    let m: usize = valid % 2;
                    sums[1 - m] += d as u128;
                    sums[m] += doubled(d) as u128;
                    valid += 1;
                },
                None => {
                    proof {
                        lemma_offender_unique(s, i as int);
                    }
                    return Err(LuhnError::NonDigit(i, c));
                },
            }
        }
        i += 1;
    }
    proof {
        assert(s.take(i as int) == s);
    }
    Ok((valid, sums))
}

} // verus!
