use luhn::{luhn_check, luhn_digit, LuhnError};

#[test]
fn test_check_digit_of_short_numbers() {
    assert_eq!(luhn_digit("15"), Ok('8'));
    assert_eq!(luhn_digit("51"), Ok('3'));
    assert_eq!(luhn_digit("751"), Ok('8'));
}

#[test]
fn test_check_digit_of_card_numbers() {
    assert_eq!(luhn_digit("4263 9826 4026 929"), Ok('9'));
    assert_eq!(luhn_digit("4539 3195 0343 646"), Ok('7'));
    assert_eq!(luhn_digit("7992 7398 71"), Ok('3'));
}

#[test]
fn test_check_digit_of_one_digit() {
    // The single digit is doubled, and the check digit fills up to ten.
    let expected = ['0', '8', '6', '4', '2', '9', '7', '5', '3', '1'];
    for (d, want) in expected.iter().enumerate() {
        assert_eq!(luhn_digit(&format!("{d}")), Ok(*want));
    }
}

#[test]
fn test_check_digit_zero_when_sum_is_round() {
    // 5 doubled is 1, 9 stays: 10 already ends in zero.
    assert_eq!(luhn_digit("95"), Ok('0'));
    assert_eq!(luhn_digit("0"), Ok('0'));
    assert_eq!(luhn_digit("000"), Ok('0'));
}

#[test]
fn test_check_digit_needs_one_digit() {
    assert_eq!(luhn_digit(""), Err(LuhnError::Short(0)));
    assert_eq!(luhn_digit(" "), Err(LuhnError::Short(0)));
    assert_eq!(luhn_digit("    "), Err(LuhnError::Short(0)));
}

#[test]
fn test_one_digit_is_enough_for_a_check_digit_but_not_for_a_check() {
    assert_eq!(luhn_digit("7"), Ok('5'));
    assert_eq!(luhn_check("7"), Err(LuhnError::Short(1)));
    assert_eq!(luhn_check("75"), Ok(true));
}

#[test]
fn test_check_digit_rejects_other_characters() {
    assert_eq!(luhn_digit("foo"), Err(LuhnError::NonDigit(0, 'f')));
    assert_eq!(luhn_digit("0 foo 0"), Err(LuhnError::NonDigit(2, 'f')));
    assert_eq!(luhn_digit("12\t"), Err(LuhnError::NonDigit(2, '\t')));
    assert_eq!(
        luhn_digit("1\u{e9}2x"),
        Err(LuhnError::NonDigit(1, '\u{e9}'))
    );
}

#[test]
fn test_both_operations_report_the_same_offender() {
    for text in ["foo", "0 foo 0", "12a", " x", "1 2 3 4 5 6 7 8 9 0 !", "\u{663}"] {
        let from_check = luhn_check(text).unwrap_err();
        let from_digit = luhn_digit(text).unwrap_err();
        assert_eq!(from_check, from_digit, "{text:?}");
        assert!(matches!(from_check, LuhnError::NonDigit(_, _)));
    }
}

#[test]
fn test_spaces_do_not_matter_to_the_check_digit() {
    let plain = "7992739871";
    assert_eq!(luhn_digit(plain), Ok('3'));
    for k in 0..=plain.len() {
        let mut spaced = String::from(plain);
        spaced.insert(k, ' ');
        assert_eq!(luhn_digit(&spaced), Ok('3'), "{spaced:?}");
    }
    assert_eq!(luhn_digit(" 7 9 9 2 7 3 9 8 7 1 "), Ok('3'));
}

#[test]
fn test_round_trip() {
    for n in 0u32..3000 {
        let payload = format!("{n}");
        let digit = luhn_digit(&payload).unwrap();
        assert!(digit.is_ascii_digit());
        let mut full = payload;
        full.push(digit);
        assert_eq!(luhn_check(&full), Ok(true), "{full:?}");
    }
}

#[test]
fn test_round_trip_with_leading_zeros_and_spaces() {
    for payload in ["0", "00", "007", "0 0 7", " 4263 9826 4026 929", "9 9 9 9"] {
        let digit = luhn_digit(payload).unwrap();
        let mut full = String::from(payload);
        full.push(digit);
        assert_eq!(luhn_check(&full), Ok(true), "{full:?}");
    }
}

#[test]
fn test_check_digit_is_the_only_digit_that_passes() {
    for payload in ["1", "15", "751", "4263 9826 4026 929", "000", "99999"] {
        let digit = luhn_digit(payload).unwrap();
        for other in '0'..='9' {
            let mut full = String::from(payload);
            full.push(other);
            assert_eq!(luhn_check(&full), Ok(other == digit), "{full:?}");
        }
    }
}

#[test]
fn test_check_digit_of_long_number() {
    // 100 001 nines: 50 001 of them are doubled, and a doubled nine is a
    // nine again, so the sum is 900 009 and the check digit is 1.
    let nines = "9".repeat(100_001);
    assert_eq!(luhn_digit(&nines), Ok('1'));
}
