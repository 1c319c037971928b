use payment_ledger::amount::{format_amount, parse_amount};
use payment_ledger::error::LedgerError;

#[test]
fn parse_amount_reads_decimal_numerals() {
    assert_eq!(parse_amount("0"), Ok(0));
    assert_eq!(parse_amount("7"), Ok(7));
    assert_eq!(parse_amount("40"), Ok(40));
    assert_eq!(parse_amount("100"), Ok(100));
    assert_eq!(parse_amount("000123"), Ok(123));
    assert_eq!(parse_amount("1234567890"), Ok(1_234_567_890));
}

#[test]
fn parse_amount_reads_up_to_the_largest_amount() {
    assert_eq!(parse_amount("18446744073709551615"), Ok(u64::MAX));
    assert_eq!(parse_amount("18446744073709551616"), Err(LedgerError::InvalidAmount));
    assert_eq!(parse_amount("18446744073709551620"), Err(LedgerError::InvalidAmount));
    assert_eq!(parse_amount("99999999999999999999"), Err(LedgerError::InvalidAmount));
    assert_eq!(parse_amount("100000000000000000000000"), Err(LedgerError::InvalidAmount));
    assert_eq!(parse_amount("00018446744073709551615"), Ok(u64::MAX));
}

#[test]
fn parse_amount_refuses_what_is_no_numeral() {
    for text in ["", " ", "-5", "+5", "12.5", "1e3", "NaN", "inf", "abc", "12a", "a12", " 12", "12 ", "1 2"] {
        assert_eq!(parse_amount(text), Err(LedgerError::InvalidAmount), "{:?}", text);
    }
}

#[test]
fn parse_amount_refuses_digits_of_other_scripts() {
    assert_eq!(parse_amount("\u{0663}"), Err(LedgerError::InvalidAmount));
    assert_eq!(parse_amount("1\u{ff12}"), Err(LedgerError::InvalidAmount));
    assert_eq!(parse_amount("\u{e9}"), Err(LedgerError::InvalidAmount));
    assert_eq!(parse_amount("/"), Err(LedgerError::InvalidAmount));
    assert_eq!(parse_amount(":"), Err(LedgerError::InvalidAmount));
}

#[test]
fn format_amount_writes_decimal_numerals() {
    assert_eq!(format_amount(0), "0");
    assert_eq!(format_amount(9), "9");
    assert_eq!(format_amount(10), "10");
    assert_eq!(format_amount(60), "60");
    assert_eq!(format_amount(1_234_567_890), "1234567890");
    assert_eq!(format_amount(u64::MAX), "18446744073709551615");
}

#[test]
fn amounts_survive_writing_and_reading() {
    for amount in [0u64, 1, 9, 10, 11, 99, 100, 101, 4_294_967_295, 4_294_967_296, u64::MAX - 1, u64::MAX] {
        assert_eq!(parse_amount(&format_amount(amount)), Ok(amount));
        assert_eq!(format_amount(amount), amount.to_string());
    }
}
