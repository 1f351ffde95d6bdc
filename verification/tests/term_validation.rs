//! Term identifier validation: exactly the six-digit terms with a
//! supported year and month pass; each failure reports its own kind.

use jupiterp_datagen::errors::TermError;
use jupiterp_datagen::term::validate_term;

#[test]
fn valid_terms_pass() {
    assert!(validate_term("202408").is_ok());
    assert!(validate_term("200001").is_ok());
    assert!(validate_term("210012").is_ok());
    assert!(validate_term("202405").is_ok());
    assert!(validate_term("202401").is_ok());
}

#[test]
fn short_term_is_format_error() {
    assert_eq!(
        validate_term("20240"),
        Err(TermError::InvalidTermFormat(String::from("20240")))
    );
}

#[test]
fn long_term_is_format_error() {
    assert_eq!(
        validate_term("2024088"),
        Err(TermError::InvalidTermFormat(String::from("2024088")))
    );
}

#[test]
fn empty_term_is_format_error() {
    assert_eq!(
        validate_term(""),
        Err(TermError::InvalidTermFormat(String::from("")))
    );
}

#[test]
fn non_digit_term_is_format_error() {
    assert_eq!(
        validate_term("2024a8"),
        Err(TermError::InvalidTermFormat(String::from("2024a8")))
    );
    assert_eq!(
        validate_term("abcdef"),
        Err(TermError::InvalidTermFormat(String::from("abcdef")))
    );
}

#[test]
fn year_below_range_is_year_error() {
    assert_eq!(validate_term("199912"), Err(TermError::YearOutOfBounds(1999)));
}

#[test]
fn year_above_range_is_year_error() {
    assert_eq!(validate_term("210108"), Err(TermError::YearOutOfBounds(2101)));
}

#[test]
fn unsupported_month_is_month_error() {
    assert_eq!(validate_term("202402"), Err(TermError::InvalidMonth(2)));
    assert_eq!(validate_term("202400"), Err(TermError::InvalidMonth(0)));
    assert_eq!(validate_term("202499"), Err(TermError::InvalidMonth(99)));
}

#[test]
fn year_checked_before_month() {
    assert_eq!(validate_term("190002"), Err(TermError::YearOutOfBounds(1900)));
}
