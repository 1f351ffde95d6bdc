//! Validation of the term identifier, a six-digit `YYYYMM` string.  Any
//! other input is rejected before extraction begins.

use vstd::prelude::*;
use crate::chars::{all_digits, digit, digit_val, digit_value, is_digit, str_to_chars};
use crate::errors::TermError;

verus! {

/// The input is exactly six decimal digits.
pub open spec fn term_shape_ok(s: Seq<char>) -> bool {
    s.len() == 6 && all_digits(s)
}

/// The year encoded by the first four digits.
pub open spec fn term_year(s: Seq<char>) -> int {
    digit_val(s[0]) * 1000 + digit_val(s[1]) * 100 + digit_val(s[2]) * 10 + digit_val(s[3])
}

/// The month encoded by the last two digits.
pub open spec fn term_month(s: Seq<char>) -> int {
    digit_val(s[4]) * 10 + digit_val(s[5])
}

/// The supported year range.
pub open spec fn term_year_ok(y: int) -> bool {
    2000 <= y <= 2100
}

/// The supported term months: spring, summer, fall and winter.
pub open spec fn term_month_ok(m: int) -> bool {
    m == 1 || m == 5 || m == 8 || m == 12
}

/// A term identifier is valid when it is six digits and its year and
/// month lie in the supported ranges.
pub open spec fn term_valid(s: Seq<char>) -> bool {
    term_shape_ok(s) && term_year_ok(term_year(s)) && term_month_ok(term_month(s))
}

/// Checks a term identifier.  Succeeds exactly on valid terms; each way an
/// input can fail is reported with its own error kind, the shape checked
/// first, then the year, then the month.
pub fn validate_term(term: &str) -> (r: Result<(), TermError>)
    ensures
        r is Ok <==> term_valid(term@),
        !term_shape_ok(term@) ==> (r matches Err(TermError::InvalidTermFormat(t)) && t@
            == term@),
        term_shape_ok(term@) && !term_year_ok(term_year(term@)) ==> (r matches Err(
            TermError::YearOutOfBounds(y),
        ) && y == term_year(term@)),
        term_shape_ok(term@) && term_year_ok(term_year(term@)) && !term_month_ok(
            term_month(term@),
        ) ==> (r matches Err(TermError::InvalidMonth(m)) && m == term_month(term@)),
{
    let cs: Vec<char> = str_to_chars(term);
    if cs.len() != 6 {
        return Err(TermError::InvalidTermFormat(term.to_owned()));
    }
    let mut i: usize = 0;
    while i < 6
        invariant
            cs@ == term@,
            cs@.len() == 6,
            i <= 6,
            forall|j: int| 0 <= j < i ==> is_digit(#[trigger] cs@[j]),
        decreases 6 - i,
    {
        if !digit(cs[i]) {
            return Err(TermError::InvalidTermFormat(term.to_owned()));
        }
        i = i + 1;
    }
    let year: u16 = digit_value(cs[0]) as u16 * 1000 + digit_value(cs[1]) as u16 * 100
        + digit_value(cs[2]) as u16 * 10 + digit_value(cs[3]) as u16;
    if !(2000 <= year && year <= 2100) {
        return Err(TermError::YearOutOfBounds(year));
    }
    let month: u8 = digit_value(cs[4]) * 10 + digit_value(cs[5]);
    if !(month == 1 || month == 5 || month == 8 || month == 12) {
        return Err(TermError::InvalidMonth(month));
    }
    Ok(())
}

} // verus!
