//! Primitive text parsers: times, day patterns, section codes, and
//! hyperlink-embedded names.

use jupiterp_datagen::chars::parse_u8;
use jupiterp_datagen::errors::ScrapeError;
use jupiterp_datagen::textparse::{extract_anchor_text, extract_section_code};
use jupiterp_datagen::types::{parse_day_pattern, AmPm, ClassDays, Classtime, Time};

#[test]
fn time_parses_morning() {
    assert_eq!(Time::from_string("9:00am"), Ok(Time(9, 0, AmPm::Am)));
}

#[test]
fn time_parses_afternoon() {
    assert_eq!(Time::from_string("12:30pm"), Ok(Time(12, 30, AmPm::Pm)));
}

#[test]
fn time_keeps_leading_zero_minutes() {
    assert_eq!(Time::from_string("8:05am"), Ok(Time(8, 5, AmPm::Am)));
}

#[test]
fn time_without_colon_fails() {
    assert_eq!(
        Time::from_string("900am"),
        Err(ScrapeError::MalformedTime(String::from("900am")))
    );
}

#[test]
fn time_without_suffix_fails() {
    assert_eq!(
        Time::from_string("9:00"),
        Err(ScrapeError::MalformedTime(String::from("9:00")))
    );
}

#[test]
fn time_with_bad_suffix_fails() {
    assert_eq!(
        Time::from_string("9:00xm"),
        Err(ScrapeError::MalformedTime(String::from("9:00xm")))
    );
}

#[test]
fn time_is_found_with_trailing_text() {
    assert_eq!(Time::from_string("9:00amx"), Ok(Time(9, 0, AmPm::Am)));
}

#[test]
fn time_is_found_after_a_prefix_character() {
    assert_eq!(Time::from_string("x9:00am"), Ok(Time(9, 0, AmPm::Am)));
}

#[test]
fn time_is_found_inside_surrounding_text() {
    assert_eq!(
        Time::from_string("meets 9:00am daily"),
        Ok(Time(9, 0, AmPm::Am))
    );
}

#[test]
fn leftmost_embedded_time_wins() {
    assert_eq!(
        Time::from_string("8:30am and 9:00am"),
        Ok(Time(8, 30, AmPm::Am))
    );
}

#[test]
fn time_without_hour_fails() {
    assert_eq!(
        Time::from_string(":30am"),
        Err(ScrapeError::MalformedTime(String::from(":30am")))
    );
}

#[test]
fn oversized_hour_capture_fails() {
    assert_eq!(
        Time::from_string("999:00am"),
        Err(ScrapeError::MalformedTime(String::from("999:00am")))
    );
}

#[test]
fn byte_values_parse_with_optional_plus_sign() {
    assert_eq!(parse_u8("3"), Some(3));
    assert_eq!(parse_u8("+3"), Some(3));
    assert_eq!(parse_u8("255"), Some(255));
    assert_eq!(parse_u8("256"), None);
    assert_eq!(parse_u8("+"), None);
    assert_eq!(parse_u8(""), None);
    assert_eq!(parse_u8("3a"), None);
}

#[test]
fn empty_time_fails() {
    assert_eq!(
        Time::from_string(""),
        Err(ScrapeError::MalformedTime(String::from("")))
    );
}

#[test]
fn all_known_day_patterns_parse() {
    let table = [
        ("M", ClassDays::M),
        ("Tu", ClassDays::Tu),
        ("W", ClassDays::W),
        ("Th", ClassDays::Th),
        ("F", ClassDays::F),
        ("MWF", ClassDays::MWF),
        ("MW", ClassDays::MW),
        ("WF", ClassDays::WF),
        ("TuTh", ClassDays::TuTh),
        ("MTuWThF", ClassDays::MTuWThF),
        ("MF", ClassDays::MF),
        ("Sa", ClassDays::Sa),
        ("Su", ClassDays::Su),
        ("SaSu", ClassDays::SaSu),
        ("MTu", ClassDays::MTu),
        ("MTuThF", ClassDays::MTuThF),
        ("MTuWTh", ClassDays::MTuWTh),
        ("TuF", ClassDays::TuF),
        ("TuWTh", ClassDays::TuWTh),
        ("WTh", ClassDays::WTh),
        ("MWTh", ClassDays::MWTh),
        ("MTh", ClassDays::MTh),
    ];
    for (text, expected) in table {
        assert_eq!(parse_day_pattern(text), Ok(expected));
    }
}

#[test]
fn unknown_day_pattern_fails_with_text() {
    assert_eq!(
        parse_day_pattern("MTuF"),
        Err(ScrapeError::UnknownDayPattern(String::from("MTuF")))
    );
    assert_eq!(
        parse_day_pattern(""),
        Err(ScrapeError::UnknownDayPattern(String::from("")))
    );
}

#[test]
fn classtime_new_builds_from_known_pattern() {
    let ct = Classtime::new(
        String::from("MWF"),
        Time(9, 0, AmPm::Am),
        Time(9, 50, AmPm::Am),
    );
    assert_eq!(ct.days, ClassDays::MWF);
    assert_eq!(ct.start_time, Time(9, 0, AmPm::Am));
    assert_eq!(ct.end_time, Time(9, 50, AmPm::Am));
}

#[test]
fn section_code_from_plain_number() {
    assert_eq!(extract_section_code("0101"), Some(String::from("0101")));
}

#[test]
fn section_code_ignores_surrounding_text() {
    assert_eq!(extract_section_code(" 0203 "), Some(String::from("0203")));
}

#[test]
fn section_code_keeps_letter_prefix() {
    assert_eq!(extract_section_code("FC01"), Some(String::from("FC01")));
}

#[test]
fn section_code_with_trailing_annotation() {
    assert_eq!(
        extract_section_code("0101 (Seats reserved)"),
        Some(String::from("0101"))
    );
}

#[test]
fn section_code_without_digits_is_none() {
    assert_eq!(extract_section_code("TBD"), None);
    assert_eq!(extract_section_code(""), None);
}

#[test]
fn anchor_name_unwraps_to_plain_text() {
    assert_eq!(
        extract_anchor_text("<a href=\"https://example.org/jsnow\">Jon Snow</a>"),
        Some(String::from("Jon Snow"))
    );
}

#[test]
fn anchor_without_shape_is_none() {
    assert_eq!(extract_anchor_text("<a href=x>"), None);
}

#[test]
fn time_bounds_are_not_revalidated_beyond_the_pattern() {
    assert_eq!(Time::from_string("0:99am"), Ok(Time(0, 99, AmPm::Am)));
}
