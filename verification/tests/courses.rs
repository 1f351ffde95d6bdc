//! Course and section assembly from handcrafted documents, and the
//! department walker's document helpers.

use jupiterp_datagen::courses::{course_info, sections_info};
use jupiterp_datagen::errors::ScrapeError;
use jupiterp_datagen::types::{
    classify_credits, AmPm, ClassDays, ClassLocation, ClassMeeting, Classtime, CreditCount,
    InPersonClass, Time,
};
use jupiterp_datagen::walker::{build_sections_url, courses_from_documents, extract_course_codes,
    extract_depts};

fn course_doc() -> String {
    String::from("<div id=\"CMSC101\"><span class=\"course-id\">CMSC101</span><span class=\"course-title\">Intro to Verification</span><span class=\"course-min-credits\">3</span><div class=\"course-subcategory\"><a href=\"#\">DSCC</a></div><div class=\"approved-course-texts-container\"><div><div class=\"approved-course-text\"><div><div><div>Prerequisite: <b>consent</b> required</div></div></div></div></div><div><div class=\"approved-course-text\">A <i>careful</i> first course.</div></div></div></div>")
}

fn sections_doc() -> String {
    String::from("<div id=\"CMSC101\"><div class=\"sections\"><div class=\"section\"><span class=\"section-id\"> 0101 </span><span class=\"section-instructor\"><a href=\"/jsnow\">Jon Snow</a></span><span class=\"section-instructor\">Samwell Tarly</span><div class=\"class-days-container\"><div class=\"row\"><span class=\"section-days\">MWF</span><span class=\"class-start-time\">9:00am</span><span class=\"class-end-time\">9:50am</span><span class=\"class-building\"><span class=\"building-code\">IRB</span> <span class=\"class-room\">0306</span></span></div></div></div></div></div>")
}

#[test]
fn course_assembles_with_all_fields() {
    let c = course_info(String::from("CMSC101"), &course_doc(), &sections_doc())
        .expect("course should assemble");
    assert_eq!(c.code, "CMSC101");
    assert_eq!(c.name, "Intro to Verification");
    assert_eq!(c.credits, CreditCount::Amount(3));
    assert_eq!(c.gen_eds, Some(vec![String::from("DSCC")]));
    assert_eq!(
        c.conditions,
        Some(vec![String::from("Prerequisite: consent required")])
    );
    assert_eq!(c.description, "A careful first course.");
    let sections = c.sections.expect("sections should be present");
    assert_eq!(sections.len(), 1);
    assert_eq!(sections[0].sec_code, "0101");
    assert_eq!(
        sections[0].instructors,
        vec![String::from("Jon Snow"), String::from("Samwell Tarly")]
    );
    assert_eq!(
        sections[0].class_meetings,
        vec![ClassMeeting::InPerson(InPersonClass {
            classtime: Some(Classtime {
                days: ClassDays::MWF,
                start_time: Time(9, 0, AmPm::Am),
                end_time: Time(9, 50, AmPm::Am),
            }),
            location: Some(ClassLocation(String::from("IRB"), String::from("0306"))),
        })]
    );
}

#[test]
fn missing_title_fails_loudly() {
    let doc = String::from(
        "<div id=\"CMSC101\"><span class=\"course-min-credits\">3</span></div>",
    );
    let r = course_info(String::from("CMSC101"), &doc, &sections_doc());
    assert!(matches!(r, Err(ScrapeError::MarkupAssumptionViolated(..))));
}

#[test]
fn missing_min_credits_fails_loudly() {
    let doc = String::from(
        "<div id=\"CMSC101\"><span class=\"course-title\">Intro</span></div>",
    );
    let r = course_info(String::from("CMSC101"), &doc, &sections_doc());
    assert!(matches!(r, Err(ScrapeError::MarkupAssumptionViolated(..))));
}

#[test]
fn credit_range_comes_from_max_presence() {
    let doc = String::from("<div id=\"FGSM398\"><span class=\"course-title\">Independent Study</span><span class=\"course-min-credits\">3</span><span class=\"course-max-credits\">9</span></div>");
    let empty_sections = String::from("<div></div>");
    let c = course_info(String::from("FGSM398"), &doc, &empty_sections).unwrap();
    assert_eq!(c.credits, CreditCount::Range(3, 9));
    assert_eq!(c.sections, None);
    assert_eq!(c.gen_eds, None);
    assert_eq!(c.conditions, None);
}

#[test]
fn min_only_yields_amount() {
    let doc = String::from("<div id=\"CMSC250\"><span class=\"course-title\">Discrete Structures</span><span class=\"course-min-credits\">3</span></div>");
    let empty_sections = String::from("<div></div>");
    let c = course_info(String::from("CMSC250"), &doc, &empty_sections).unwrap();
    assert_eq!(c.credits, CreditCount::Amount(3));
}

#[test]
fn inverted_credit_range_fails_loudly() {
    let doc = String::from("<div id=\"XXXX100\"><span class=\"course-title\">Backwards</span><span class=\"course-min-credits\">9</span><span class=\"course-max-credits\">3</span></div>");
    let empty_sections = String::from("<div></div>");
    let r = course_info(String::from("XXXX100"), &doc, &empty_sections);
    assert!(matches!(r, Err(ScrapeError::MarkupAssumptionViolated(..))));
}

#[test]
fn description_falls_back_to_course_text() {
    let doc = String::from("<div id=\"CMSC351\"><span class=\"course-title\">Algorithms</span><span class=\"course-min-credits\">3</span><div class=\"course-text\">Sorting and <b>searching</b>.</div></div>");
    let empty_sections = String::from("<div></div>");
    let c = course_info(String::from("CMSC351"), &doc, &empty_sections).unwrap();
    assert_eq!(c.description, "Sorting and searching.");
}

#[test]
fn description_empty_when_no_tier_matches() {
    let doc = String::from("<div id=\"CMSC351\"><span class=\"course-title\">Algorithms</span><span class=\"course-min-credits\">3</span></div>");
    let empty_sections = String::from("<div></div>");
    let c = course_info(String::from("CMSC351"), &doc, &empty_sections).unwrap();
    assert_eq!(c.description, "");
}

#[test]
fn sections_absent_is_none_not_empty() {
    let r = sections_info(&String::from("CMSC101"), "<div></div>").unwrap();
    assert_eq!(r, None);
}

#[test]
fn sections_come_back_in_document_order() {
    let doc = String::from("<div id=\"CMSC101\"><div class=\"sections\"><div class=\"section\"><span class=\"section-id\">0101</span><span class=\"section-instructor\">A</span><div class=\"class-days-container\"></div></div><div class=\"section\"><span class=\"section-id\">0102</span><span class=\"section-instructor\">B</span><div class=\"class-days-container\"></div></div></div></div>");
    let sections = sections_info(&String::from("CMSC101"), &doc).unwrap().unwrap();
    assert_eq!(sections.len(), 2);
    assert_eq!(sections[0].sec_code, "0101");
    assert_eq!(sections[0].instructors, vec![String::from("A")]);
    assert_eq!(sections[1].sec_code, "0102");
    assert_eq!(sections[1].instructors, vec![String::from("B")]);
}

#[test]
fn section_label_without_digits_fails() {
    let doc = String::from("<div id=\"CMSC101\"><div class=\"sections\"><div class=\"section\"><span class=\"section-id\">TBD</span></div></div></div>");
    let r = sections_info(&String::from("CMSC101"), &doc);
    assert_eq!(
        r,
        Err(ScrapeError::MarkupAssumptionViolated(
            String::from("CMSC101"),
            String::new(),
            String::from("TBD"),
        ))
    );
}

#[test]
fn depts_extracted_from_front_page() {
    let doc = String::from("<div id=\"course-prefixes-page\"><div class=\"two\">CMSC</div><div class=\"two\">MATH</div></div>");
    assert_eq!(
        extract_depts(&doc).unwrap(),
        vec![String::from("CMSC"), String::from("MATH")]
    );
}

#[test]
fn course_codes_extracted_in_order() {
    let doc = String::from("<div><span class=\"course-id\">CMSC101</span><span class=\"course-id\">CMSC250</span></div>");
    assert_eq!(
        extract_course_codes(&doc).unwrap(),
        vec![String::from("CMSC101"), String::from("CMSC250")]
    );
}

#[test]
fn sections_url_joins_codes_with_commas() {
    let codes = vec![String::from("CMSC101"), String::from("MATH140")];
    assert_eq!(
        build_sections_url("202408", &codes),
        "https://app.testudo.umd.edu/soc/202408/sections?courseIds=CMSC101,MATH140"
    );
}

#[test]
fn sections_url_with_no_codes_has_empty_key() {
    let codes: Vec<String> = Vec::new();
    assert_eq!(
        build_sections_url("202408", &codes),
        "https://app.testudo.umd.edu/soc/202408/sections?courseIds="
    );
}

#[test]
fn whole_department_assembles_from_documents() {
    let cdoc = String::from("<div id=\"CMSC101\"><span class=\"course-id\">CMSC101</span><span class=\"course-title\">Intro</span><span class=\"course-min-credits\">3</span></div>");
    let sdoc = String::from("<div></div>");
    let courses = courses_from_documents(&cdoc, &sdoc).unwrap();
    assert_eq!(courses.len(), 1);
    assert_eq!(courses[0].code, "CMSC101");
    assert_eq!(courses[0].name, "Intro");
}

#[test]
fn plus_signed_min_credits_parse() {
    let doc = String::from("<div id=\"CMSC101\"><span class=\"course-title\">Intro</span><span class=\"course-min-credits\">+3</span></div>");
    let c = course_info(String::from("CMSC101"), &doc, "<div></div>").unwrap();
    assert_eq!(c.credits, CreditCount::Amount(3));
}

#[test]
fn classify_credits_min_only_is_amount() {
    assert_eq!(classify_credits(3, None), CreditCount::Amount(3));
}

#[test]
fn classify_credits_with_max_is_range() {
    assert_eq!(classify_credits(3, Some(9)), CreditCount::Range(3, 9));
}

#[test]
fn invalid_selector_character_is_reported() {
    let r = course_info(String::from("["), "<div></div>", "<div></div>");
    assert!(matches!(r, Err(ScrapeError::SelectorRejected(_))));
}

#[test]
fn unparsable_min_credits_fails_loudly() {
    let doc = String::from("<div id=\"CMSC101\"><span class=\"course-title\">Intro</span><span class=\"course-min-credits\">three</span></div>");
    let r = course_info(String::from("CMSC101"), &doc, "<div></div>");
    assert_eq!(
        r,
        Err(ScrapeError::MarkupAssumptionViolated(
            String::from("CMSC101"),
            String::new(),
            String::from("three"),
        ))
    );
}
