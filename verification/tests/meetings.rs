//! The meeting classifier: the decision table over present and absent
//! markup fields, through `get_meeting` and `get_class_meetings`.

use jupiterp_datagen::errors::ScrapeError;
use jupiterp_datagen::meetings::{get_class_meetings, get_meeting};
use jupiterp_datagen::types::{
    AmPm, ClassDays, ClassLocation, ClassMeeting, Classtime, InPersonClass, Time,
};

fn mwf_9() -> Classtime {
    Classtime {
        days: ClassDays::MWF,
        start_time: Time(9, 0, AmPm::Am),
        end_time: Time(9, 50, AmPm::Am),
    }
}

#[test]
fn marker_with_building_and_room_is_in_person() {
    let marker = String::from(
        "<span class=\"building-code\">IRB</span> <span class=\"class-room\">0306</span>",
    );
    let r = get_meeting(
        &marker,
        &String::from("CMSC101"),
        &String::from("0101"),
        Some(mwf_9()),
    );
    assert_eq!(
        r,
        Ok(ClassMeeting::InPerson(InPersonClass {
            classtime: Some(mwf_9()),
            location: Some(ClassLocation(String::from("IRB"), String::from("0306"))),
        }))
    );
}

#[test]
fn marker_with_tba_building_and_no_room_has_no_location() {
    let marker = String::from("<span class=\"building-code\">TBA</span>");
    let r = get_meeting(&marker, &String::from("CMSC101"), &String::from("0101"), None);
    assert_eq!(
        r,
        Ok(ClassMeeting::InPerson(InPersonClass { classtime: None, location: None }))
    );
}

#[test]
fn marker_without_building_but_online_is_online_sync() {
    let marker = String::from("<span class=\"class-room\">ONLINE</span>");
    let r = get_meeting(
        &marker,
        &String::from("CMSC101"),
        &String::from("0101"),
        Some(mwf_9()),
    );
    assert_eq!(r, Ok(ClassMeeting::OnlineSync(Some(mwf_9()))));
}

#[test]
fn marker_with_room_text_but_no_room_capture_gets_placeholder() {
    let marker =
        String::from("<span class=\"building-code\">KEY</span> class-room pending");
    let r = get_meeting(&marker, &String::from("CMSC101"), &String::from("0101"), None);
    assert_eq!(
        r,
        Ok(ClassMeeting::InPerson(InPersonClass {
            classtime: None,
            location: Some(ClassLocation(String::from("KEY"), String::from("????"))),
        }))
    );
}

#[test]
fn uncovered_marker_fails_loudly_with_context() {
    let marker = String::from("mystery room");
    let r = get_meeting(&marker, &String::from("CMSC101"), &String::from("0101"), None);
    assert_eq!(
        r,
        Err(ScrapeError::MarkupAssumptionViolated(
            String::from("CMSC101"),
            String::from("0101"),
            String::from("mystery room"),
        ))
    );
}

#[test]
fn building_marker_without_room_and_without_tba_fails() {
    let marker = String::from("<span class=\"building-code\">IRB</span>");
    let r = get_meeting(&marker, &String::from("CMSC101"), &String::from("0101"), None);
    assert_eq!(
        r,
        Err(ScrapeError::MarkupAssumptionViolated(
            String::from("CMSC101"),
            String::from("0101"),
            marker.clone(),
        ))
    );
}

fn sections_doc() -> String {
    String::from("<div id=\"CMSC101\"><div class=\"sections\"><div class=\"section\"><span class=\"section-id\"> 0101 </span><span class=\"section-instructor\">Jon Snow</span><div class=\"class-days-container\"><div class=\"row\"><span class=\"section-days\">MWF</span><span class=\"class-start-time\">9:00am</span><span class=\"class-end-time\">9:50am</span><span class=\"class-building\"><span class=\"building-code\">IRB</span> <span class=\"class-room\">0306</span></span></div><div class=\"row\"><span class=\"class-room\">ONLINE</span></div><div class=\"row\"><span class=\"class-message\">Contact department</span></div><div class=\"row\"><span class=\"section-days\">TuTh</span><span class=\"class-start-time\">1:00pm</span><span class=\"class-end-time\">2:15pm</span><span class=\"class-building\"><span class=\"class-room\">ONLINE</span></span></div><div class=\"row\"><span class=\"section-days\">TBA</span><span class=\"class-building\"><span class=\"building-code\">TBA</span></span></div></div></div></div></div>")
}

#[test]
fn class_meetings_classify_each_row_in_order() {
    let doc = sections_doc();
    let r = get_class_meetings(&doc, &String::from("CMSC101"), &String::from("0101"), 1);
    let meetings = r.expect("rows should classify");
    assert_eq!(meetings.len(), 5);
    assert_eq!(
        meetings[0],
        ClassMeeting::InPerson(InPersonClass {
            classtime: Some(mwf_9()),
            location: Some(ClassLocation(String::from("IRB"), String::from("0306"))),
        })
    );
    assert_eq!(meetings[1], ClassMeeting::OnlineAsync);
    assert_eq!(meetings[2], ClassMeeting::Unspecified);
    assert_eq!(
        meetings[3],
        ClassMeeting::OnlineSync(Some(Classtime {
            days: ClassDays::TuTh,
            start_time: Time(1, 0, AmPm::Pm),
            end_time: Time(2, 15, AmPm::Pm),
        }))
    );
    assert_eq!(
        meetings[4],
        ClassMeeting::InPerson(InPersonClass { classtime: None, location: None })
    );
}

#[test]
fn row_with_days_but_unknown_pattern_fails() {
    let doc = String::from("<div id=\"CMSC101\"><div class=\"sections\"><div class=\"section\"><div class=\"class-days-container\"><div class=\"row\"><span class=\"section-days\">MTuF</span><span class=\"class-start-time\">9:00am</span><span class=\"class-end-time\">9:50am</span><span class=\"class-building\"><span class=\"building-code\">TBA</span></span></div></div></div></div></div>");
    let r = get_class_meetings(&doc, &String::from("CMSC101"), &String::from("0101"), 1);
    assert_eq!(r, Err(ScrapeError::UnknownDayPattern(String::from("MTuF"))));
}

#[test]
fn row_with_malformed_time_fails() {
    let doc = String::from("<div id=\"CMSC101\"><div class=\"sections\"><div class=\"section\"><div class=\"class-days-container\"><div class=\"row\"><span class=\"section-days\">MWF</span><span class=\"class-start-time\">9am</span><span class=\"class-end-time\">9:50am</span><span class=\"class-building\"><span class=\"building-code\">TBA</span></span></div></div></div></div></div>");
    let r = get_class_meetings(&doc, &String::from("CMSC101"), &String::from("0101"), 1);
    assert_eq!(r, Err(ScrapeError::MalformedTime(String::from("9am"))));
}

#[test]
fn row_with_no_fields_at_all_fails() {
    let doc = String::from("<div id=\"CMSC101\"><div class=\"sections\"><div class=\"section\"><div class=\"class-days-container\"><div class=\"row\"><span class=\"other\">x</span></div></div></div></div></div>");
    let r = get_class_meetings(&doc, &String::from("CMSC101"), &String::from("0101"), 1);
    assert!(matches!(r, Err(ScrapeError::MarkupAssumptionViolated(..))));
}

#[test]
fn section_without_rows_has_no_meetings() {
    let doc = String::from("<div id=\"CMSC101\"><div class=\"sections\"><div class=\"section\"><div class=\"class-days-container\"></div></div></div></div>");
    let r = get_class_meetings(&doc, &String::from("CMSC101"), &String::from("0101"), 1);
    assert_eq!(r, Ok(Vec::new()));
}
