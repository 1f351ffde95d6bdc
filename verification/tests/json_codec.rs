//! The JSON codec: canonical emission and exact round trips, including
//! the distinction between absent and empty optional fields.

use jupiterp_datagen::json::{course_from_json, course_to_json};
use jupiterp_datagen::types::{
    AmPm, ClassDays, ClassLocation, ClassMeeting, Classtime, Course, CreditCount, InPersonClass,
    Section, Time,
};

fn minimal_course() -> Course {
    Course {
        code: String::from("CMSC101"),
        name: String::from("Intro"),
        credits: CreditCount::Amount(3),
        gen_eds: None,
        conditions: None,
        description: String::new(),
        sections: None,
    }
}

fn full_course() -> Course {
    Course {
        code: String::from("CMSC351"),
        name: String::from("Algorithms"),
        credits: CreditCount::Range(1, 9),
        gen_eds: Some(vec![String::from("DSCC"), String::from("DSSP")]),
        conditions: Some(vec![String::from("Prerequisite: CMSC250")]),
        description: String::from("A course with \"quotes\" and a back\\slash."),
        sections: Some(vec![
            Section {
                sec_code: String::from("0101"),
                instructors: vec![String::from("Jon Snow")],
                class_meetings: vec![
                    ClassMeeting::InPerson(InPersonClass {
                        classtime: Some(Classtime {
                            days: ClassDays::MWF,
                            start_time: Time(9, 0, AmPm::Am),
                            end_time: Time(9, 50, AmPm::Am),
                        }),
                        location: Some(ClassLocation(
                            String::from("IRB"),
                            String::from("0306"),
                        )),
                    }),
                    ClassMeeting::OnlineAsync,
                ],
            },
            Section {
                sec_code: String::from("0201"),
                instructors: Vec::new(),
                class_meetings: vec![
                    ClassMeeting::Unspecified,
                    ClassMeeting::OnlineSync(None),
                    ClassMeeting::InPerson(InPersonClass { classtime: None, location: None }),
                ],
            },
        ]),
    }
}

#[test]
fn minimal_course_emits_canonical_shape() {
    assert_eq!(
        course_to_json(&minimal_course()),
        "{\"code\":\"CMSC101\",\"name\":\"Intro\",\"credits\":{\"Amount\":3},\"gen_eds\":null,\"conditions\":null,\"description\":\"\",\"sections\":null}"
    );
}

#[test]
fn minimal_course_round_trips() {
    let c = minimal_course();
    assert_eq!(course_from_json(&course_to_json(&c)), Some(c));
}

#[test]
fn full_course_round_trips() {
    let c = full_course();
    assert_eq!(course_from_json(&course_to_json(&c)), Some(c));
}

#[test]
fn empty_section_list_is_distinct_from_absent() {
    let mut with_empty = minimal_course();
    with_empty.sections = Some(Vec::new());
    let none_text = course_to_json(&minimal_course());
    let empty_text = course_to_json(&with_empty);
    assert_ne!(none_text, empty_text);
    assert_eq!(
        course_from_json(&none_text).unwrap().sections,
        None
    );
    assert_eq!(
        course_from_json(&empty_text).unwrap().sections,
        Some(Vec::new())
    );
}

#[test]
fn empty_gen_ed_list_round_trips_as_present() {
    let mut c = minimal_course();
    c.gen_eds = Some(Vec::new());
    let back = course_from_json(&course_to_json(&c)).unwrap();
    assert_eq!(back.gen_eds, Some(Vec::new()));
}

#[test]
fn range_credits_round_trip() {
    let mut c = minimal_course();
    c.credits = CreditCount::Range(0, 255);
    let back = course_from_json(&course_to_json(&c)).unwrap();
    assert_eq!(back.credits, CreditCount::Range(0, 255));
}

#[test]
fn garbage_does_not_parse() {
    assert_eq!(course_from_json("not json"), None);
    assert_eq!(course_from_json(""), None);
}

#[test]
fn trailing_data_is_rejected() {
    let text = course_to_json(&minimal_course()) + "x";
    assert_eq!(course_from_json(&text), None);
}
