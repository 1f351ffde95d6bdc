//! Markup-stripping behavior as seen through assembled course fields:
//! fragments without tags pass through, nested tags are flattened.

use jupiterp_datagen::courses::course_info;

fn doc_with_description(body: &str) -> String {
    format!(
        "<div id=\"CMSC101\"><span class=\"course-title\">Intro</span><span class=\"course-min-credits\">3</span><div class=\"course-text\">{}</div></div>",
        body
    )
}

fn description_of(body: &str) -> String {
    let doc = doc_with_description(body);
    course_info(String::from("CMSC101"), &doc, "<div></div>")
        .unwrap()
        .description
}

#[test]
fn plain_text_passes_through_unchanged() {
    assert_eq!(description_of("A plain description."), "A plain description.");
}

#[test]
fn single_tag_is_stripped() {
    assert_eq!(description_of("An <b>important</b> word."), "An important word.");
}

#[test]
fn nested_tags_are_stripped() {
    assert_eq!(
        description_of("<span>Outer <em>and <b>inner</b></em> text</span>"),
        "Outer and inner text"
    );
}
