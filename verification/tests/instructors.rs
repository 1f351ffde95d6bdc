//! The instructor normalizer: record minimization and the pagination
//! termination rule.

use jupiterp_datagen::instructors::{absorb_page, next_offset};
use jupiterp_datagen::types::{PlanetTerpProfessor, Professor};

fn raw(name: &str, slug: &str, rating: Option<&str>) -> PlanetTerpProfessor {
    PlanetTerpProfessor {
        name: String::from(name),
        slug: String::from(slug),
        role: String::from("professor"),
        courses: vec![String::from("CMSC101")],
        average_rating: rating.map(String::from),
    }
}

#[test]
fn minimize_keeps_only_name_slug_rating() {
    let p = raw("Jon Snow", "snow", Some("4.125")).minimize();
    assert_eq!(
        p,
        Professor {
            name: String::from("Jon Snow"),
            slug: String::from("snow"),
            average_rating: Some(String::from("4.125")),
        }
    );
}

#[test]
fn minimize_keeps_absent_rating_absent() {
    let p = raw("New Hire", "hire", None).minimize();
    assert_eq!(p.average_rating, None);
}

#[test]
fn pagination_stops_after_partial_second_page() {
    let page_size = 100;
    let mut output: Vec<Professor> = Vec::new();
    let mut pages_fetched: usize = 0;

    // A mock endpoint: a full first page, then exactly one fewer record
    // than the page size on the second page.
    let mock_pages: Vec<Vec<PlanetTerpProfessor>> = vec![
        (0..100).map(|i| raw(&format!("Prof {i}"), &format!("prof-{i}"), None)).collect(),
        (100..199).map(|i| raw(&format!("Prof {i}"), &format!("prof-{i}"), None)).collect(),
    ];

    let mut offset: usize = 0;
    for page in mock_pages {
        pages_fetched += 1;
        let done = absorb_page(&mut output, page, page_size);
        offset = next_offset(offset, page_size);
        if done {
            break;
        }
    }

    assert_eq!(pages_fetched, 2);
    assert_eq!(offset, 200);
    assert_eq!(output.len(), 199);
    assert_eq!(output[0].name, "Prof 0");
    assert_eq!(output[198].name, "Prof 198");
    assert!(output.iter().all(|p| p.average_rating.is_none()));
}

#[test]
fn full_page_is_not_terminal() {
    let mut output: Vec<Professor> = Vec::new();
    let page: Vec<PlanetTerpProfessor> =
        (0..5).map(|i| raw(&format!("P{i}"), &format!("p{i}"), None)).collect();
    assert!(!absorb_page(&mut output, page, 5));
    assert_eq!(output.len(), 5);
}

#[test]
fn short_page_is_terminal() {
    let mut output: Vec<Professor> = Vec::new();
    let page: Vec<PlanetTerpProfessor> =
        (0..4).map(|i| raw(&format!("P{i}"), &format!("p{i}"), None)).collect();
    assert!(absorb_page(&mut output, page, 5));
    assert_eq!(output.len(), 4);
}

#[test]
fn empty_page_is_terminal_and_adds_nothing() {
    let mut output: Vec<Professor> = Vec::new();
    assert!(absorb_page(&mut output, Vec::new(), 100));
    assert!(output.is_empty());
}

#[test]
fn absorbed_records_keep_page_order() {
    let mut output: Vec<Professor> = Vec::new();
    let page = vec![raw("B", "b", None), raw("A", "a", Some("2.5"))];
    absorb_page(&mut output, page, 100);
    assert_eq!(output[0].slug, "b");
    assert_eq!(output[1].slug, "a");
    assert_eq!(output[1].average_rating, Some(String::from("2.5")));
}
