//! The section and course assemblers: enumerate a course's sections in
//! document order, extract section codes and instructors, classify every
//! meeting row, and assemble the full course record with its title,
//! credits, tags, conditions and layered description lookup.

use vstd::prelude::*;
use crate::chars::{chars_to_string, dec_digits, dec_u8, parse_u8, push_dec_digits,
    push_str_chars};
use crate::errors::ScrapeError;
use crate::html::{select_inners, selected_inner_htmls, selector_ok, strip_html_tags,
    stripped_text};
use crate::meetings::{class_meetings_spec, get_class_meetings, is_meetings_selector,
    row_failure_error, RowFailure};
use crate::textparse::{anchor_text, contains_seq, extract_anchor_text, extract_section_code,
    section_code, str_contains};
use crate::types::{ClassMeeting, Course, CourseM, CreditCount, Section, SectionM};

verus! {

// ---------------------------------------------------------------------
// Failure contexts.

/// A failure of section or course assembly: what went wrong, and the
/// course and section context the reported error carries.
pub ghost struct FailureCtx {
    pub failure: RowFailure,
    pub course: Seq<char>,
    pub section: Seq<char>,
}

/// The error an exec function reports for an assembly failure.
pub open spec fn failure_error(e: ScrapeError, ctx: FailureCtx) -> bool {
    row_failure_error(e, ctx.failure, ctx.course, ctx.section)
}

// ---------------------------------------------------------------------
// Selectors.

/// CSS selector `#<code> <tail>` addressing a field of one course.
pub open spec fn code_sel(code: Seq<char>, tail: Seq<char>) -> Seq<char> {
    "#"@ + code + tail
}

/// CSS selector for the instructor cells of the `nth` section of a
/// course.
pub open spec fn instructor_sel(course: Seq<char>, nth: int) -> Seq<char> {
    "#"@ + course + " .section:nth-child("@ + dec_digits(nth) + ") .section-instructor"@
}

/// The selector strings the section assembler builds for a course.
pub open spec fn is_sections_selector(course: Seq<char>, s: Seq<char>) -> bool {
    ||| s == code_sel(course, " .section-id"@)
    ||| exists|nth: int| 1 <= nth && s == #[trigger] instructor_sel(course, nth)
    ||| exists|nth: int| 1 <= nth && #[trigger] is_meetings_selector(course, nth, s)
}

/// The selector strings the course assembler builds for a course code.
pub open spec fn is_course_selector(course: Seq<char>, s: Seq<char>) -> bool {
    ||| s == code_sel(course, " .course-title"@)
    ||| s == code_sel(course, " .course-min-credits"@)
    ||| s == code_sel(course, " .course-max-credits"@)
    ||| s == code_sel(course, " .course-subcategory a"@)
    ||| s == code_sel(
        course,
        " .approved-course-texts-container :nth-child(1) .approved-course-text > div > div > div"@,
    )
    ||| s == code_sel(
        course,
        " .approved-course-texts-container :nth-child(2) .approved-course-text"@,
    )
    ||| s == code_sel(course, " .approved-course-text"@)
    ||| s == code_sel(course, " .course-text"@)
    ||| is_sections_selector(course, s)
}

/// Builds the selector `#<code> <tail>`.
fn build_code_sel(code: &str, tail: &str) -> (r: String)
    ensures
        r@ == code_sel(code@, tail@),
{
    let mut out: Vec<char> = Vec::new();
    push_str_chars(&mut out, "#");
    push_str_chars(&mut out, code);
    push_str_chars(&mut out, tail);
    proof {
        assert(out@ =~= code_sel(code@, tail@));
    }
    chars_to_string(&out)
}

/// Builds the instructor-cell selector.
fn build_instructor_sel(course: &str, nth: usize) -> (r: String)
    ensures
        r@ == instructor_sel(course@, nth as int),
{
    let mut out: Vec<char> = Vec::new();
    push_str_chars(&mut out, "#");
    push_str_chars(&mut out, course);
    push_str_chars(&mut out, " .section:nth-child(");
    push_dec_digits(&mut out, nth);
    push_str_chars(&mut out, ") .section-instructor");
    proof {
        assert(out@ =~= instructor_sel(course@, nth as int));
    }
    chars_to_string(&out)
}

// ---------------------------------------------------------------------
// Sections.

/// The plain name of an instructor cell: a cell that embeds the name in
/// an anchor is unwrapped to the anchor's text; any other cell is taken
/// verbatim.  `None` when the cell mentions an anchor but has no anchor
/// shape.
pub open spec fn instructor_name(cell: Seq<char>) -> Option<Seq<char>> {
    if contains_seq(cell, "<a"@) {
        anchor_text(cell)
    } else {
        Some(cell)
    }
}

/// The names of the first `upto` instructor cells, the first cell without
/// a name aborting.
pub open spec fn instructors_upto(cells: Seq<Seq<char>>, upto: int) -> Result<
    Seq<Seq<char>>,
    Seq<char>,
>
    decreases upto,
{
    if upto <= 0 {
        Ok(Seq::empty())
    } else {
        match instructors_upto(cells, upto - 1) {
            Err(c) => Err(c),
            Ok(pre) => match instructor_name(cells[upto - 1]) {
                None => Err(cells[upto - 1]),
                Some(nm) => Ok(pre.push(nm)),
            },
        }
    }
}

/// The section codes of the first `upto` raw section labels, the first
/// label without a code aborting.
pub open spec fn section_codes_upto(labels: Seq<Seq<char>>, upto: int) -> Result<
    Seq<Seq<char>>,
    Seq<char>,
>
    decreases upto,
{
    if upto <= 0 {
        Ok(Seq::empty())
    } else {
        match section_codes_upto(labels, upto - 1) {
            Err(l) => Err(l),
            Ok(pre) => match section_code(labels[upto - 1]) {
                None => Err(labels[upto - 1]),
                Some(c) => Ok(pre.push(c)),
            },
        }
    }
}

/// One assembled section: its code, its instructors in document order,
/// and its classified meetings.
pub open spec fn one_section(
    doc: Seq<char>,
    course: Seq<char>,
    code: Seq<char>,
    nth: int,
) -> Result<SectionM, FailureCtx> {
    let cells = selected_inner_htmls(doc, instructor_sel(course, nth));
    match instructors_upto(cells, cells.len() as int) {
        Err(cell) => Err(FailureCtx {
            failure: RowFailure::Violation(cell),
            course,
            section: code,
        }),
        Ok(instrs) => match class_meetings_spec(doc, course, nth) {
            Err(f) => Err(FailureCtx { failure: f, course, section: code }),
            Ok(ms) => Ok(SectionM { sec_code: code, instructors: instrs, class_meetings: ms }),
        },
    }
}

/// The first `upto` assembled sections, ordinals assigned in document
/// order, the first failing section aborting.
pub open spec fn sections_upto(
    doc: Seq<char>,
    course: Seq<char>,
    codes: Seq<Seq<char>>,
    upto: int,
) -> Result<Seq<SectionM>, FailureCtx>
    decreases upto,
{
    if upto <= 0 {
        Ok(Seq::empty())
    } else {
        match sections_upto(doc, course, codes, upto - 1) {
            Err(f) => Err(f),
            Ok(pre) => match one_section(doc, course, codes[upto - 1], upto) {
                Err(f) => Err(f),
                Ok(s) => Ok(pre.push(s)),
            },
        }
    }
}

/// The sections of a course, from the sections document: absent when the
/// course lists no section labels at all; otherwise every label must
/// yield a code and every section must assemble.
pub open spec fn sections_info_spec(doc: Seq<char>, course: Seq<char>) -> Result<
    Option<Seq<SectionM>>,
    FailureCtx,
> {
    let labels = selected_inner_htmls(doc, code_sel(course, " .section-id"@));
    if labels.len() == 0 {
        Ok(None)
    } else {
        match section_codes_upto(labels, labels.len() as int) {
            Err(l) => Err(FailureCtx {
                failure: RowFailure::Violation(l),
                course,
                section: Seq::empty(),
            }),
            Ok(codes) => match sections_upto(doc, course, codes, codes.len() as int) {
                Err(f) => Err(f),
                Ok(ss) => Ok(Some(ss)),
            },
        }
    }
}

/// A failing prefix of `section_codes_upto` persists.
proof fn lemma_section_codes_err(labels: Seq<Seq<char>>, j: int, upto: int)
    requires
        0 <= j <= upto,
        section_codes_upto(labels, j) is Err,
    ensures
        section_codes_upto(labels, upto) == section_codes_upto(labels, j),
    decreases upto - j,
{
    if j < upto {
        lemma_section_codes_err(labels, j, upto - 1);
    }
}

/// A failing prefix of `instructors_upto` persists.
proof fn lemma_instructors_err(cells: Seq<Seq<char>>, j: int, upto: int)
    requires
        0 <= j <= upto,
        instructors_upto(cells, j) is Err,
    ensures
        instructors_upto(cells, upto) == instructors_upto(cells, j),
    decreases upto - j,
{
    if j < upto {
        lemma_instructors_err(cells, j, upto - 1);
    }
}

/// A failing prefix of `sections_upto` persists.
proof fn lemma_sections_err(
    doc: Seq<char>,
    course: Seq<char>,
    codes: Seq<Seq<char>>,
    j: int,
    upto: int,
)
    requires
        0 <= j <= upto,
        sections_upto(doc, course, codes, j) is Err,
    ensures
        sections_upto(doc, course, codes, upto) == sections_upto(doc, course, codes, j),
    decreases upto - j,
{
    if j < upto {
        lemma_sections_err(doc, course, codes, j, upto - 1);
    }
}

/// Assembles every section of a course from the sections document, in
/// document order.  A course without section labels yields `None`.
/// Succeeds exactly when every label yields a code and every section
/// assembles; a selector-rejection error carries one of this function's
/// own selectors that the engine refuses, so once those are known to be
/// accepted, success is owed whenever the sections assemble.
pub fn sections_info(course_code: &String, sections_doc: &str) -> (r: Result<
    Option<Vec<Section>>,
    ScrapeError,
>)
    ensures
        match r {
            Ok(opt) => sections_info_spec(sections_doc@, course_code@) == Ok::<
                Option<Seq<SectionM>>,
                FailureCtx,
            >(
                match opt {
                    Some(ref v) => Some(v.deep_view()),
                    None => None,
                },
            ),
            Err(e) => (e matches ScrapeError::SelectorRejected(sel) && !selector_ok(sel@)
                && is_sections_selector(course_code@, sel@)) || (sections_info_spec(
                sections_doc@,
                course_code@,
            ) matches Err(ctx) && failure_error(e, ctx)),
        },
        (sections_info_spec(sections_doc@, course_code@) is Ok && (forall|s: Seq<char>|
            is_sections_selector(course_code@, s) ==> #[trigger] selector_ok(s))) ==> r is Ok,
{
    let sec_sel = build_code_sel(course_code.as_str(), " .section-id");
    let labels = match select_inners(sections_doc, sec_sel.as_str()) {
        Some(v) => v,
        None => { return Err(ScrapeError::SelectorRejected(sec_sel)) },
    };
    let n = labels.len();
    if n == 0 {
        return Ok(None);
    }
    // Extract every section code first, in document order.
    let mut codes: Vec<String> = Vec::new();
    let mut i: usize = 0;
    proof {
        assert(codes.deep_view() =~= Seq::<Seq<char>>::empty());
    }
    while i < n
        invariant
            n == labels@.len(),
            i <= n,
            labels.deep_view() == selected_inner_htmls(
                sections_doc@,
                code_sel(course_code@, " .section-id"@),
            ),
            section_codes_upto(labels.deep_view(), i as int) == Ok::<Seq<Seq<char>>, Seq<char>>(
                codes.deep_view(),
            ),
            codes@.len() == i,
        decreases n - i,
    {
        match extract_section_code(labels[i].as_str()) {
            Some(c) => {
                codes.push(c);
                proof {
                    assert(codes.deep_view() =~= section_codes_upto(
                        labels.deep_view(),
                        i as int,
                    )->Ok_0.push(section_code(labels.deep_view()[i as int])->Some_0));
                }
                i = i + 1;
            },
            None => {
                proof {
                    lemma_section_codes_err(labels.deep_view(), i + 1, n as int);
                }
                return Err(ScrapeError::MarkupAssumptionViolated(
                    course_code.clone(),
                    String::new(),
                    labels[i].clone(),
                ));
            },
        }
    }
    // Assemble each section against its 1-based ordinal.
    let mut result: Vec<Section> = Vec::new();
    proof {
        assert(result.deep_view() =~= Seq::<SectionM>::empty());
    }
    let mut s: usize = 0;
    while s < n
        invariant
            n == codes@.len(),
            s <= n,
            labels.deep_view() == selected_inner_htmls(
                sections_doc@,
                code_sel(course_code@, " .section-id"@),
            ),
            labels@.len() == n,
            section_codes_upto(labels.deep_view(), n as int) == Ok::<Seq<Seq<char>>, Seq<char>>(
                codes.deep_view(),
            ),
            sections_upto(sections_doc@, course_code@, codes.deep_view(), s as int) == Ok::<
                Seq<SectionM>,
                FailureCtx,
            >(result.deep_view()),
        decreases n - s,
    {
        let nth = s + 1;
        let isel = build_instructor_sel(course_code.as_str(), nth);
        let cells = match select_inners(sections_doc, isel.as_str()) {
            Some(v) => v,
            None => {
                proof {
                    assert(isel@ == instructor_sel(course_code@, nth as int));
                    assert(is_sections_selector(course_code@, isel@));
                }
                return Err(ScrapeError::SelectorRejected(isel));
            },
        };
        let m = cells.len();
        let mut instrs: Vec<String> = Vec::new();
        proof {
            assert(instrs.deep_view() =~= Seq::<Seq<char>>::empty());
        }
        let mut j: usize = 0;
        while j < m
            invariant
                m == cells@.len(),
                j <= m,
                cells.deep_view() == selected_inner_htmls(
                    sections_doc@,
                    instructor_sel(course_code@, nth as int),
                ),
                instructors_upto(cells.deep_view(), j as int) == Ok::<Seq<Seq<char>>, Seq<char>>(
                    instrs.deep_view(),
                ),
                nth == s + 1,
                n == codes@.len(),
                s < n,
                n == labels@.len(),
                n > 0,
                labels.deep_view() == selected_inner_htmls(
                    sections_doc@,
                    code_sel(course_code@, " .section-id"@),
                ),
                section_codes_upto(labels.deep_view(), n as int) == Ok::<
                    Seq<Seq<char>>,
                    Seq<char>,
                >(codes.deep_view()),
                sections_upto(sections_doc@, course_code@, codes.deep_view(), s as int) == Ok::<
                    Seq<SectionM>,
                    FailureCtx,
                >(result.deep_view()),
            decreases m - j,
        {
            let cell = &cells[j];
            if str_contains(cell.as_str(), "<a") {
                match extract_anchor_text(cell.as_str()) {
                    Some(t) => {
                        instrs.push(t);
                    },
                    None => {
                        proof {
                            lemma_instructors_err(cells.deep_view(), j + 1, m as int);
                            lemma_sections_err(
                                sections_doc@,
                                course_code@,
                                codes.deep_view(),
                                s + 1,
                                n as int,
                            );
                        }
                        return Err(ScrapeError::MarkupAssumptionViolated(
                            course_code.clone(),
                            codes[s].clone(),
                            cells[j].clone(),
                        ));
                    },
                }
            } else {
                instrs.push(cell.clone());
            }
            proof {
                assert(instrs.deep_view() =~= instructors_upto(
                    cells.deep_view(),
                    j as int,
                )->Ok_0.push(instructor_name(cells.deep_view()[j as int])->Some_0));
            }
            j = j + 1;
        }
        let meetings: Vec<ClassMeeting> = match get_class_meetings(
            sections_doc,
            course_code,
            &codes[s],
            nth,
        ) {
            Ok(v) => v,
            Err(e) => {
                proof {
                    match e {
                        ScrapeError::SelectorRejected(ref sel) => {
                            assert(is_meetings_selector(course_code@, nth as int, sel@));
                            assert(is_sections_selector(course_code@, sel@));
                        },
                        _ => {
                            lemma_sections_err(
                                sections_doc@,
                                course_code@,
                                codes.deep_view(),
                                s + 1,
                                n as int,
                            );
                        },
                    }
                }
                return Err(e);
            },
        };
        let section = Section {
            sec_code: codes[s].clone(),
            instructors: instrs,
            class_meetings: meetings,
        };
        result.push(section);
        proof {
            assert(result.deep_view() =~= sections_upto(
                sections_doc@,
                course_code@,
                codes.deep_view(),
                s as int,
            )->Ok_0.push(one_section(
                sections_doc@,
                course_code@,
                codes.deep_view()[s as int],
                s + 1,
            )->Ok_0));
        }
        s = s + 1;
    }
    Ok(Some(result))
}

// ---------------------------------------------------------------------
// Courses.

/// The credits of a course given the text of its minimum field and the
/// optional text of its maximum field.  The presence of the maximum alone
/// decides between a fixed amount and a range; a range whose minimum
/// exceeds its maximum violates the data model.
pub open spec fn credits_spec(min_text: Seq<char>, max_text: Option<Seq<char>>) -> Option<
    CreditCount,
> {
    match dec_u8(min_text) {
        None => None,
        Some(minc) => match max_text {
            None => Some(CreditCount::Amount(minc)),
            Some(mt) => match dec_u8(mt) {
                None => None,
                Some(maxc) => if minc <= maxc {
                    Some(CreditCount::Range(minc, maxc))
                } else {
                    None
                },
            },
        },
    }
}

/// Each condition block with its markup stripped.
pub open spec fn stripped_all(raws: Seq<Seq<char>>) -> Seq<Seq<char>> {
    raws.map_values(|r: Seq<char>| stripped_text(r))
}

/// The description of a course: a three-tier fallback search, each tier
/// stripped of markup and tried only when the previous one matched
/// nothing, and the empty string when none matches.
pub open spec fn description_spec(cdoc: Seq<char>, code: Seq<char>) -> Seq<char> {
    let d1 = selected_inner_htmls(
        cdoc,
        code_sel(code, " .approved-course-texts-container :nth-child(2) .approved-course-text"@),
    );
    let d2 = selected_inner_htmls(cdoc, code_sel(code, " .approved-course-text"@));
    let d3 = selected_inner_htmls(cdoc, code_sel(code, " .course-text"@));
    if d1.len() > 0 {
        stripped_text(d1[0])
    } else if d2.len() > 0 {
        stripped_text(d2[0])
    } else if d3.len() > 0 {
        stripped_text(d3[0])
    } else {
        Seq::empty()
    }
}

/// One assembled course: its title (which must be present), its credits,
/// its general-education tags (absent when none), its stripped condition
/// blocks (absent when none), its description, and its sections.
pub open spec fn course_m(code: Seq<char>, cdoc: Seq<char>, sdoc: Seq<char>) -> Result<
    CourseM,
    FailureCtx,
> {
    let names = selected_inner_htmls(cdoc, code_sel(code, " .course-title"@));
    let mins = selected_inner_htmls(cdoc, code_sel(code, " .course-min-credits"@));
    let maxs = selected_inner_htmls(cdoc, code_sel(code, " .course-max-credits"@));
    if names.len() == 0 {
        Err(FailureCtx {
            failure: RowFailure::Violation(code_sel(code, " .course-title"@)),
            course: code,
            section: Seq::empty(),
        })
    } else if mins.len() == 0 {
        Err(FailureCtx {
            failure: RowFailure::Violation(code_sel(code, " .course-min-credits"@)),
            course: code,
            section: Seq::empty(),
        })
    } else {
        let max_text = if maxs.len() > 0 { Some(maxs[0]) } else { None };
        match credits_spec(mins[0], max_text) {
            None => Err(FailureCtx {
                failure: RowFailure::Violation(if dec_u8(mins[0]) is None {
                    mins[0]
                } else {
                    maxs[0]
                }),
                course: code,
                section: Seq::empty(),
            }),
            Some(credits) => {
                let tags = selected_inner_htmls(cdoc, code_sel(code, " .course-subcategory a"@));
                let conds = selected_inner_htmls(
                    cdoc,
                    code_sel(
                        code,
                        " .approved-course-texts-container :nth-child(1) .approved-course-text > div > div > div"@,
                    ),
                );
                match sections_info_spec(sdoc, code) {
                    Err(ctx) => Err(ctx),
                    Ok(sections) => Ok(CourseM {
                        code: code,
                        name: names[0],
                        credits: credits,
                        gen_eds: if tags.len() == 0 { None } else { Some(tags) },
                        conditions: if conds.len() == 0 { None } else { Some(stripped_all(conds)) },
                        description: description_spec(cdoc, code),
                        sections: sections,
                    }),
                }
            },
        }
    }
}

/// Assembles one course from the course and sections documents.  Succeeds
/// exactly when the title is present, the credit fields parse, and every
/// section assembles; a selector-rejection error carries one of this
/// function's own selectors that the engine refuses, so once those are
/// known to be accepted, success is owed whenever the course assembles.
pub fn course_info(course_code: String, course_doc: &str, sections_doc: &str) -> (r: Result<
    Course,
    ScrapeError,
>)
    ensures
        match r {
            Ok(c) => course_m(course_code@, course_doc@, sections_doc@) == Ok::<
                CourseM,
                FailureCtx,
            >(c@),
            Err(e) => (e matches ScrapeError::SelectorRejected(sel) && !selector_ok(sel@)
                && is_course_selector(course_code@, sel@)) || (course_m(
                course_code@,
                course_doc@,
                sections_doc@,
            ) matches Err(ctx) && failure_error(e, ctx)),
        },
        (course_m(course_code@, course_doc@, sections_doc@) is Ok && (forall|s: Seq<char>|
            is_course_selector(course_code@, s) ==> #[trigger] selector_ok(s))) ==> r is Ok,
{
    // Title.
    let name_sel = build_code_sel(course_code.as_str(), " .course-title");
    let names = match select_inners(course_doc, name_sel.as_str()) {
        Some(v) => v,
        None => { return Err(ScrapeError::SelectorRejected(name_sel)) },
    };
    if names.len() == 0 {
        return Err(ScrapeError::MarkupAssumptionViolated(
            course_code.clone(),
            String::new(),
            name_sel,
        ));
    }
    let name = names[0].clone();
    // Credits.
    let min_sel = build_code_sel(course_code.as_str(), " .course-min-credits");
    let mins = match select_inners(course_doc, min_sel.as_str()) {
        Some(v) => v,
        None => { return Err(ScrapeError::SelectorRejected(min_sel)) },
    };
    if mins.len() == 0 {
        return Err(ScrapeError::MarkupAssumptionViolated(
            course_code.clone(),
            String::new(),
            min_sel,
        ));
    }
    let min_credits = match parse_u8(mins[0].as_str()) {
        Some(v) => v,
        None => {
            return Err(ScrapeError::MarkupAssumptionViolated(
                course_code.clone(),
                String::new(),
                mins[0].clone(),
            ));
        },
    };
    let max_sel = build_code_sel(course_code.as_str(), " .course-max-credits");
    let maxs = match select_inners(course_doc, max_sel.as_str()) {
        Some(v) => v,
        None => { return Err(ScrapeError::SelectorRejected(max_sel)) },
    };
    let max_credits: Option<u8>;
    if maxs.len() == 0 {
        max_credits = None;
    } else {
        match parse_u8(maxs[0].as_str()) {
            Some(v) => {
                if min_credits > v {
                    return Err(ScrapeError::MarkupAssumptionViolated(
                        course_code.clone(),
                        String::new(),
                        maxs[0].clone(),
                    ));
                }
                max_credits = Some(v);
            },
            None => {
                return Err(ScrapeError::MarkupAssumptionViolated(
                    course_code.clone(),
                    String::new(),
                    maxs[0].clone(),
                ));
            },
        }
    }
    let credits: CreditCount = crate::types::classify_credits(min_credits, max_credits);
    // General-education tags.
    let tags_sel = build_code_sel(course_code.as_str(), " .course-subcategory a");
    let tags = match select_inners(course_doc, tags_sel.as_str()) {
        Some(v) => v,
        None => { return Err(ScrapeError::SelectorRejected(tags_sel)) },
    };
    let gen_eds: Option<Vec<String>> = if tags.len() == 0 {
        None
    } else {
        Some(tags)
    };
    // Conditions.
    let conds_sel = build_code_sel(
        course_code.as_str(),
        " .approved-course-texts-container :nth-child(1) .approved-course-text > div > div > div",
    );
    let conds_raw = match select_inners(course_doc, conds_sel.as_str()) {
        Some(v) => v,
        None => { return Err(ScrapeError::SelectorRejected(conds_sel)) },
    };
    let conditions: Option<Vec<String>>;
    if conds_raw.len() == 0 {
        conditions = None;
    } else {
        let k = conds_raw.len();
        let mut stripped: Vec<String> = Vec::new();
        let mut i: usize = 0;
        while i < k
            invariant
                k == conds_raw@.len(),
                i <= k,
                stripped@.len() == i,
                forall|t: int| 0 <= t < i ==> stripped.deep_view()[t] == stripped_text(
                    #[trigger] conds_raw.deep_view()[t],
                ),
            decreases k - i,
        {
            stripped.push(strip_html_tags(conds_raw[i].as_str()));
            i = i + 1;
        }
        proof {
            assert(stripped.deep_view() =~= stripped_all(conds_raw.deep_view()));
        }
        conditions = Some(stripped);
    }
    // Description: three-tier fallback.
    let d1_sel = build_code_sel(
        course_code.as_str(),
        " .approved-course-texts-container :nth-child(2) .approved-course-text",
    );
    let d1 = match select_inners(course_doc, d1_sel.as_str()) {
        Some(v) => v,
        None => { return Err(ScrapeError::SelectorRejected(d1_sel)) },
    };
    let description: String;
    if d1.len() > 0 {
        description = strip_html_tags(d1[0].as_str());
    } else {
        let d2_sel = build_code_sel(course_code.as_str(), " .approved-course-text");
        let d2 = match select_inners(course_doc, d2_sel.as_str()) {
            Some(v) => v,
            None => { return Err(ScrapeError::SelectorRejected(d2_sel)) },
        };
        if d2.len() > 0 {
            description = strip_html_tags(d2[0].as_str());
        } else {
            let d3_sel = build_code_sel(course_code.as_str(), " .course-text");
            let d3 = match select_inners(course_doc, d3_sel.as_str()) {
                Some(v) => v,
                None => { return Err(ScrapeError::SelectorRejected(d3_sel)) },
            };
            if d3.len() > 0 {
                description = strip_html_tags(d3[0].as_str());
            } else {
                description = String::new();
            }
        }
    }
    // Sections.
    let sections = match sections_info(&course_code, sections_doc) {
        Ok(opt) => opt,
        Err(e) => { return Err(e) },
    };
    Ok(Course {
        code: course_code,
        name,
        credits,
        gen_eds,
        conditions,
        description,
        sections,
    })
}

} // verus!
