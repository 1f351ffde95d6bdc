//! The department walker's document logic: enumerating course prefixes,
//! enumerating the course codes of a department's listing document,
//! building the single batched sections request, and assembling every
//! course of a department from its two documents.  Fetching itself is a
//! collaborator outside this crate.

use vstd::prelude::*;
use crate::chars::{chars_to_string, push_str_chars};
use crate::courses::{course_m, course_info, failure_error, is_course_selector, FailureCtx};
use crate::errors::ScrapeError;
use crate::html::{select_inners, selected_inner_htmls, selector_ok};
use crate::types::{Course, CourseM};

verus! {

/// Enumerates the department prefixes listed on the schedule-of-classes
/// front page.  Succeeds exactly when the engine accepts the one fixed
/// selector this function uses.
pub fn extract_depts(doc: &str) -> (r: Result<Vec<String>, ScrapeError>)
    ensures
        match r {
            Ok(v) => selector_ok("#course-prefixes-page .two"@) && v.deep_view()
                == selected_inner_htmls(doc@, "#course-prefixes-page .two"@),
            Err(e) => !selector_ok("#course-prefixes-page .two"@) && (e matches
                ScrapeError::SelectorRejected(sel) && sel@ == "#course-prefixes-page .two"@),
        },
{
    match select_inners(doc, "#course-prefixes-page .two") {
        Some(v) => Ok(v),
        None => Err(ScrapeError::SelectorRejected(String::from_str(
            "#course-prefixes-page .two",
        ))),
    }
}

/// Enumerates the course codes of a department's course-listing document,
/// in document order.  Succeeds exactly when the engine accepts the one
/// fixed selector this function uses.
pub fn extract_course_codes(doc: &str) -> (r: Result<Vec<String>, ScrapeError>)
    ensures
        match r {
            Ok(v) => selector_ok(".course-id"@) && v.deep_view() == selected_inner_htmls(
                doc@,
                ".course-id"@,
            ),
            Err(e) => !selector_ok(".course-id"@) && (e matches ScrapeError::SelectorRejected(
                sel,
            ) && sel@ == ".course-id"@),
        },
{
    match select_inners(doc, ".course-id") {
        Some(v) => Ok(v),
        None => Err(ScrapeError::SelectorRejected(String::from_str(".course-id"))),
    }
}

/// The course codes joined with commas, without a trailing comma.
pub open spec fn joined_codes(codes: Seq<Seq<char>>, upto: int) -> Seq<char>
    decreases upto,
{
    if upto <= 0 {
        Seq::empty()
    } else if upto == 1 {
        codes[0]
    } else {
        joined_codes(codes, upto - 1) + ","@ + codes[upto - 1]
    }
}

/// The single batched sections request for a term, keyed by the joined
/// list of course codes.
pub open spec fn sections_url(term: Seq<char>, codes: Seq<Seq<char>>) -> Seq<char> {
    "https://app.testudo.umd.edu/soc/"@ + term + "/sections?courseIds="@ + joined_codes(
        codes,
        codes.len() as int,
    )
}

/// Builds the batched sections request for all the given course codes.
pub fn build_sections_url(term: &str, codes: &Vec<String>) -> (r: String)
    ensures
        r@ == sections_url(term@, codes.deep_view()),
{
    let mut out: Vec<char> = Vec::new();
    push_str_chars(&mut out, "https://app.testudo.umd.edu/soc/");
    push_str_chars(&mut out, term);
    push_str_chars(&mut out, "/sections?courseIds=");
    let ghost prefix = out@;
    let n = codes.len();
    let mut i: usize = 0;
    while i < n
        invariant
            n == codes@.len(),
            i <= n,
            out@ == prefix + joined_codes(codes.deep_view(), i as int),
        decreases n - i,
    {
        if i > 0 {
            push_str_chars(&mut out, ",");
        }
        push_str_chars(&mut out, codes[i].as_str());
        proof {
            assert(out@ =~= prefix + joined_codes(codes.deep_view(), i + 1));
        }
        i = i + 1;
    }
    proof {
        assert(out@ =~= sections_url(term@, codes.deep_view()));
    }
    chars_to_string(&out)
}

/// The selector strings the department walker builds over a
/// course-listing document: the course-code selector, and every selector
/// the course assembler builds for one of the listed codes.
pub open spec fn is_department_selector(cdoc: Seq<char>, s: Seq<char>) -> bool {
    ||| s == ".course-id"@
    ||| exists|i: int|
        0 <= i < selected_inner_htmls(cdoc, ".course-id"@).len() && #[trigger] is_course_selector(
            selected_inner_htmls(cdoc, ".course-id"@)[i],
            s,
        )
}

/// The first `upto` assembled courses of a department, the first failing
/// course aborting.
pub open spec fn courses_upto(
    codes: Seq<Seq<char>>,
    cdoc: Seq<char>,
    sdoc: Seq<char>,
    upto: int,
) -> Result<Seq<CourseM>, FailureCtx>
    decreases upto,
{
    if upto <= 0 {
        Ok(Seq::empty())
    } else {
        match courses_upto(codes, cdoc, sdoc, upto - 1) {
            Err(f) => Err(f),
            Ok(pre) => match course_m(codes[upto - 1], cdoc, sdoc) {
                Err(f) => Err(f),
                Ok(c) => Ok(pre.push(c)),
            },
        }
    }
}

/// Every course of a department, assembled from the course-listing
/// document and the batched sections document, in document order.
pub open spec fn department_courses(cdoc: Seq<char>, sdoc: Seq<char>) -> Result<
    Seq<CourseM>,
    FailureCtx,
> {
    let codes = selected_inner_htmls(cdoc, ".course-id"@);
    courses_upto(codes, cdoc, sdoc, codes.len() as int)
}

/// A failing prefix of `courses_upto` persists.
proof fn lemma_courses_err(codes: Seq<Seq<char>>, cdoc: Seq<char>, sdoc: Seq<char>, j: int,
    upto: int)
    requires
        0 <= j <= upto,
        courses_upto(codes, cdoc, sdoc, j) is Err,
    ensures
        courses_upto(codes, cdoc, sdoc, upto) == courses_upto(codes, cdoc, sdoc, j),
    decreases upto - j,
{
    if j < upto {
        lemma_courses_err(codes, cdoc, sdoc, j, upto - 1);
    }
}

/// Assembles every course of a department from its two fetched
/// documents.  Succeeds exactly when every course assembles; a
/// selector-rejection error carries one of the walk's own selectors that
/// the engine refuses, so once those are known to be accepted, success is
/// owed whenever every course assembles.
pub fn courses_from_documents(course_doc: &str, sections_doc: &str) -> (r: Result<
    Vec<Course>,
    ScrapeError,
>)
    ensures
        match r {
            Ok(v) => department_courses(course_doc@, sections_doc@) == Ok::<
                Seq<CourseM>,
                FailureCtx,
            >(v.deep_view()),
            Err(e) => (e matches ScrapeError::SelectorRejected(sel) && !selector_ok(sel@)
                && is_department_selector(course_doc@, sel@)) || (department_courses(
                course_doc@,
                sections_doc@,
            ) matches Err(ctx) && failure_error(e, ctx)),
        },
        (department_courses(course_doc@, sections_doc@) is Ok && (forall|s: Seq<char>|
            is_department_selector(course_doc@, s) ==> #[trigger] selector_ok(s))) ==> r is Ok,
{
    let codes = match extract_course_codes(course_doc) {
        Ok(v) => v,
        Err(e) => { return Err(e) },
    };
    let n = codes.len();
    let mut result: Vec<Course> = Vec::new();
    proof {
        assert(result.deep_view() =~= Seq::<CourseM>::empty());
    }
    let mut i: usize = 0;
    while i < n
        invariant
            n == codes@.len(),
            i <= n,
            codes.deep_view() == selected_inner_htmls(course_doc@, ".course-id"@),
            courses_upto(codes.deep_view(), course_doc@, sections_doc@, i as int) == Ok::<
                Seq<CourseM>,
                FailureCtx,
            >(result.deep_view()),
        decreases n - i,
    {
        match course_info(codes[i].clone(), course_doc, sections_doc) {
            Ok(c) => {
                result.push(c);
                proof {
                    assert(result.deep_view() =~= courses_upto(
                        codes.deep_view(),
                        course_doc@,
                        sections_doc@,
                        i as int,
                    )->Ok_0.push(course_m(
                        codes.deep_view()[i as int],
                        course_doc@,
                        sections_doc@,
                    )->Ok_0));
                }
                i = i + 1;
            },
            Err(e) => {
                proof {
                    match e {
                        ScrapeError::SelectorRejected(ref sel) => {
                            assert(is_course_selector(codes.deep_view()[i as int], sel@));
                            assert(is_department_selector(course_doc@, sel@));
                        },
                        _ => {
                            lemma_courses_err(
                                codes.deep_view(),
                                course_doc@,
                                sections_doc@,
                                i + 1,
                                n as int,
                            );
                        },
                    }
                }
                return Err(e);
            },
        }
    }
    Ok(result)
}

} // verus!
