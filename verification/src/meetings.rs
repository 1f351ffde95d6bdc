//! The meeting classifier: decides, for each meeting row of a section,
//! which class-meeting variant applies, and extracts the classtime and
//! location.  The decision order is fixed and every uncovered combination
//! of present and absent markup fields fails loudly.

use vstd::prelude::*;
use crate::chars::{chars_to_string, dec_digits, push_dec_digits, push_str_chars, str_eq,
    str_to_chars};
use crate::errors::ScrapeError;
use crate::html::{select_inners, selected_inner_htmls, selector_ok};
use crate::textparse::{capture_after, contains_in, contains_seq, extract_capture_after};
use crate::types::{ClassLocation, ClassMeeting, Classtime, InPersonClass, LocationM, MeetingM,
    day_pattern, time_from_chars};

verus! {

// ---------------------------------------------------------------------
// Selectors.

/// CSS selector for the meeting rows of the `nth` section of a course.
pub open spec fn rows_sel(course: Seq<char>, nth: int) -> Seq<char> {
    "#"@ + course + " .section:nth-child("@ + dec_digits(nth)
        + ") .class-days-container .row"@
}

/// CSS selector prefix addressing meeting row `d` of the `nth` section of
/// a course.
pub open spec fn row_prefix(course: Seq<char>, nth: int, d: int) -> Seq<char> {
    "#"@ + course + " .section:nth-child("@ + dec_digits(nth)
        + ") .class-days-container .row:nth-child("@ + dec_digits(d) + ")"@
}

/// CSS selector for the two kinds of descriptive message a row without
/// day or room markup may carry.
pub open spec fn message_sel(course: Seq<char>, nth: int, d: int) -> Seq<char> {
    row_prefix(course, nth, d) + " .class-message, "@ + row_prefix(course, nth, d)
        + " .no-scheduled-classes-message"@
}

/// The selector strings the classifier builds for meeting row `d` of the
/// `nth` section of a course.
pub open spec fn is_row_selector(course: Seq<char>, nth: int, d: int, s: Seq<char>) -> bool {
    ||| s == row_prefix(course, nth, d) + " .section-days"@
    ||| s == row_prefix(course, nth, d) + " .class-room"@
    ||| s == message_sel(course, nth, d)
    ||| s == row_prefix(course, nth, d) + " .class-start-time"@
    ||| s == row_prefix(course, nth, d) + " .class-end-time"@
    ||| s == row_prefix(course, nth, d) + " .class-building"@
}

/// The selector strings `get_class_meetings` builds for the `nth` section
/// of a course.
pub open spec fn is_meetings_selector(course: Seq<char>, nth: int, s: Seq<char>) -> bool {
    ||| s == rows_sel(course, nth)
    ||| exists|d: int| 1 <= d && #[trigger] is_row_selector(course, nth, d, s)
}

/// Builds the meeting-rows selector.
pub(crate) fn build_rows_sel(course: &str, nth: usize) -> (r: String)
    ensures
        r@ == rows_sel(course@, nth as int),
{
    let mut out: Vec<char> = Vec::new();
    push_str_chars(&mut out, "#");
    push_str_chars(&mut out, course);
    push_str_chars(&mut out, " .section:nth-child(");
    push_dec_digits(&mut out, nth);
    push_str_chars(&mut out, ") .class-days-container .row");
    proof {
        assert(out@ =~= rows_sel(course@, nth as int));
    }
    chars_to_string(&out)
}

/// Builds a per-row selector: the row prefix followed by `tail`.
pub(crate) fn build_row_sel(course: &str, nth: usize, d: usize, tail: &str) -> (r: String)
    ensures
        r@ == row_prefix(course@, nth as int, d as int) + tail@,
{
    let mut out: Vec<char> = Vec::new();
    push_str_chars(&mut out, "#");
    push_str_chars(&mut out, course);
    push_str_chars(&mut out, " .section:nth-child(");
    push_dec_digits(&mut out, nth);
    push_str_chars(&mut out, ") .class-days-container .row:nth-child(");
    push_dec_digits(&mut out, d);
    push_str_chars(&mut out, ")");
    push_str_chars(&mut out, tail);
    proof {
        assert(out@ =~= row_prefix(course@, nth as int, d as int) + tail@);
    }
    chars_to_string(&out)
}

/// Builds the descriptive-message selector.
fn build_message_sel(course: &str, nth: usize, d: usize) -> (r: String)
    ensures
        r@ == message_sel(course@, nth as int, d as int),
{
    let mut out: Vec<char> = Vec::new();
    push_str_chars(&mut out, "#");
    push_str_chars(&mut out, course);
    push_str_chars(&mut out, " .section:nth-child(");
    push_dec_digits(&mut out, nth);
    push_str_chars(&mut out, ") .class-days-container .row:nth-child(");
    push_dec_digits(&mut out, d);
    push_str_chars(&mut out, ")");
    push_str_chars(&mut out, " .class-message, ");
    push_str_chars(&mut out, "#");
    push_str_chars(&mut out, course);
    push_str_chars(&mut out, " .section:nth-child(");
    push_dec_digits(&mut out, nth);
    push_str_chars(&mut out, ") .class-days-container .row:nth-child(");
    push_dec_digits(&mut out, d);
    push_str_chars(&mut out, ")");
    push_str_chars(&mut out, " .no-scheduled-classes-message");
    proof {
        assert(out@ =~= message_sel(course@, nth as int, d as int));
    }
    chars_to_string(&out)
}

// ---------------------------------------------------------------------
// The decision table.

/// How a meeting row can fail to classify.
pub ghost enum RowFailure {
    /// A field combination outside the classification rules, with the
    /// offending fragment (or the selector of an absent required field).
    Violation(Seq<char>),
    /// A day-pattern string outside the closed enumeration.
    UnknownDays(Seq<char>),
    /// A malformed time string.
    BadTime(Seq<char>),
}

/// The error an exec function reports for a row failure: the matching
/// error variant, carrying the course and section context where the
/// violation needs it.
pub open spec fn row_failure_error(
    e: ScrapeError,
    f: RowFailure,
    course: Seq<char>,
    section: Seq<char>,
) -> bool {
    match f {
        RowFailure::Violation(frag) => e matches ScrapeError::MarkupAssumptionViolated(c, s, fr)
            && c@ == course && s@ == section && fr@ == frag,
        RowFailure::UnknownDays(t) => e matches ScrapeError::UnknownDayPattern(x) && x@ == t,
        RowFailure::BadTime(t) => e matches ScrapeError::MalformedTime(x) && x@ == t,
    }
}

/// The decision table for the room/building marker of a row that has day
/// markup.  The building-code and class-room sub-fields are independent
/// flags:
///
/// - building-code present and class-room present: an in-person meeting
///   whose building text must capture; a room text that does not capture
///   defaults to the `"????"` placeholder;
/// - building-code present, class-room absent: the marker must contain
///   `"TBA"`; the location is unknown;
/// - building-code absent: the marker must be the online marker; the
///   meeting is online-synchronous.
///
/// `None` is a markup-assumption violation.
pub open spec fn meeting_from_marker(marker: Seq<char>, classtime: Option<Classtime>) -> Option<
    MeetingM,
> {
    if contains_seq(marker, "building-code"@) {
        if contains_seq(marker, "class-room"@) {
            match capture_after(marker, "\"building-code\">"@) {
                None => None,
                Some(b) => {
                    let room = match capture_after(marker, "\"class-room\">"@) {
                        None => "????"@,
                        Some(rm) => rm,
                    };
                    Some(MeetingM::InPerson(classtime, Some(LocationM { building: b, room })))
                },
            }
        } else {
            if contains_seq(marker, "TBA"@) {
                Some(MeetingM::InPerson(classtime, None))
            } else {
                None
            }
        }
    } else {
        if contains_seq(marker, "ONLINE"@) {
            Some(MeetingM::OnlineSync(classtime))
        } else {
            None
        }
    }
}

/// Classifies the meeting of a row with day markup from its previously
/// extracted room/building marker fragment, per `meeting_from_marker`.
/// Exactly the uncovered marker shapes fail, with the course and section
/// context and the offending fragment.
pub fn get_meeting(
    class_building: &String,
    course: &String,
    section: &String,
    classtime: Option<Classtime>,
) -> (r: Result<ClassMeeting, ScrapeError>)
    ensures
        match r {
            Ok(m) => meeting_from_marker(class_building@, classtime) == Some(m@),
            Err(e) => meeting_from_marker(class_building@, classtime) is None && (e matches
                ScrapeError::MarkupAssumptionViolated(c, s, f) && c@ == course@ && s@
                == section@ && f@ == class_building@),
        },
{
    let cb = str_to_chars(class_building.as_str());
    let bc = str_to_chars("building-code");
    let cr = str_to_chars("class-room");
    let has_building = contains_in(&cb, &bc);
    let has_room = contains_in(&cb, &cr);
    if has_building {
        if has_room {
            match extract_capture_after(class_building.as_str(), "\"building-code\">") {
                None => Err(ScrapeError::MarkupAssumptionViolated(
                    course.clone(),
                    section.clone(),
                    class_building.clone(),
                )),
                Some(building) => {
                    let room = match extract_capture_after(
                        class_building.as_str(),
                        "\"class-room\">",
                    ) {
                        Some(rm) => rm,
                        None => String::from_str("????"),
                    };
                    Ok(ClassMeeting::InPerson(InPersonClass {
                        classtime,
                        location: Some(ClassLocation(building, room)),
                    }))
                },
            }
        } else {
            let tba = str_to_chars("TBA");
            if contains_in(&cb, &tba) {
                Ok(ClassMeeting::InPerson(InPersonClass { classtime, location: None }))
            } else {
                Err(ScrapeError::MarkupAssumptionViolated(
                    course.clone(),
                    section.clone(),
                    class_building.clone(),
                ))
            }
        }
    } else {
        let online = str_to_chars("ONLINE");
        if contains_in(&cb, &online) {
            Ok(ClassMeeting::OnlineSync(classtime))
        } else {
            Err(ScrapeError::MarkupAssumptionViolated(
                course.clone(),
                section.clone(),
                class_building.clone(),
            ))
        }
    }
}

/// The classtime of a row whose day markup reads `days`: absent when the
/// days are "TBA"; otherwise the days must name a known pattern and the
/// row must carry a well-formed start and end time.
pub open spec fn row_classtime(
    doc: Seq<char>,
    course: Seq<char>,
    nth: int,
    d: int,
    days: Seq<char>,
) -> Result<Option<Classtime>, RowFailure> {
    if days == "TBA"@ {
        Ok(None)
    } else {
        let starts = selected_inner_htmls(doc, row_prefix(course, nth, d) + " .class-start-time"@);
        let ends = selected_inner_htmls(doc, row_prefix(course, nth, d) + " .class-end-time"@);
        if starts.len() == 0 {
            Err(RowFailure::Violation(row_prefix(course, nth, d) + " .class-start-time"@))
        } else {
            match time_from_chars(starts[0]) {
                None => Err(RowFailure::BadTime(starts[0])),
                Some(st) => {
                    if ends.len() == 0 {
                        Err(RowFailure::Violation(row_prefix(course, nth, d)
                            + " .class-end-time"@))
                    } else {
                        match time_from_chars(ends[0]) {
                            None => Err(RowFailure::BadTime(ends[0])),
                            Some(et) => {
                                match day_pattern(days) {
                                    None => Err(RowFailure::UnknownDays(days)),
                                    Some(dp) => Ok(Some(Classtime {
                                        days: dp,
                                        start_time: st,
                                        end_time: et,
                                    })),
                                }
                            },
                        }
                    }
                },
            }
        }
    }
}

/// The classification of meeting row `d` of the `nth` section: a row with
/// day markup is classified from its classtime and marker; a row without
/// day markup is online-asynchronous when its room reads "ONLINE", and
/// unspecified when it has no room but carries a descriptive message.
pub open spec fn row_meeting(doc: Seq<char>, course: Seq<char>, nth: int, d: int) -> Result<
    MeetingM,
    RowFailure,
> {
    let days_l = selected_inner_htmls(doc, row_prefix(course, nth, d) + " .section-days"@);
    if days_l.len() == 0 {
        let rooms = selected_inner_htmls(doc, row_prefix(course, nth, d) + " .class-room"@);
        if rooms.len() > 0 {
            if rooms[0] == "ONLINE"@ {
                Ok(MeetingM::OnlineAsync)
            } else {
                Err(RowFailure::Violation(rooms[0]))
            }
        } else {
            let msgs = selected_inner_htmls(doc, message_sel(course, nth, d));
            if msgs.len() > 0 {
                Ok(MeetingM::Unspecified)
            } else {
                Err(RowFailure::Violation(message_sel(course, nth, d)))
            }
        }
    } else {
        match row_classtime(doc, course, nth, d, days_l[0]) {
            Err(f) => Err(f),
            Ok(ct) => {
                let markers = selected_inner_htmls(doc, row_prefix(course, nth, d)
                    + " .class-building"@);
                if markers.len() == 0 {
                    Err(RowFailure::Violation(row_prefix(course, nth, d) + " .class-building"@))
                } else {
                    match meeting_from_marker(markers[0], ct) {
                        None => Err(RowFailure::Violation(markers[0])),
                        Some(m) => Ok(m),
                    }
                }
            },
        }
    }
}

/// The meetings of rows 1 through `upto`, in order; the first failing row
/// aborts the whole section.
pub open spec fn rows_meetings(doc: Seq<char>, course: Seq<char>, nth: int, upto: int) -> Result<
    Seq<MeetingM>,
    RowFailure,
>
    decreases upto,
{
    if upto <= 0 {
        Ok(Seq::empty())
    } else {
        match rows_meetings(doc, course, nth, upto - 1) {
            Err(f) => Err(f),
            Ok(pre) => match row_meeting(doc, course, nth, upto) {
                Err(f) => Err(f),
                Ok(m) => Ok(pre.push(m)),
            },
        }
    }
}

/// The meetings of every row of the `nth` section, in document order.
pub open spec fn class_meetings_spec(doc: Seq<char>, course: Seq<char>, nth: int) -> Result<
    Seq<MeetingM>,
    RowFailure,
> {
    rows_meetings(doc, course, nth, selected_inner_htmls(doc, rows_sel(course, nth)).len() as int)
}

/// A failure among the first `j` rows persists to every larger prefix.
proof fn lemma_rows_meetings_err(doc: Seq<char>, course: Seq<char>, nth: int, j: int, upto: int)
    requires
        0 <= j <= upto,
        rows_meetings(doc, course, nth, j) is Err,
    ensures
        rows_meetings(doc, course, nth, upto) == rows_meetings(doc, course, nth, j),
    decreases upto - j,
{
    if j < upto {
        lemma_rows_meetings_err(doc, course, nth, j, upto - 1);
    }
}

/// Classifies one meeting row.  Succeeds with the row's meeting exactly
/// when the decision table covers the row; a selector-rejection error
/// carries one of this row's own selectors that the engine refuses.
fn classify_row(
    document: &str,
    course: &String,
    section: &String,
    nth: usize,
    d: usize,
) -> (r: Result<ClassMeeting, ScrapeError>)
    ensures
        match r {
            Ok(m) => row_meeting(document@, course@, nth as int, d as int) == Ok::<
                MeetingM,
                RowFailure,
            >(m@),
            Err(e) => (e matches ScrapeError::SelectorRejected(sel) && !selector_ok(sel@)
                && is_row_selector(course@, nth as int, d as int, sel@)) || (row_meeting(
                document@,
                course@,
                nth as int,
                d as int,
            ) matches Err(f) && row_failure_error(e, f, course@, section@)),
        },
        (row_meeting(document@, course@, nth as int, d as int) is Ok && (forall|s: Seq<char>|
            is_row_selector(course@, nth as int, d as int, s) ==> #[trigger] selector_ok(s)))
            ==> r is Ok,
{
    let days_sel_s = build_row_sel(course.as_str(), nth, d, " .section-days");
    let days_l = match select_inners(document, days_sel_s.as_str()) {
        Some(v) => v,
        None => { return Err(ScrapeError::SelectorRejected(days_sel_s)) },
    };
    if days_l.len() == 0 {
        let room_sel_s = build_row_sel(course.as_str(), nth, d, " .class-room");
        let rooms = match select_inners(document, room_sel_s.as_str()) {
            Some(v) => v,
            None => { return Err(ScrapeError::SelectorRejected(room_sel_s)) },
        };
        if rooms.len() > 0 {
            if str_eq(rooms[0].as_str(), "ONLINE") {
                Ok(ClassMeeting::OnlineAsync)
            } else {
                Err(ScrapeError::MarkupAssumptionViolated(
                    course.clone(),
                    section.clone(),
                    rooms[0].clone(),
                ))
            }
        } else {
            let msg_sel_s = build_message_sel(course.as_str(), nth, d);
            let msgs = match select_inners(document, msg_sel_s.as_str()) {
                Some(v) => v,
                None => { return Err(ScrapeError::SelectorRejected(msg_sel_s)) },
            };
            if msgs.len() > 0 {
                Ok(ClassMeeting::Unspecified)
            } else {
                Err(ScrapeError::MarkupAssumptionViolated(
                    course.clone(),
                    section.clone(),
                    msg_sel_s,
                ))
            }
        }
    } else {
        let days: &String = &days_l[0];
        let classtime: Option<Classtime>;
        if str_eq(days.as_str(), "TBA") {
            classtime = None;
        } else {
            let start_sel_s = build_row_sel(course.as_str(), nth, d, " .class-start-time");
            let starts = match select_inners(document, start_sel_s.as_str()) {
                Some(v) => v,
                None => { return Err(ScrapeError::SelectorRejected(start_sel_s)) },
            };
            if starts.len() == 0 {
                return Err(ScrapeError::MarkupAssumptionViolated(
                    course.clone(),
                    section.clone(),
                    start_sel_s,
                ));
            }
            let st = match crate::types::Time::from_string(starts[0].as_str()) {
                Ok(t) => t,
                Err(e) => { return Err(e) },
            };
            let end_sel_s = build_row_sel(course.as_str(), nth, d, " .class-end-time");
            let ends = match select_inners(document, end_sel_s.as_str()) {
                Some(v) => v,
                None => { return Err(ScrapeError::SelectorRejected(end_sel_s)) },
            };
            if ends.len() == 0 {
                return Err(ScrapeError::MarkupAssumptionViolated(
                    course.clone(),
                    section.clone(),
                    end_sel_s,
                ));
            }
            let et = match crate::types::Time::from_string(ends[0].as_str()) {
                Ok(t) => t,
                Err(e) => { return Err(e) },
            };
            let dp = match crate::types::parse_day_pattern(days.as_str()) {
                Ok(p) => p,
                Err(e) => { return Err(e) },
            };
            classtime = Some(Classtime { days: dp, start_time: st, end_time: et });
        }
        let building_sel_s = build_row_sel(course.as_str(), nth, d, " .class-building");
        let markers = match select_inners(document, building_sel_s.as_str()) {
            Some(v) => v,
            None => { return Err(ScrapeError::SelectorRejected(building_sel_s)) },
        };
        if markers.len() == 0 {
            return Err(ScrapeError::MarkupAssumptionViolated(
                course.clone(),
                section.clone(),
                building_sel_s,
            ));
        }
        get_meeting(&markers[0], course, section, classtime)
    }
}

/// Collects the class meetings of the `nth` section of a course from the
/// sections document, one classification per meeting row, in document
/// order.  The first failing row aborts.  Succeeds exactly when every row
/// classifies; a selector-rejection error carries one of this function's
/// own selectors that the engine refuses, so once those are known to be
/// accepted, success is owed whenever the rows classify.
pub fn get_class_meetings(
    document: &str,
    course: &String,
    section: &String,
    nth_child: usize,
) -> (r: Result<Vec<ClassMeeting>, ScrapeError>)
    ensures
        match r {
            Ok(v) => class_meetings_spec(document@, course@, nth_child as int) == Ok::<
                Seq<MeetingM>,
                RowFailure,
            >(v.deep_view()),
            Err(e) => (e matches ScrapeError::SelectorRejected(sel) && !selector_ok(sel@)
                && is_meetings_selector(course@, nth_child as int, sel@)) || (
            class_meetings_spec(
                document@,
                course@,
                nth_child as int,
            ) matches Err(f) && row_failure_error(e, f, course@, section@)),
        },
        (class_meetings_spec(document@, course@, nth_child as int) is Ok && (forall|
            s: Seq<char>,
        |
            is_meetings_selector(course@, nth_child as int, s) ==> #[trigger] selector_ok(s)))
            ==> r is Ok,
{
    let rows_sel_s = build_rows_sel(course.as_str(), nth_child);
    let rows = match select_inners(document, rows_sel_s.as_str()) {
        Some(v) => v,
        None => { return Err(ScrapeError::SelectorRejected(rows_sel_s)) },
    };
    let n_rows = rows.len();
    proof {
        assert(n_rows == selected_inner_htmls(document@, rows_sel(course@, nth_child as int))
            .len());
    }
    let mut result: Vec<ClassMeeting> = Vec::new();
    proof {
        assert(result.deep_view() =~= Seq::<MeetingM>::empty());
    }
    let mut d: usize = 0;
    while d < n_rows
        invariant
            n_rows == selected_inner_htmls(document@, rows_sel(course@, nth_child as int)).len(),
            d <= n_rows,
            rows_meetings(document@, course@, nth_child as int, d as int) == Ok::<
                Seq<MeetingM>,
                RowFailure,
            >(result.deep_view()),
        decreases n_rows - d,
    {
        match classify_row(document, course, section, nth_child, d + 1) {
            Ok(m) => {
                result.push(m);
                proof {
                    assert(result.deep_view() =~= rows_meetings(
                        document@,
                        course@,
                        nth_child as int,
                        d as int,
                    )->Ok_0.push(m@));
                }
                d = d + 1;
            },
            Err(e) => {
                proof {
                    match e {
                        ScrapeError::SelectorRejected(ref sel) => {
                            assert(is_row_selector(course@, nth_child as int, d + 1, sel@));
                            assert(is_meetings_selector(course@, nth_child as int, sel@));
                        },
                        _ => {
                            lemma_rows_meetings_err(
                                document@,
                                course@,
                                nth_child as int,
                                d + 1,
                                n_rows as int,
                            );
                        },
                    }
                }
                return Err(e);
            },
        }
    }
    Ok(result)
}

} // verus!
