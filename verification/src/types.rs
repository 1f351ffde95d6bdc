//! The data model: departments, courses, sections, class meetings,
//! instructors.  All records are immutable values built once during an
//! extraction pass.  Each type that carries text also has a ghost model
//! over `Seq<char>` so that contracts can speak of its contents directly.

use vstd::prelude::*;
use crate::chars::{digit_run_end, digits_val, str_eq, str_to_chars, vec_digits_value};
use crate::errors::ScrapeError;

verus! {

/// A department: a four-letter course prefix together with every course
/// listed under it, in document order.
#[derive(Debug, PartialEq)]
pub struct Department {
    pub name: String,
    pub courses: Vec<Course>,
}

/// One course of the catalog.
///
/// - `code`: the prefix-plus-number course code;
/// - `name`: the course title, distinct from the code;
/// - `credits`: a fixed amount or a range;
/// - `gen_eds`: general-education tags, absent when the course fulfills
///   none (never an empty present list);
/// - `conditions`: prerequisite and condition text blocks with markup
///   stripped, absent when the course lists none;
/// - `description`: plain descriptive text, possibly empty;
/// - `sections`: the course's sections, absent when the course lists no
///   sections at all (a documented occurrence, not an error).
#[derive(Debug, PartialEq)]
pub struct Course {
    pub code: String,
    pub name: String,
    pub credits: CreditCount,
    pub gen_eds: Option<Vec<String>>,
    pub conditions: Option<Vec<String>>,
    pub description: String,
    pub sections: Option<Vec<Section>>,
}

/// How many credits a course is worth: a fixed amount, or an inclusive
/// range when the source exposes both a minimum and a maximum.
#[derive(Debug, Clone, Copy, PartialEq, Eq, Structural)]
pub enum CreditCount {
    Amount(u8),
    Range(u8, u8),
}

/// A section of a course: its alphanumeric code, its instructors in
/// document order, and every class meeting it holds.
#[derive(Debug, PartialEq)]
pub struct Section {
    pub sec_code: String,
    pub instructors: Vec<String>,
    pub class_meetings: Vec<ClassMeeting>,
}

/// One scheduled occurrence of a class.  Exactly one variant applies to
/// each meeting row:
///
/// - `Unspecified`: no day or time markup and no online marker, only a
///   descriptive message;
/// - `OnlineAsync`: an explicit online room marker with no day or time
///   markup;
/// - `OnlineSync`: day markup present but the room marker indicates
///   online delivery; the classtime is absent when the days read "TBA";
/// - `InPerson`: day markup present with a building marker.
#[derive(Debug, PartialEq)]
pub enum ClassMeeting {
    Unspecified,
    OnlineAsync,
    OnlineSync(Option<Classtime>),
    InPerson(InPersonClass),
}

/// The classtime and location of an in-person meeting; either may be
/// absent when the source marks it "TBA".
#[derive(Debug, PartialEq)]
pub struct InPersonClass {
    pub classtime: Option<Classtime>,
    pub location: Option<ClassLocation>,
}

/// The days and times of a class meeting.
#[derive(Debug, Clone, Copy, PartialEq, Eq, Structural)]
pub struct Classtime {
    pub days: ClassDays,
    pub start_time: Time,
    pub end_time: Time,
}

/// The closed enumeration of weekday combinations on which classes are
/// taught.  A day-pattern string outside this enumeration is a hard parse
/// failure, never a silent default.
#[allow(clippy::upper_case_acronyms)]
#[derive(Debug, Clone, Copy, PartialEq, Eq, Structural)]
pub enum ClassDays {
    M,
    Tu,
    W,
    Th,
    F,
    MWF,
    MW,
    WF,
    TuTh,
    MTuWThF,
    MF,
    Sa,
    Su,
    SaSu,
    MTu,
    MTuThF,
    MTuWTh,
    TuF,
    TuWTh,
    WTh,
    MWTh,
    MTh,
}

/// Marks a twelve-hour wall-clock time as before or after noon.
#[derive(Debug, Clone, Copy, PartialEq, Eq, Structural)]
pub enum AmPm {
    Am,
    Pm,
}

/// An hour, minute and am/pm marker, kept in the twelve-hour form the
/// source exposes.
#[derive(Debug, Clone, Copy, PartialEq, Eq, Structural)]
pub struct Time(pub u8, pub u8, pub AmPm);

/// The location of an in-person meeting: building code and room
/// identifier.  The room may be a placeholder when the source marks the
/// building as known but the room unknown.
#[derive(Debug, PartialEq)]
pub struct ClassLocation(pub String, pub String);

/// A raw instructor record as the review-site API returns it: name, slug,
/// role, course list, and an optional average rating.  The rating is kept
/// as the decimal token the API sent, undecoded.
#[derive(Debug, PartialEq)]
pub struct PlanetTerpProfessor {
    pub name: String,
    pub slug: String,
    pub role: String,
    pub courses: Vec<String>,
    pub average_rating: Option<String>,
}

/// The minimal instructor record retained by the system: name, slug and
/// optional average rating.  Role and course list are deliberately
/// discarded.
#[derive(Debug, PartialEq)]
pub struct Professor {
    pub name: String,
    pub slug: String,
    pub average_rating: Option<String>,
}

// ---------------------------------------------------------------------
// Ghost models.

/// Model of a class location: its two text fields.
pub ghost struct LocationM {
    pub building: Seq<char>,
    pub room: Seq<char>,
}

/// Model of a class meeting.
pub ghost enum MeetingM {
    Unspecified,
    OnlineAsync,
    OnlineSync(Option<Classtime>),
    InPerson(Option<Classtime>, Option<LocationM>),
}

/// Model of a section.
pub ghost struct SectionM {
    pub sec_code: Seq<char>,
    pub instructors: Seq<Seq<char>>,
    pub class_meetings: Seq<MeetingM>,
}

/// Model of a course.
pub ghost struct CourseM {
    pub code: Seq<char>,
    pub name: Seq<char>,
    pub credits: CreditCount,
    pub gen_eds: Option<Seq<Seq<char>>>,
    pub conditions: Option<Seq<Seq<char>>>,
    pub description: Seq<char>,
    pub sections: Option<Seq<SectionM>>,
}

/// Model of a department.
pub ghost struct DepartmentM {
    pub name: Seq<char>,
    pub courses: Seq<CourseM>,
}

/// Model of a minimal instructor record.
pub ghost struct ProfessorM {
    pub name: Seq<char>,
    pub slug: Seq<char>,
    pub average_rating: Option<Seq<char>>,
}

/// Model of a raw instructor record.
pub ghost struct RawProfessorM {
    pub name: Seq<char>,
    pub slug: Seq<char>,
    pub role: Seq<char>,
    pub courses: Seq<Seq<char>>,
    pub average_rating: Option<Seq<char>>,
}

impl View for ClassLocation {
    type V = LocationM;

    open spec fn view(&self) -> LocationM {
        LocationM { building: self.0@, room: self.1@ }
    }
}

impl DeepView for ClassLocation {
    type V = LocationM;

    open spec fn deep_view(&self) -> LocationM {
        self.view()
    }
}

impl DeepView for ClassMeeting {
    type V = MeetingM;

    open spec fn deep_view(&self) -> MeetingM {
        self.view()
    }
}

impl View for ClassMeeting {
    type V = MeetingM;

    open spec fn view(&self) -> MeetingM {
        match self {
            ClassMeeting::Unspecified => MeetingM::Unspecified,
            ClassMeeting::OnlineAsync => MeetingM::OnlineAsync,
            ClassMeeting::OnlineSync(ct) => MeetingM::OnlineSync(*ct),
            ClassMeeting::InPerson(ipc) => MeetingM::InPerson(
                ipc.classtime,
                match ipc.location {
                    Some(loc) => Some(loc@),
                    None => None,
                },
            ),
        }
    }
}

impl View for Section {
    type V = SectionM;

    open spec fn view(&self) -> SectionM {
        SectionM {
            sec_code: self.sec_code@,
            instructors: self.instructors.deep_view(),
            class_meetings: self.class_meetings.deep_view(),
        }
    }
}

impl DeepView for Section {
    type V = SectionM;

    open spec fn deep_view(&self) -> SectionM {
        self.view()
    }
}

impl View for Course {
    type V = CourseM;

    open spec fn view(&self) -> CourseM {
        CourseM {
            code: self.code@,
            name: self.name@,
            credits: self.credits,
            gen_eds: match self.gen_eds {
                Some(ref v) => Some(v.deep_view()),
                None => None,
            },
            conditions: match self.conditions {
                Some(ref v) => Some(v.deep_view()),
                None => None,
            },
            description: self.description@,
            sections: match self.sections {
                Some(ref v) => Some(v.deep_view()),
                None => None,
            },
        }
    }
}

impl DeepView for Course {
    type V = CourseM;

    open spec fn deep_view(&self) -> CourseM {
        self.view()
    }
}

impl View for Department {
    type V = DepartmentM;

    open spec fn view(&self) -> DepartmentM {
        DepartmentM {
            name: self.name@,
            courses: self.courses.deep_view(),
        }
    }
}

impl DeepView for Professor {
    type V = ProfessorM;

    open spec fn deep_view(&self) -> ProfessorM {
        self.view()
    }
}

impl View for Professor {
    type V = ProfessorM;

    open spec fn view(&self) -> ProfessorM {
        ProfessorM {
            name: self.name@,
            slug: self.slug@,
            average_rating: match self.average_rating {
                Some(ref r) => Some(r@),
                None => None,
            },
        }
    }
}

impl DeepView for PlanetTerpProfessor {
    type V = RawProfessorM;

    open spec fn deep_view(&self) -> RawProfessorM {
        self.view()
    }
}

impl View for PlanetTerpProfessor {
    type V = RawProfessorM;

    open spec fn view(&self) -> RawProfessorM {
        RawProfessorM {
            name: self.name@,
            slug: self.slug@,
            role: self.role@,
            courses: self.courses.deep_view(),
            average_rating: match self.average_rating {
                Some(ref r) => Some(r@),
                None => None,
            },
        }
    }
}

// ---------------------------------------------------------------------
// Day patterns.

/// The day pattern named by a string, if the string is one of the known
/// teaching patterns.
pub open spec fn day_pattern(s: Seq<char>) -> Option<ClassDays> {
    if s == "M"@ { Some(ClassDays::M) }
    else if s == "Tu"@ { Some(ClassDays::Tu) }
    else if s == "W"@ { Some(ClassDays::W) }
    else if s == "Th"@ { Some(ClassDays::Th) }
    else if s == "F"@ { Some(ClassDays::F) }
    else if s == "MWF"@ { Some(ClassDays::MWF) }
    else if s == "MW"@ { Some(ClassDays::MW) }
    else if s == "WF"@ { Some(ClassDays::WF) }
    else if s == "TuTh"@ { Some(ClassDays::TuTh) }
    else if s == "MTuWThF"@ { Some(ClassDays::MTuWThF) }
    else if s == "MF"@ { Some(ClassDays::MF) }
    else if s == "Sa"@ { Some(ClassDays::Sa) }
    else if s == "Su"@ { Some(ClassDays::Su) }
    else if s == "SaSu"@ { Some(ClassDays::SaSu) }
    else if s == "MTu"@ { Some(ClassDays::MTu) }
    else if s == "MTuThF"@ { Some(ClassDays::MTuThF) }
    else if s == "MTuWTh"@ { Some(ClassDays::MTuWTh) }
    else if s == "TuF"@ { Some(ClassDays::TuF) }
    else if s == "TuWTh"@ { Some(ClassDays::TuWTh) }
    else if s == "WTh"@ { Some(ClassDays::WTh) }
    else if s == "MWTh"@ { Some(ClassDays::MWTh) }
    else if s == "MTh"@ { Some(ClassDays::MTh) }
    else { None }
}

/// Looks a day-pattern string up in the closed enumeration.  Exactly the
/// known patterns succeed; anything else is an `UnknownDayPattern` error
/// carrying the string.
pub fn parse_day_pattern(days: &str) -> (r: Result<ClassDays, ScrapeError>)
    ensures
        match r {
            Ok(d) => day_pattern(days@) == Some(d),
            Err(e) => day_pattern(days@) is None && (e matches
                ScrapeError::UnknownDayPattern(t) && t@ == days@),
        },
{
    if str_eq(days, "M") { Ok(ClassDays::M) }
    else if str_eq(days, "Tu") { Ok(ClassDays::Tu) }
    else if str_eq(days, "W") { Ok(ClassDays::W) }
    else if str_eq(days, "Th") { Ok(ClassDays::Th) }
    else if str_eq(days, "F") { Ok(ClassDays::F) }
    else if str_eq(days, "MWF") { Ok(ClassDays::MWF) }
    else if str_eq(days, "MW") { Ok(ClassDays::MW) }
    else if str_eq(days, "WF") { Ok(ClassDays::WF) }
    else if str_eq(days, "TuTh") { Ok(ClassDays::TuTh) }
    else if str_eq(days, "MTuWThF") { Ok(ClassDays::MTuWThF) }
    else if str_eq(days, "MF") { Ok(ClassDays::MF) }
    else if str_eq(days, "Sa") { Ok(ClassDays::Sa) }
    else if str_eq(days, "Su") { Ok(ClassDays::Su) }
    else if str_eq(days, "SaSu") { Ok(ClassDays::SaSu) }
    else if str_eq(days, "MTu") { Ok(ClassDays::MTu) }
    else if str_eq(days, "MTuThF") { Ok(ClassDays::MTuThF) }
    else if str_eq(days, "MTuWTh") { Ok(ClassDays::MTuWTh) }
    else if str_eq(days, "TuF") { Ok(ClassDays::TuF) }
    else if str_eq(days, "TuWTh") { Ok(ClassDays::TuWTh) }
    else if str_eq(days, "WTh") { Ok(ClassDays::WTh) }
    else if str_eq(days, "MWTh") { Ok(ClassDays::MWTh) }
    else if str_eq(days, "MTh") { Ok(ClassDays::MTh) }
    else { Err(ScrapeError::UnknownDayPattern(days.to_owned())) }
}

impl Classtime {
    /// Builds a `Classtime` from a day-pattern string that must name a
    /// known teaching pattern, and the start and end times.
    pub fn new(days: String, start_time: Time, end_time: Time) -> (r: Self)
        requires
            day_pattern(days@) is Some,
        ensures
            r == (Classtime { days: day_pattern(days@)->Some_0, start_time, end_time }),
    {
        let d = match parse_day_pattern(days.as_str()) {
            Ok(d) => d,
            Err(_) => {
                proof {
                    assert(false);
                }
                ClassDays::M
            },
        };
        Classtime { days: d, start_time, end_time }
    }
}

// ---------------------------------------------------------------------
// Times.

/// A time reading occurs in `s` at position `p`: a nonempty digit run,
/// a colon, a nonempty digit run, and an `am` or `pm` marker.  The digit
/// runs are read maximally; whatever follows the marker is ignored.
pub open spec fn time_match_at(s: Seq<char>, p: int) -> bool {
    let e1 = digit_run_end(s, p);
    let e2 = digit_run_end(s, e1 + 1);
    &&& 0 <= p < s.len()
    &&& e1 > p
    &&& e1 < s.len() && s[e1] == ':'
    &&& e2 > e1 + 1
    &&& e2 + 2 <= s.len()
    &&& (s[e2] == 'a' || s[e2] == 'p')
    &&& s[e2 + 1] == 'm'
}

/// The first position at or after `from` holding a time reading.
pub open spec fn first_time_match(s: Seq<char>, from: int) -> Option<int>
    decreases s.len() - from,
{
    if from < 0 || from >= s.len() {
        None
    } else if time_match_at(s, from) {
        Some(from)
    } else {
        first_time_match(s, from + 1)
    }
}

/// What `first_time_match` returns: the leftmost time reading.
pub proof fn lemma_first_time_match(s: Seq<char>, from: int)
    requires
        0 <= from <= s.len(),
    ensures
        first_time_match(s, from) matches Some(p) ==> from <= p < s.len() && time_match_at(s, p),
    decreases s.len() - from,
{
    if from < s.len() && !time_match_at(s, from) {
        lemma_first_time_match(s, from + 1);
    }
}

/// The parse of a time string: the leftmost time reading embedded in the
/// string, as the source's search-style pattern finds it.  The hour and
/// minute captures of that reading must each encode a value below 256;
/// a string with no time reading, or whose leftmost reading overflows,
/// fails to parse.
pub open spec fn time_from_chars(s: Seq<char>) -> Option<Time> {
    match first_time_match(s, 0) {
        None => None,
        Some(p) => {
            let e1 = digit_run_end(s, p);
            let e2 = digit_run_end(s, e1 + 1);
            let hv = digits_val(s.subrange(p, e1));
            let mv = digits_val(s.subrange(e1 + 1, e2));
            if hv > 255 || mv > 255 {
                None
            } else if s[e2] == 'a' {
                Some(Time(hv as u8, mv as u8, AmPm::Am))
            } else {
                Some(Time(hv as u8, mv as u8, AmPm::Pm))
            }
        },
    }
}

/// Checks for a time reading at position `p` of `cs`.
fn time_match_at_exec(cs: &Vec<char>, p: usize) -> (r: bool)
    requires
        p < cs@.len(),
    ensures
        r == time_match_at(cs@, p as int),
{
    let e1 = crate::chars::scan_digits(cs, p);
    if e1 == p {
        return false;
    }
    if e1 >= cs.len() || cs[e1] != ':' {
        return false;
    }
    let e2 = crate::chars::scan_digits(cs, e1 + 1);
    if e2 - e1 < 2 {
        return false;
    }
    if cs.len() - e2 < 2 {
        return false;
    }
    let c = cs[e2];
    (c == 'a' || c == 'p') && cs[e2 + 1] == 'm'
}

/// Finds the leftmost time reading of `cs` at or after `from`.
fn find_time_match(cs: &Vec<char>, from: usize) -> (r: Option<usize>)
    requires
        from <= cs@.len(),
    ensures
        match r {
            Some(p) => first_time_match(cs@, from as int) == Some(p as int),
            None => first_time_match(cs@, from as int) is None,
        },
    decreases cs@.len() - from,
{
    if from >= cs.len() {
        None
    } else if time_match_at_exec(cs, from) {
        Some(from)
    } else {
        find_time_match(cs, from + 1)
    }
}

impl Time {
    /// Parses the leftmost time reading embedded in a string, such as a
    /// twelve-hour clock reading with an am/pm suffix.  Exactly the
    /// strings that `time_from_chars` accepts succeed; anything else is a
    /// `MalformedTime` error carrying the string.
    pub fn from_string(string: &str) -> (r: Result<Self, ScrapeError>)
        ensures
            match r {
                Ok(t) => time_from_chars(string@) == Some(t),
                Err(e) => time_from_chars(string@) is None && (e matches
                    ScrapeError::MalformedTime(t) && t@ == string@),
            },
    {
        let cs: Vec<char> = str_to_chars(string);
        let p = match find_time_match(&cs, 0) {
            Some(p) => p,
            None => { return Err(ScrapeError::MalformedTime(string.to_owned())) },
        };
        proof {
            lemma_first_time_match(cs@, 0);
        }
        let e1 = crate::chars::scan_digits(&cs, p);
        proof {
            crate::chars::lemma_digit_run_end(cs@, p as int);
            crate::chars::lemma_digit_run_end(cs@, e1 + 1);
        }
        let e2 = crate::chars::scan_digits(&cs, e1 + 1);
        let hv = match vec_digits_value(&cs, p, e1) {
            Some(v) => v,
            None => { return Err(ScrapeError::MalformedTime(string.to_owned())) },
        };
        let mv = match vec_digits_value(&cs, e1 + 1, e2) {
            Some(v) => v,
            None => { return Err(ScrapeError::MalformedTime(string.to_owned())) },
        };
        if cs[e2] == 'a' {
            Ok(Time(hv, mv, AmPm::Am))
        } else {
            Ok(Time(hv, mv, AmPm::Pm))
        }
    }
}

// ---------------------------------------------------------------------
// Credits.

/// Classifies a course's credits.  The presence of a maximum is the sole
/// signal that the credits form a range rather than a fixed amount.
pub fn classify_credits(min_credits: u8, max_credits: Option<u8>) -> (r: CreditCount)
    ensures
        r == match max_credits {
            None => CreditCount::Amount(min_credits),
            Some(max) => CreditCount::Range(min_credits, max),
        },
{
    match max_credits {
        None => CreditCount::Amount(min_credits),
        Some(max) => CreditCount::Range(min_credits, max),
    }
}

// ---------------------------------------------------------------------
// Instructors.

impl PlanetTerpProfessor {
    /// Reduces a raw instructor record to the minimal fields retained by
    /// the system, discarding role and course list.
    pub fn minimize(self) -> (r: Professor)
        ensures
            r@.name == self@.name,
            r@.slug == self@.slug,
            r@.average_rating == self@.average_rating,
    {
        Professor {
            name: self.name,
            slug: self.slug,
            average_rating: self.average_rating,
        }
    }
}

} // verus!
