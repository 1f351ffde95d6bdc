//! Error taxonomy: term-input validation failures, primitive parse
//! failures, and markup-shape violations.  The pipeline never substitutes a
//! default for malformed data; every violation is surfaced with enough
//! context to diagnose an upstream markup change.

use vstd::prelude::*;

verus! {

/// Error caused by passing an invalid term identifier to the pipeline.
#[derive(Debug, PartialEq)]
pub enum TermError {
    /// The year portion parsed but lies outside the supported range.
    YearOutOfBounds(u16),
    /// The input is not six decimal digits.
    InvalidTermFormat(String),
    /// The month portion parsed but names no supported term month.
    InvalidMonth(u8),
}

/// Error raised while extracting course data from markup.
#[derive(Debug, PartialEq)]
pub enum ScrapeError {
    /// A combination of present and absent markup fields that the
    /// classification rules do not cover, or a required field that was
    /// absent where the source guarantees presence.  Carries the course
    /// code, the section code (empty when no section applies), and the
    /// offending fragment.
    MarkupAssumptionViolated(String, String, String),
    /// A day-pattern string outside the closed enumeration of known
    /// teaching patterns, carried verbatim.
    UnknownDayPattern(String),
    /// A time string that does not match the hour:minute pattern with an
    /// am/pm suffix, carried verbatim.
    MalformedTime(String),
    /// The HTML engine refused a CSS selector string, carried verbatim.
    /// Acceptance depends on the selector string alone; every function
    /// that reports this variant states that the carried selector is one
    /// it built and that the engine refuses it, so the error cannot occur
    /// once the built selectors are known to be accepted.
    SelectorRejected(String),
}

} // verus!
