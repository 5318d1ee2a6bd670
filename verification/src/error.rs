//! Why a report line was refused.

use vstd::prelude::*;
use vstd::string::StringExecFns;

verus! {

/// What is wrong with a malformed report line.
#[derive(Clone, Copy, Debug, PartialEq, Eq, Structural)]
pub enum Malformation {
    /// The line does not have the layout of a report.
    Format,
    /// A coordinate or a magnitude is not a decimal number.
    Number,
    /// The time of the report is not a date and time of day.
    Timestamp,
}

/// Why a report line gave no event.
#[derive(Clone, Debug, PartialEq, Eq)]
pub enum ReportError {
    /// The hazard code, carried here, is none of the catalog's.
    UnknownHazardCode(String),
    /// The line is malformed.
    MalformedReport(Malformation),
}

/// A `ReportError` with its text as a sequence of characters.
pub enum ReportErrorView {
    UnknownHazardCode(Seq<char>),
    MalformedReport(Malformation),
}

impl View for ReportError {
    type V = ReportErrorView;

    open spec fn view(&self) -> ReportErrorView {
        match *self {
            ReportError::UnknownHazardCode(code) => ReportErrorView::UnknownHazardCode(code@),
            ReportError::MalformedReport(what) => ReportErrorView::MalformedReport(what),
        }
    }
}

impl Malformation {
    /// The diagnostic for this malformation.
    pub open spec fn reason(self) -> Seq<char> {
        match self {
            Malformation::Format => "invalid report format"@,
            Malformation::Number => "invalid number"@,
            Malformation::Timestamp => "invalid timestamp"@,
        }
    }
}

impl ReportErrorView {
    /// The diagnostic for this error.
    pub open spec fn reason(self) -> Seq<char> {
        match self {
            ReportErrorView::UnknownHazardCode(code) => "unknown code: "@ + code,
            ReportErrorView::MalformedReport(what) => what.reason(),
        }
    }
}

impl ReportError {
    /// The diagnostic for this error, for a log.
    pub fn to_string(&self) -> (reason: String)
        ensures
            reason@ == self@.reason(),
    {
        match self {
            ReportError::UnknownHazardCode(code) => {
                let mut reason = "unknown code: ".to_owned();
                reason.append(code.as_str());
                reason
            },
            ReportError::MalformedReport(Malformation::Format) => "invalid report format".to_owned(),
            ReportError::MalformedReport(Malformation::Number) => "invalid number".to_owned(),
            ReportError::MalformedReport(Malformation::Timestamp) => "invalid timestamp".to_owned(),
        }
    }
}

} // verus!
