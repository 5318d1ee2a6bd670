//! From one report line to an event record.

use crate::decimal::{decimal, lemma_decimal_fits, parse_decimal};
use crate::domain::{
    Coordinates, Event, EventType, EventView, Hazard, Report, ReportView, Units,
};
use crate::error::{Malformation, ReportError, ReportErrorView};
use crate::pattern::{captures, compile, compiled_from, pattern_captures, regex_accepts};
use crate::timestamp::{micros_of, parse_utc_seconds, to_micros, utc_seconds};
use regex::Regex;
use vstd::prelude::*;
use vstd::string::StringExecFns;

verus! {

/// The layout of a report line, with a group for each field that is read.
pub const REPORT_PATTERN: &'static str =
    r"Icon: (?P<lat>\d{2}\.\d{6}),(?P<lon>-\d{2,3}\.\d{6}),000,\d,(?P<hazard_code>\d{1,2}),.Reported By: (?P<reporter>.+)\\n.+\\nTime: (?P<ts>.+) UTC(?:\\nSize: (?P<size>\d{1,2}\.\d{2}).+?)*(?:\\n(?P<mph>\d{1,3}) mph)*(?P<measured> \[Measured\])*.+otes: (?P<notes>.+).$";

/// How the time of a report is written.
pub const TIMESTAMP_FORMAT: &'static str = "%Y-%m-%d %H:%M:%S";

/// The fraction digits that a coordinate keeps.
pub const COORDINATE_SCALE: usize = 6;

/// The fraction digits that a magnitude keeps.
pub const MAGNITUDE_SCALE: usize = 2;

/// The groups of the report pattern, the whole match included.
pub const GROUP_COUNT: usize = 10;

/// The fields of a report line, as the report pattern captures them.
#[derive(Clone, Debug, PartialEq, Eq)]
pub struct ReportFields {
    pub lat: String,
    pub lon: String,
    pub hazard_code: String,
    pub reporter: String,
    pub timestamp: String,
    pub size: Option<String>,
    pub mph: Option<String>,
    pub measured: bool,
    pub notes: String,
}

/// `ReportFields` with its texts as sequences of characters.
pub struct ReportFieldsView {
    pub lat: Seq<char>,
    pub lon: Seq<char>,
    pub hazard_code: Seq<char>,
    pub reporter: Seq<char>,
    pub timestamp: Seq<char>,
    pub size: Option<Seq<char>>,
    pub mph: Option<Seq<char>>,
    pub measured: bool,
    pub notes: Seq<char>,
}

impl View for ReportFields {
    type V = ReportFieldsView;

    open spec fn view(&self) -> ReportFieldsView {
        ReportFieldsView {
            lat: self.lat@,
            lon: self.lon@,
            hazard_code: self.hazard_code@,
            reporter: self.reporter@,
            timestamp: self.timestamp@,
            size: match self.size {
                Some(size) => Some(size@),
                None => None,
            },
            mph: match self.mph {
                Some(mph) => Some(mph@),
                None => None,
            },
            measured: self.measured,
            notes: self.notes@,
        }
    }
}

/// The fields that the groups of a match hold: latitude, longitude, hazard code,
/// reporter, time, size, speed, the mark of a measurement and the notes, in this order
/// behind the whole match. `None` where a group is missing that every report has.
pub open spec fn fields_of(groups: Seq<Option<Seq<char>>>) -> Option<ReportFieldsView> {
    if groups.len() == GROUP_COUNT && groups[1] is Some && groups[2] is Some && groups[3] is Some
        && groups[4] is Some && groups[5] is Some && groups[9] is Some {
        Some(
            ReportFieldsView {
                lat: groups[1]->0,
                lon: groups[2]->0,
                hazard_code: groups[3]->0,
                reporter: groups[4]->0,
                timestamp: groups[5]->0,
                size: groups[6],
                mph: groups[7],
                measured: groups[8] is Some,
                notes: groups[9]->0,
            },
        )
    } else {
        None
    }
}

/// The notes of a report that has none.
pub open spec fn no_notes() -> Seq<char> {
    "None"@
}

/// Whether a report is dropped for saying nothing: another hazard, without notes.
pub open spec fn is_suppressed(hazard: Hazard, notes: Seq<char>) -> bool {
    hazard == Hazard::Other && notes == no_notes()
}

/// The magnitude of a report in hundredths and its unit: the speed in miles per hour
/// where there is one, else the size in inches where there is one, else neither. `None`
/// where the one that counts is no decimal.
pub open spec fn magnitude_of(fields: ReportFieldsView) -> Option<(Option<int>, Option<Units>)> {
    match fields.mph {
        Some(mph) => match decimal(mph, MAGNITUDE_SCALE as nat) {
            Some(speed) => Some((Some(speed), Some(Units::Mph))),
            None => None,
        },
        None => match fields.size {
            Some(size) => match decimal(size, MAGNITUDE_SCALE as nat) {
                Some(inches) => Some((Some(inches), Some(Units::Inches))),
                None => None,
            },
            None => Some((None, None)),
        },
    }
}

/// The title of an event of kind `hazard`.
pub open spec fn title_of(hazard: Hazard) -> Seq<char> {
    "Report: "@ + hazard.name()
}

/// The narrative of an event: who reported what, and the notes where there are any.
pub open spec fn narrative_of(hazard: Hazard, reporter: Seq<char>, notes: Seq<char>) -> Seq<char> {
    if notes == no_notes() {
        hazard.name() + " reported by "@ + reporter
    } else {
        hazard.name() + " reported by "@ + reporter + ". "@ + notes
    }
}

/// What the fields of a report line and the seconds read from its time give: an event,
/// nothing for a suppressed report, or the first fault in this order: an unknown hazard
/// code, a magnitude or a coordinate that is no decimal, a time that cannot be held.
pub open spec fn report_outcome(fields: ReportFieldsView, seconds: Option<int>) -> Result<
    Option<EventView>,
    ReportErrorView,
> {
    match Hazard::of_code(fields.hazard_code) {
        None => Err(ReportErrorView::UnknownHazardCode(fields.hazard_code)),
        Some(hazard) => if is_suppressed(hazard, fields.notes) {
            Ok(None)
        } else {
            match (
                magnitude_of(fields),
                decimal(fields.lat, COORDINATE_SCALE as nat),
                decimal(fields.lon, COORDINATE_SCALE as nat),
            ) {
                (Some((magnitude, units)), Some(lat), Some(lon)) => match seconds {
                    Some(count) if micros_of(count) is Some => Ok(
                        Some(
                            EventView {
                                event_ts: micros_of(count)->0 as u64,
                                event_type: EventType::SnReport,
                                point: Coordinates { lat: lat as i64, lon: lon as i64 },
                                report: ReportView {
                                    hazard: hazard.hazard_type(),
                                    magnitude: match magnitude {
                                        Some(value) => Some(value as i64),
                                        None => None,
                                    },
                                    reporter: fields.reporter,
                                    units: units,
                                    was_measured: if fields.measured {
                                        Some(true)
                                    } else {
                                        None
                                    },
                                },
                                text: narrative_of(hazard, fields.reporter, fields.notes),
                                title: title_of(hazard),
                            },
                        ),
                    ),
                    _ => Err(ReportErrorView::MalformedReport(Malformation::Timestamp)),
                },
                _ => Err(ReportErrorView::MalformedReport(Malformation::Number)),
            }
        },
    }
}

/// An outcome with its texts as sequences of characters.
pub open spec fn outcome_view(outcome: Result<Option<Event>, ReportError>) -> Result<
    Option<EventView>,
    ReportErrorView,
> {
    match outcome {
        Ok(Some(event)) => Ok(Some(event@)),
        Ok(None) => Ok(None),
        Err(error) => Err(error@),
    }
}

/// What the report pattern captures in `report`; nothing where the pattern itself is
/// refused.
pub open spec fn report_captures(report: Seq<char>) -> Option<Seq<Option<Seq<char>>>> {
    if regex_accepts(REPORT_PATTERN@) {
        pattern_captures(REPORT_PATTERN@, report)
    } else {
        None
    }
}

/// What parsing the line `report` gives: a line that the report pattern does not match
/// is malformed in its format; the fields of any other line decide.
pub open spec fn parse_outcome(report: Seq<char>) -> Result<Option<EventView>, ReportErrorView> {
    match report_captures(report) {
        Some(groups) => match fields_of(groups) {
            Some(fields) => report_outcome(
                fields,
                utc_seconds(fields.timestamp, TIMESTAMP_FORMAT@),
            ),
            None => Err(ReportErrorView::MalformedReport(Malformation::Format)),
        },
        None => Err(ReportErrorView::MalformedReport(Malformation::Format)),
    }
}

/// The text of a group, where it took part in the match.
pub open spec fn group_text(group: Option<String>) -> Option<Seq<char>> {
    match group {
        Some(text) => Some(text@),
        None => None,
    }
}

/// The texts of the groups of a match.
pub open spec fn group_texts(groups: Seq<Option<String>>) -> Seq<Option<Seq<char>>> {
    groups.map_values(|group: Option<String>| group_text(group))
}

fn copy_of(group: &Option<String>) -> (copy: Option<String>)
    ensures
        group_text(copy) == group_text(*group),
{
    match group {
        Some(text) => Some(text.clone()),
        None => None,
    }
}

/// Sorts the groups of a match of the report pattern into the fields of the report.
pub fn extract_fields(groups: &Vec<Option<String>>) -> (fields: Option<ReportFields>)
    ensures
        fields matches Some(found) ==> fields_of(group_texts(groups@)) == Some(found@),
        fields is None ==> fields_of(group_texts(groups@)) is None,
{
    if groups.len() != GROUP_COUNT {
        return None;
    }
    match (
        copy_of(&groups[1]),
        copy_of(&groups[2]),
        copy_of(&groups[3]),
        copy_of(&groups[4]),
        copy_of(&groups[5]),
        copy_of(&groups[9]),
    ) {
        (Some(lat), Some(lon), Some(hazard_code), Some(reporter), Some(timestamp), Some(notes)) => {
            let size = copy_of(&groups[6]);
            let mph = copy_of(&groups[7]);
            let measured = groups[8].is_some();
            Some(
                ReportFields {
                    lat,
                    lon,
                    hazard_code,
                    reporter,
                    timestamp,
                    size,
                    mph,
                    measured,
                    notes,
                },
            )
        },
        _ => None,
    }
}

/// Seconds as a mathematical integer.
pub open spec fn seconds_view(seconds: Option<i64>) -> Option<int> {
    match seconds {
        Some(count) => Some(count as int),
        None => None,
    }
}

/// A number of the feed, or the fault of a field that is no number.
fn number(text: &String, scale: usize) -> (value: Result<i64, ReportError>)
    ensures
        value matches Ok(number) ==> decimal(text@, scale as nat) == Some(number as int),
        value matches Err(error) ==> decimal(text@, scale as nat) is None && error
            == ReportError::MalformedReport(Malformation::Number),
{
    match parse_decimal(text.as_str(), scale) {
        Some(value) => Ok(value),
        None => Err(ReportError::MalformedReport(Malformation::Number)),
    }
}

/// Builds the event of a report from its fields and from the seconds since the epoch
/// that were read from its time, `None` where none could be read.
pub fn build_event(fields: &ReportFields, seconds: Option<i64>) -> (outcome: Result<
    Option<Event>,
    ReportError,
>)
    ensures
        outcome_view(outcome) == report_outcome(fields@, seconds_view(seconds)),
{
    let hazard = match Hazard::get_by_code(fields.hazard_code.as_str()) {
        Ok(hazard) => hazard,
        Err(error) => {
            return Err(error);
        },
    };
    let without_notes = fields.notes == "None".to_owned();
    if hazard == Hazard::Other && without_notes {
        return Ok(None);
    }
    let (magnitude, units) = match &fields.mph {
        Some(mph) => (Some(number(mph, MAGNITUDE_SCALE)?), Some(Units::Mph)),
        None => match &fields.size {
            Some(size) => (Some(number(size, MAGNITUDE_SCALE)?), Some(Units::Inches)),
            None => (None, None),
        },
    };
    let lat = number(&fields.lat, COORDINATE_SCALE)?;
    let lon = number(&fields.lon, COORDINATE_SCALE)?;
    let event_ts = match seconds {
        Some(count) => match to_micros(count) {
            Some(micros) => micros,
            None => {
                return Err(ReportError::MalformedReport(Malformation::Timestamp));
            },
        },
        None => {
            return Err(ReportError::MalformedReport(Malformation::Timestamp));
        },
    };
    let mut text = hazard.to_string();
    text.append(" reported by ");
    text.append(fields.reporter.as_str());
    if !without_notes {
        text.append(". ");
        text.append(fields.notes.as_str());
    }
    let mut title = "Report: ".to_owned();
    title.append(hazard.to_string().as_str());
    Ok(
        Some(
            Event {
                event_ts,
                event_type: EventType::SnReport,
                point: Coordinates { lat, lon },
                report: Report {
                    hazard: hazard.to_hazard_type(),
                    magnitude,
                    reporter: fields.reporter.clone(),
                    units,
                    was_measured: if fields.measured {
                        Some(true)
                    } else {
                        None
                    },
                },
                text,
                title,
            },
        ),
    )
}

/// Reads report lines by the report pattern, which it compiles once.
pub struct ReportParser {
    compiled_regex: Option<Regex>,
}

impl ReportParser {
    #[verifier::type_invariant]
    spec fn holds_report_pattern(self) -> bool {
        &&& self.compiled_regex is Some <==> regex_accepts(REPORT_PATTERN@)
        &&& self.compiled_regex matches Some(regex) ==> compiled_from(regex, REPORT_PATTERN@)
    }

    /// Whether this parser holds the compiled report pattern.
    pub closed spec fn is_ready(&self) -> bool {
        self.compiled_regex is Some
    }

    /// Whether this parser holds the compiled report pattern. A parser that does not
    /// finds every line malformed.
    pub fn ready(&self) -> (ready: bool)
        ensures
            ready == self.is_ready(),
    {
        self.compiled_regex.is_some()
    }

    /// A parser for the report pattern, ready wherever the pattern is accepted.
    pub fn new() -> (parser: ReportParser)
        ensures
            parser.is_ready() == regex_accepts(REPORT_PATTERN@),
    {
        match compile(REPORT_PATTERN) {
            Ok(regex) => ReportParser { compiled_regex: Some(regex) },
            Err(_) => ReportParser { compiled_regex: None },
        }
    }

    /// Parses one report line: an event, `None` for a report that is suppressed, or the
    /// fault of a malformed line.
    pub fn parse(&self, report: &str) -> (outcome: Result<Option<Event>, ReportError>)
        ensures
            outcome_view(outcome) == parse_outcome(report@),
    {
        proof {
            use_type_invariant(self);
        }
        let found = match &self.compiled_regex {
            Some(regex) => captures(regex, report),
            None => None,
        };
        let fields = match found {
            Some(groups) => {
                assert(groups.deep_view() =~= group_texts(groups@));
                extract_fields(&groups)
            },
            None => None,
        };
        match fields {
            Some(fields) => {
                let seconds = match parse_utc_seconds(fields.timestamp.as_str(), TIMESTAMP_FORMAT) {
                    Ok(count) => Some(count),
                    Err(_) => None,
                };
                build_event(&fields, seconds)
            },
            None => Err(ReportError::MalformedReport(Malformation::Format)),
        }
    }
}

/// Whether everything that an event is built from can be read: the magnitude, the
/// coordinates and the time.
pub open spec fn has_valid_parts(fields: ReportFieldsView, seconds: Option<int>) -> bool {
    &&& magnitude_of(fields) is Some
    &&& decimal(fields.lat, COORDINATE_SCALE as nat) is Some
    &&& decimal(fields.lon, COORDINATE_SCALE as nat) is Some
    &&& seconds matches Some(count) && micros_of(count) is Some
}

/// `fields` with other notes.
pub open spec fn with_notes(fields: ReportFieldsView, notes: Seq<char>) -> ReportFieldsView {
    ReportFieldsView { notes: notes, ..fields }
}

/// A report of another hazard is suppressed exactly where it has no notes.
pub proof fn lemma_other_suppressed_iff_no_notes(fields: ReportFieldsView, seconds: Option<int>)
    requires
        Hazard::of_code(fields.hazard_code) == Some(Hazard::Other),
    ensures
        report_outcome(fields, seconds) == Ok::<Option<EventView>, ReportErrorView>(None)
            <==> fields.notes == no_notes(),
{
}

/// A report of a hazard that is not filed under `Other` is never suppressed.
pub proof fn lemma_only_other_is_suppressed(fields: ReportFieldsView, seconds: Option<int>)
    requires
        Hazard::of_code(fields.hazard_code) != Some(Hazard::Other),
    ensures
        report_outcome(fields, seconds) != Ok::<Option<EventView>, ReportErrorView>(None),
{
}

/// A report of another hazard gives an event once it has notes, where its numbers and
/// its time can be read: the report of `fields` with `notes` in place of its own.
pub proof fn lemma_other_with_notes_is_event(
    fields: ReportFieldsView,
    notes: Seq<char>,
    seconds: Option<int>,
)
    requires
        Hazard::of_code(fields.hazard_code) == Some(Hazard::Other),
        notes != no_notes(),
        has_valid_parts(fields, seconds),
    ensures
        report_outcome(with_notes(fields, notes), seconds) matches Ok(Some(event))
            && event.text == Hazard::Other.name() + " reported by "@ + fields.reporter + ". "@
            + notes,
{
    assert(magnitude_of(with_notes(fields, notes)) == magnitude_of(fields));
}

/// An event is complete: it is built only where the hazard code, the magnitude, both
/// coordinates and the time were read, and it holds what was read.
pub proof fn lemma_event_is_complete(fields: ReportFieldsView, seconds: Option<int>)
    ensures
        report_outcome(fields, seconds) matches Ok(Some(event)) ==> {
            &&& has_valid_parts(fields, seconds)
            &&& Hazard::of_code(fields.hazard_code) matches Some(hazard) && event.report.hazard
                == hazard.hazard_type()
            &&& decimal(fields.lat, COORDINATE_SCALE as nat) == Some(event.point.lat as int)
            &&& decimal(fields.lon, COORDINATE_SCALE as nat) == Some(event.point.lon as int)
            &&& micros_of(seconds->0) == Some(event.event_ts as int)
            &&& (event.report.magnitude is Some <==> event.report.units is Some)
        },
{
    if report_outcome(fields, seconds) is Ok && report_outcome(fields, seconds)->Ok_0 is Some {
        lemma_decimal_fits(fields.lat, COORDINATE_SCALE as nat);
        lemma_decimal_fits(fields.lon, COORDINATE_SCALE as nat);
    }
}

/// A line that the report pattern does not match is malformed in its format.
pub proof fn lemma_unmatched_line_is_malformed(report: Seq<char>)
    requires
        report_captures(report) is None,
    ensures
        parse_outcome(report) == Err::<Option<EventView>, ReportErrorView>(
            ReportErrorView::MalformedReport(Malformation::Format),
        ),
{
}

} // verus!
