//! The hazard catalog and the event record that a report becomes.

use crate::error::{ReportError, ReportErrorView};
use crate::text::chars_of;
use vstd::prelude::*;

verus! {

/// The kinds of hazard that a spotter can report.
#[derive(Clone, Copy, Debug, PartialEq, Eq, Structural)]
pub enum Hazard {
    Tornado,
    Funnel,
    WallCloud,
    Hail,
    Wind,
    Flood,
    FlashFlood,
    Other,
    FreezingRain,
    Snow,
}

/// The broader hazard types of the storage domain.
#[derive(Clone, Debug, PartialEq, Eq)]
pub enum HazardType {
    Tornado,
    Funnel,
    WallCloud,
    Hail,
    Wind,
    Flood,
    Other { kind: String },
    FreezingRain,
    Snow,
}

/// A `HazardType` with its text as a sequence of characters.
pub enum HazardTypeView {
    Tornado,
    Funnel,
    WallCloud,
    Hail,
    Wind,
    Flood,
    Other { kind: Seq<char> },
    FreezingRain,
    Snow,
}

impl View for HazardType {
    type V = HazardTypeView;

    open spec fn view(&self) -> HazardTypeView {
        match *self {
            HazardType::Tornado => HazardTypeView::Tornado,
            HazardType::Funnel => HazardTypeView::Funnel,
            HazardType::WallCloud => HazardTypeView::WallCloud,
            HazardType::Hail => HazardTypeView::Hail,
            HazardType::Wind => HazardTypeView::Wind,
            HazardType::Flood => HazardTypeView::Flood,
            HazardType::Other { kind } => HazardTypeView::Other { kind: kind@ },
            HazardType::FreezingRain => HazardTypeView::FreezingRain,
            HazardType::Snow => HazardTypeView::Snow,
        }
    }
}

impl Hazard {
    /// The kind that the feed's code `code` stands for.
    pub open spec fn of_code(code: Seq<char>) -> Option<Hazard> {
        if code == seq!['1'] {
            Some(Hazard::Tornado)
        } else if code == seq!['2'] {
            Some(Hazard::Funnel)
        } else if code == seq!['3'] {
            Some(Hazard::WallCloud)
        } else if code == seq!['4'] {
            Some(Hazard::Hail)
        } else if code == seq!['5'] {
            Some(Hazard::Wind)
        } else if code == seq!['6'] {
            Some(Hazard::Flood)
        } else if code == seq!['7'] {
            Some(Hazard::FlashFlood)
        } else if code == seq!['8'] {
            Some(Hazard::Other)
        } else if code == seq!['9'] {
            Some(Hazard::FreezingRain)
        } else if code == seq!['1', '0'] {
            Some(Hazard::Snow)
        } else {
            None
        }
    }

    /// What resolving `code` gives: its kind, or the code back as unknown.
    pub open spec fn resolved(code: Seq<char>) -> Result<Hazard, ReportErrorView> {
        match Hazard::of_code(code) {
            Some(hazard) => Ok(hazard),
            None => Err(ReportErrorView::UnknownHazardCode(code)),
        }
    }

    /// The display name of this kind.
    pub open spec fn name(self) -> Seq<char> {
        match self {
            Hazard::Tornado => "Tornado"@,
            Hazard::Funnel => "Funnel"@,
            Hazard::WallCloud => "Wall Cloud"@,
            Hazard::Hail => "Hail"@,
            Hazard::Wind => "Wind"@,
            Hazard::Flood => "Flood"@,
            Hazard::FlashFlood => "Flash Flood"@,
            Hazard::Other => "Other"@,
            Hazard::FreezingRain => "Freezing Rain"@,
            Hazard::Snow => "Snow"@,
        }
    }

    /// The broader type of this kind. A flash flood is a flood; what is filed under
    /// `Other` carries the label of this feed.
    pub open spec fn hazard_type(self) -> HazardTypeView {
        match self {
            Hazard::Tornado => HazardTypeView::Tornado,
            Hazard::Funnel => HazardTypeView::Funnel,
            Hazard::WallCloud => HazardTypeView::WallCloud,
            Hazard::Hail => HazardTypeView::Hail,
            Hazard::Wind => HazardTypeView::Wind,
            Hazard::Flood => HazardTypeView::Flood,
            Hazard::FlashFlood => HazardTypeView::Flood,
            Hazard::Other => HazardTypeView::Other { kind: "SN Other"@ },
            Hazard::FreezingRain => HazardTypeView::FreezingRain,
            Hazard::Snow => HazardTypeView::Snow,
        }
    }

    /// Resolves a hazard code of the feed, "1" to "10".
    pub fn get_by_code(code: &str) -> (found: Result<Hazard, ReportError>)
        ensures
            result_view(found) == Hazard::resolved(code@),
    {
        let chars = chars_of(code);
        let found = if chars.len() == 1 {
            let c = chars[0];
            assert(chars@ =~= seq![c]);
            if c == '1' {
                Some(Hazard::Tornado)
            } else if c == '2' {
                Some(Hazard::Funnel)
            } else if c == '3' {
                Some(Hazard::WallCloud)
            } else if c == '4' {
                Some(Hazard::Hail)
            } else if c == '5' {
                Some(Hazard::Wind)
            } else if c == '6' {
                Some(Hazard::Flood)
            } else if c == '7' {
                Some(Hazard::FlashFlood)
            } else if c == '8' {
                Some(Hazard::Other)
            } else if c == '9' {
                Some(Hazard::FreezingRain)
            } else {
                None
            }
        } else if chars.len() == 2 {
            let (c, d) = (chars[0], chars[1]);
            assert(chars@ =~= seq![c, d]);
            if c == '1' && d == '0' {
                Some(Hazard::Snow)
            } else {
                None
            }
        } else {
            None
        };
        match found {
            Some(hazard) => Ok(hazard),
            None => Err(ReportError::UnknownHazardCode(code.to_owned())),
        }
    }

    /// The broader hazard type under which the storage domain files this kind.
    pub fn to_hazard_type(&self) -> (broad: HazardType)
        ensures
            broad@ == self.hazard_type(),
    {
        match self {
            Hazard::Tornado => HazardType::Tornado,
            Hazard::Funnel => HazardType::Funnel,
            Hazard::WallCloud => HazardType::WallCloud,
            Hazard::Hail => HazardType::Hail,
            Hazard::Wind => HazardType::Wind,
            Hazard::Flood => HazardType::Flood,
            Hazard::FlashFlood => HazardType::Flood,
            Hazard::Other => HazardType::Other { kind: "SN Other".to_owned() },
            Hazard::FreezingRain => HazardType::FreezingRain,
            Hazard::Snow => HazardType::Snow,
        }
    }

    /// The display name of this kind.
    pub fn to_string(&self) -> (name: String)
        ensures
            name@ == self.name(),
    {
        match self {
            Hazard::Tornado => "Tornado",
            Hazard::Funnel => "Funnel",
            Hazard::WallCloud => "Wall Cloud",
            Hazard::Hail => "Hail",
            Hazard::Wind => "Wind",
            Hazard::Flood => "Flood",
            Hazard::FlashFlood => "Flash Flood",
            Hazard::Other => "Other",
            Hazard::FreezingRain => "Freezing Rain",
            Hazard::Snow => "Snow",
        }.to_owned()
    }
}

/// A result of the catalog with the text of its error as a sequence of characters.
pub open spec fn result_view(found: Result<Hazard, ReportError>) -> Result<Hazard, ReportErrorView> {
    match found {
        Ok(hazard) => Ok(hazard),
        Err(error) => Err(error@),
    }
}

/// The unit of a magnitude.
#[derive(Clone, Copy, Debug, PartialEq, Eq, Structural)]
pub enum Units {
    /// Miles per hour.
    Mph,
    Inches,
}

/// The feed that an event came from.
#[derive(Clone, Copy, Debug, PartialEq, Eq, Structural)]
pub enum EventType {
    /// A report of a spotter.
    SnReport,
}

/// A point on the map, in millionths of a degree.
#[derive(Clone, Copy, Debug, PartialEq, Eq, Structural)]
pub struct Coordinates {
    pub lat: i64,
    pub lon: i64,
}

/// What the spotter saw.
#[derive(Clone, Debug, PartialEq, Eq)]
pub struct Report {
    pub hazard: HazardType,
    /// In hundredths of the unit.
    pub magnitude: Option<i64>,
    pub reporter: String,
    pub units: Option<Units>,
    /// `Some(true)` where the report says that the magnitude was measured; never
    /// `Some(false)`.
    pub was_measured: Option<bool>,
}

/// A `Report` with its texts as sequences of characters.
pub struct ReportView {
    pub hazard: HazardTypeView,
    pub magnitude: Option<i64>,
    pub reporter: Seq<char>,
    pub units: Option<Units>,
    pub was_measured: Option<bool>,
}

impl View for Report {
    type V = ReportView;

    open spec fn view(&self) -> ReportView {
        ReportView {
            hazard: self.hazard@,
            magnitude: self.magnitude,
            reporter: self.reporter@,
            units: self.units,
            was_measured: self.was_measured,
        }
    }
}

/// The record of a weather event that a report line becomes. It holds what a spotter
/// report supplies, and nothing of what other sources add to an event.
#[derive(Clone, Debug, PartialEq, Eq)]
pub struct Event {
    /// When the spotter saw it: microseconds since the epoch, UTC.
    pub event_ts: u64,
    pub event_type: EventType,
    pub point: Coordinates,
    pub report: Report,
    pub text: String,
    pub title: String,
}

/// An `Event` with its texts as sequences of characters.
pub struct EventView {
    pub event_ts: u64,
    pub event_type: EventType,
    pub point: Coordinates,
    pub report: ReportView,
    pub text: Seq<char>,
    pub title: Seq<char>,
}

impl View for Event {
    type V = EventView;

    open spec fn view(&self) -> EventView {
        EventView {
            event_ts: self.event_ts,
            event_type: self.event_type,
            point: self.point,
            report: self.report@,
            text: self.text@,
            title: self.title@,
        }
    }
}

} // verus!
