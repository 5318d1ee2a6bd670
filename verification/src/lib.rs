//! Loads the reports of severe-weather spotters: finds the report lines of a feed body
//! that were not seen at the previous poll, and turns each into an event record.

pub mod comparison;
pub mod config;
pub mod decimal;
pub mod domain;
pub mod error;
pub mod fingerprints;
pub mod parser;
pub mod pattern;
pub mod text;
pub mod timestamp;

pub use comparison::{get_comparison, normalize_line, Comparison};
pub use config::Config;
pub use domain::{Coordinates, Event, EventType, Hazard, HazardType, Report, Units};
pub use error::{Malformation, ReportError};
pub use parser::{build_event, extract_fields, ReportFields, ReportParser};
