use sn_loader::domain::{Coordinates, Event, EventType, HazardType, Report, Units};
use sn_loader::error::{Malformation, ReportError};
use sn_loader::parser::{build_event, extract_fields, ReportFields, ReportParser};

fn magnitude_of(report: &Report) -> Option<f32> {
    report.magnitude.map(|hundredths| hundredths as f32 / 100.0)
}

fn degrees(millionths: i64) -> f32 {
    (millionths as f64 / 1_000_000.0) as f32
}

#[test]
fn parse_should_return_an_event_with_all_required_fields() {
    let parser = ReportParser::new();
    let report = r#"Icon: 43.112000,-94.639999,000,3,5,"Reported By: Test Human\nHigh Wind\nTime: 2018-09-20 22:52:00 UTC\n60 mph [Measured]\nNotes: Strong winds measured at 60mph with anemometer""#;
    let event = parser.parse(report).unwrap().unwrap();

    assert!(
        event
            == Event {
                event_ts: 1537483920000000,
                event_type: EventType::SnReport,
                point: Coordinates { lat: 43_112_000, lon: -94_639_999 },
                report: Report {
                    reporter: "Test Human".to_string(),
                    hazard: HazardType::Wind,
                    magnitude: Some(6000),
                    units: Some(Units::Mph),
                    was_measured: Some(true),
                },
                text: "Wind reported by Test Human. Strong winds measured at 60mph with anemometer"
                    .to_string(),
                title: "Report: Wind".to_string(),
            }
    );
    assert_eq!(degrees(event.point.lat), 43.112);
    assert_eq!(degrees(event.point.lon), -94.64);
    assert_eq!(magnitude_of(&event.report), Some(60.0));
}

#[test]
fn report_should_not_blow_up_with_non_utf8_characters() {
    let parser = ReportParser::new();
    let report = r#"Icon: 43.112000,-94.639999,000,3,5,"Reported By: Test Human\nHigh Wind\nTime: 2018-09-20 22:52:00 UTC\n60 mph [Measured]\nNotes: Strong �������������������������������������������������������������������� measured at 60mph with anemometer""#;
    let event = parser.parse(report);
    assert!(event.is_ok());
}

#[test]
fn report_should_parse_optional_mph() {
    let parser = ReportParser::new();
    let report = r#"Icon: 43.112000,-94.639999,000,3,5,"Reported By: Test Human\nHigh Wind\nTime: 2018-09-20 22:52:00 UTC\n60 mph [Measured]\nNotes: Strong winds measured at 60mph with anemometer""#;
    let parsed_report = parser.parse(report).unwrap().unwrap().report;
    assert!(magnitude_of(&parsed_report) == Some(60.0));
    assert!(parsed_report.units == Some(Units::Mph));
}

#[test]
fn report_should_parse_optional_measured() {
    let parser = ReportParser::new();
    let report = r#"Icon: 43.112000,-94.639999,000,3,5,"Reported By: Test Human\nHigh Wind\nTime: 2018-09-20 22:52:00 UTC\n60 mph [Measured]\nNotes: Strong winds measured at 60mph with anemometer""#;
    let parsed_report = parser.parse(report).unwrap().unwrap().report;
    assert!(parsed_report.was_measured == Some(true));
}

#[test]
fn report_should_parse_optional_size() {
    let parser = ReportParser::new();
    let report = r#"Icon: 47.617706,-111.215248,000,4,4,"Reported By: Test Human\nHail\nTime: 2018-09-20 22:49:29 UTC\nSize: 0.75" (Penny)\nNotes: None""#;
    let parsed_report = parser.parse(report).unwrap().unwrap().report;
    assert!(magnitude_of(&parsed_report) == Some(0.75));
    assert!(parsed_report.units == Some(Units::Inches));
}

fn report(code: &str, rest: &str) -> String {
    format!(
        "Icon: 43.112000,-94.639999,000,3,{},\"Reported By: Test Human\\nLabel\\nTime: 2018-09-20 22:52:00 UTC{}\"",
        code, rest
    )
}

fn fields() -> ReportFields {
    ReportFields {
        lat: "43.112000".to_string(),
        lon: "-94.639999".to_string(),
        hazard_code: "5".to_string(),
        reporter: "Test Human".to_string(),
        timestamp: "2018-09-20 22:52:00".to_string(),
        size: None,
        mph: Some("60".to_string()),
        measured: true,
        notes: "Strong winds".to_string(),
    }
}

fn malformed(what: Malformation) -> Result<Option<Event>, ReportError> {
    Err(ReportError::MalformedReport(what))
}

#[test]
fn other_report_without_notes_is_suppressed() {
    let parser = ReportParser::new();
    let line = report("8", "\\nNotes: None");
    assert_eq!(parser.parse(&line), Ok(None));
}

#[test]
fn wind_report_with_other_code_and_no_notes_is_suppressed() {
    let parser = ReportParser::new();
    let line = r#"Icon: 43.112000,-94.639999,000,3,8,"Reported By: Test Human\nHigh Wind\nTime: 2018-09-20 22:52:00 UTC\n60 mph [Measured]\nNotes: None""#;
    assert_eq!(parser.parse(line), Ok(None));
}

#[test]
fn other_report_with_notes_is_an_event() {
    let parser = ReportParser::new();
    for notes in ["none", "None.", " None", "NONE", "x", "i got snow"] {
        let line = report("8", &format!("\\nNotes: {}", notes));
        let event = parser.parse(&line).unwrap().unwrap();
        assert_eq!(event.report.hazard, HazardType::Other { kind: "SN Other".to_string() });
        assert_eq!(event.text, format!("Other reported by Test Human. {}", notes));
        assert_eq!(event.title, "Report: Other");
        assert_eq!(event.report.magnitude, None);
        assert_eq!(event.report.units, None);
        assert_eq!(event.report.was_measured, None);
    }
}

#[test]
fn report_without_notes_has_a_short_narrative() {
    let parser = ReportParser::new();
    let event = parser.parse(r#"Icon: 47.617706,-111.215248,000,4,4,"Reported By: Test Human\nHail\nTime: 2018-09-20 22:49:29 UTC\nSize: 0.75" (Penny)\nNotes: None""#).unwrap().unwrap();
    assert_eq!(event.text, "Hail reported by Test Human");
    assert_eq!(event.title, "Report: Hail");
    assert_eq!(event.event_ts, 1537483769000000);
    assert_eq!(event.point, Coordinates { lat: 47_617_706, lon: -111_215_248 });
    assert_eq!(event.report.magnitude, Some(75));
    assert_eq!(event.report.was_measured, None);
    assert_eq!(event.report.hazard, HazardType::Hail);
}

#[test]
fn speed_without_the_mark_is_not_measured() {
    let parser = ReportParser::new();
    let line = report("5", "\\n50 mph\\nNotes: gusts");
    let event = parser.parse(&line).unwrap().unwrap();
    assert_eq!(event.report.magnitude, Some(5000));
    assert_eq!(event.report.units, Some(Units::Mph));
    assert_eq!(event.report.was_measured, None);
}

#[test]
fn flash_flood_is_filed_as_flood() {
    let parser = ReportParser::new();
    let line = report("7", "\\nNotes: Water over road");
    let event = parser.parse(&line).unwrap().unwrap();
    assert_eq!(event.report.hazard, HazardType::Flood);
    assert_eq!(event.title, "Report: Flash Flood");
    assert_eq!(event.text, "Flash Flood reported by Test Human. Water over road");
    assert_eq!(event.event_type, EventType::SnReport);
}

#[test]
fn line_without_the_marker_is_malformed() {
    let parser = ReportParser::new();
    let line = report("5", "\\nNotes: x").replace("Icon: ", "");
    assert_eq!(parser.parse(&line), malformed(Malformation::Format));
    assert_eq!(parser.parse(""), malformed(Malformation::Format));
    assert_eq!(parser.parse("Icon:"), malformed(Malformation::Format));
}

#[test]
fn line_with_a_corrupted_coordinate_is_malformed() {
    let parser = ReportParser::new();
    for bad in ["43.1120", "4x.112000", "43,112000", "", "-43.112000"] {
        let line = report("5", "\\nNotes: x").replace("43.112000", bad);
        assert_eq!(parser.parse(&line), malformed(Malformation::Format));
    }
    let line = report("5", "\\nNotes: x").replace("-94.639999", "94.639999");
    assert_eq!(parser.parse(&line), malformed(Malformation::Format));
}

#[test]
fn coordinate_in_digits_of_another_script_is_malformed() {
    let parser = ReportParser::new();
    let line = report("5", "\\nNotes: x").replace("43.112000", "4\u{0663}.112000");
    assert_eq!(parser.parse(&line), malformed(Malformation::Number));
}

#[test]
fn code_that_the_catalog_lacks_is_unknown() {
    let parser = ReportParser::new();
    for code in ["0", "11", "00", "01", "99"] {
        let line = report(code, "\\nNotes: x");
        assert_eq!(parser.parse(&line), Err(ReportError::UnknownHazardCode(code.to_string())));
    }
    let line = report("100", "\\nNotes: x");
    assert_eq!(parser.parse(&line), malformed(Malformation::Format));
}

#[test]
fn time_that_is_none_is_malformed() {
    let parser = ReportParser::new();
    for bad in ["2018-13-20 22:52:00", "yesterday", "2018-09-20", "2018-09-20 25:00:00"] {
        let line = report("5", "\\nNotes: x").replace("2018-09-20 22:52:00", bad);
        assert_eq!(parser.parse(&line), malformed(Malformation::Timestamp));
    }
}

#[test]
fn time_before_the_epoch_is_malformed() {
    let parser = ReportParser::new();
    let line = report("5", "\\nNotes: x").replace("2018-09-20 22:52:00", "1969-12-31 23:59:59");
    assert_eq!(parser.parse(&line), malformed(Malformation::Timestamp));
    let line = report("5", "\\nNotes: x").replace("2018-09-20 22:52:00", "1970-01-01 00:00:01");
    assert_eq!(parser.parse(&line).unwrap().unwrap().event_ts, 1_000_000);
}

#[test]
fn build_event_fills_every_field() {
    let event = build_event(&fields(), Some(1537483920)).unwrap().unwrap();
    assert_eq!(
        event,
        Event {
            event_ts: 1537483920000000,
            event_type: EventType::SnReport,
            point: Coordinates { lat: 43_112_000, lon: -94_639_999 },
            report: Report {
                hazard: HazardType::Wind,
                magnitude: Some(6000),
                reporter: "Test Human".to_string(),
                units: Some(Units::Mph),
                was_measured: Some(true),
            },
            text: "Wind reported by Test Human. Strong winds".to_string(),
            title: "Report: Wind".to_string(),
        }
    );
}

#[test]
fn build_event_prefers_speed_to_size() {
    let both = ReportFields { size: Some("1.25".to_string()), ..fields() };
    let report = build_event(&both, Some(0)).unwrap().unwrap().report;
    assert_eq!((report.magnitude, report.units), (Some(6000), Some(Units::Mph)));
    let size = ReportFields { mph: None, ..both };
    let report = build_event(&size, Some(0)).unwrap().unwrap().report;
    assert_eq!((report.magnitude, report.units), (Some(125), Some(Units::Inches)));
    let neither = ReportFields { size: None, ..size };
    let report = build_event(&neither, Some(0)).unwrap().unwrap().report;
    assert_eq!((report.magnitude, report.units), (None, None));
}

#[test]
fn build_event_reports_the_first_fault() {
    let bad_code = ReportFields { hazard_code: "12".to_string(), lat: "x".to_string(), ..fields() };
    assert_eq!(
        build_event(&bad_code, None),
        Err(ReportError::UnknownHazardCode("12".to_string()))
    );
    let bad_speed = ReportFields { mph: Some("fast".to_string()), size: Some("1.00".to_string()), ..fields() };
    assert_eq!(build_event(&bad_speed, Some(0)), malformed(Malformation::Number));
    let bad_size = ReportFields { mph: None, size: Some("1.000".to_string()), ..fields() };
    assert_eq!(build_event(&bad_size, Some(0)), malformed(Malformation::Number));
    let bad_lat = ReportFields { lat: "north".to_string(), ..fields() };
    assert_eq!(build_event(&bad_lat, None), malformed(Malformation::Number));
    let bad_lon = ReportFields { lon: "".to_string(), ..fields() };
    assert_eq!(build_event(&bad_lon, None), malformed(Malformation::Number));
    assert_eq!(build_event(&fields(), None), malformed(Malformation::Timestamp));
    assert_eq!(build_event(&fields(), Some(-1)), malformed(Malformation::Timestamp));
    assert_eq!(build_event(&fields(), Some(i64::MAX)), malformed(Malformation::Timestamp));
}

#[test]
fn build_event_suppresses_before_it_reads_numbers() {
    let quiet = ReportFields {
        hazard_code: "8".to_string(),
        notes: "None".to_string(),
        lat: "x".to_string(),
        ..fields()
    };
    assert_eq!(build_event(&quiet, None), Ok(None));
    let loud = ReportFields { notes: "none".to_string(), ..quiet };
    assert_eq!(build_event(&loud, None), malformed(Malformation::Number));
}

#[test]
fn extract_fields_sorts_the_groups() {
    let text = |s: &str| Some(s.to_string());
    let groups = vec![
        text("whole"),
        text("1"),
        text("2"),
        text("3"),
        text("4"),
        text("5"),
        None,
        text("7"),
        None,
        text("9"),
    ];
    assert_eq!(
        extract_fields(&groups),
        Some(ReportFields {
            lat: "1".to_string(),
            lon: "2".to_string(),
            hazard_code: "3".to_string(),
            reporter: "4".to_string(),
            timestamp: "5".to_string(),
            size: None,
            mph: text("7"),
            measured: false,
            notes: "9".to_string(),
        })
    );
    let mut marked = groups.clone();
    marked[6] = text("6");
    marked[8] = text(" [Measured]");
    let found = extract_fields(&marked).unwrap();
    assert_eq!(found.size, text("6"));
    assert!(found.measured);
}

#[test]
fn extract_fields_needs_every_group_of_a_report() {
    let text = |s: &str| Some(s.to_string());
    let groups: Vec<Option<String>> = (0..10).map(|i| text(&i.to_string())).collect();
    assert!(extract_fields(&groups).is_some());
    for missing in [1, 2, 3, 4, 5, 9] {
        let mut fewer = groups.clone();
        fewer[missing] = None;
        assert_eq!(extract_fields(&fewer), None);
    }
    let mut whole_missing = groups.clone();
    whole_missing[0] = None;
    assert!(extract_fields(&whole_missing).is_some());
    assert_eq!(extract_fields(&groups[..9].to_vec()), None);
    let mut longer = groups.clone();
    longer.push(None);
    assert_eq!(extract_fields(&longer), None);
    assert_eq!(extract_fields(&Vec::new()), None);
}

#[test]
fn report_with_code_ten_is_snow() {
    let parser = ReportParser::new();
    let report = r#"Icon: 43.112000,-94.639999,000,3,10,"Reported By: Test Human\nSnow\nTime: 2018-09-20 22:52:00 UTC\nNotes: 4 inches on the ground""#;
    let event = parser.parse(report).unwrap().unwrap();
    assert_eq!(event.report.hazard, HazardType::Snow);
    assert_eq!(event.title, "Report: Snow");
    assert_eq!(event.text, "Snow reported by Test Human. 4 inches on the ground");
    assert_eq!(event.event_ts, 1537483920000000);
    assert_eq!(event.report.magnitude, None);
}

#[test]
fn every_code_of_the_catalog_parses() {
    let parser = ReportParser::new();
    let titles = [
        ("1", "Tornado"),
        ("2", "Funnel"),
        ("3", "Wall Cloud"),
        ("4", "Hail"),
        ("5", "Wind"),
        ("6", "Flood"),
        ("7", "Flash Flood"),
        ("8", "Other"),
        ("9", "Freezing Rain"),
        ("10", "Snow"),
    ];
    for (code, name) in titles {
        let event = parser.parse(&report(code, "\\nNotes: seen")).unwrap().unwrap();
        assert_eq!(event.title, format!("Report: {}", name));
    }
}

#[test]
fn a_new_parser_is_ready() {
    assert!(ReportParser::new().ready());
}
