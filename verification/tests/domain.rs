use sn_loader::domain::{Hazard, HazardType};
use sn_loader::error::{Malformation, ReportError};

#[test]
fn every_code_resolves_to_its_kind() {
    let kinds = [
        ("1", Hazard::Tornado),
        ("2", Hazard::Funnel),
        ("3", Hazard::WallCloud),
        ("4", Hazard::Hail),
        ("5", Hazard::Wind),
        ("6", Hazard::Flood),
        ("7", Hazard::FlashFlood),
        ("8", Hazard::Other),
        ("9", Hazard::FreezingRain),
        ("10", Hazard::Snow),
    ];
    for (code, kind) in kinds {
        assert_eq!(Hazard::get_by_code(code), Ok(kind));
    }
}

#[test]
fn other_codes_are_unknown_and_carried() {
    for code in ["", "0", "11", "01", "1 ", " 1", "100", "a", "-1", "1.0", "\u{0661}"] {
        assert_eq!(
            Hazard::get_by_code(code),
            Err(ReportError::UnknownHazardCode(code.to_string()))
        );
    }
}

#[test]
fn display_names_are_fixed() {
    assert_eq!(Hazard::Tornado.to_string(), "Tornado");
    assert_eq!(Hazard::Funnel.to_string(), "Funnel");
    assert_eq!(Hazard::WallCloud.to_string(), "Wall Cloud");
    assert_eq!(Hazard::Hail.to_string(), "Hail");
    assert_eq!(Hazard::Wind.to_string(), "Wind");
    assert_eq!(Hazard::Flood.to_string(), "Flood");
    assert_eq!(Hazard::FlashFlood.to_string(), "Flash Flood");
    assert_eq!(Hazard::Other.to_string(), "Other");
    assert_eq!(Hazard::FreezingRain.to_string(), "Freezing Rain");
    assert_eq!(Hazard::Snow.to_string(), "Snow");
}

#[test]
fn broad_types_merge_floods_and_label_other() {
    assert_eq!(Hazard::Tornado.to_hazard_type(), HazardType::Tornado);
    assert_eq!(Hazard::Funnel.to_hazard_type(), HazardType::Funnel);
    assert_eq!(Hazard::WallCloud.to_hazard_type(), HazardType::WallCloud);
    assert_eq!(Hazard::Hail.to_hazard_type(), HazardType::Hail);
    assert_eq!(Hazard::Wind.to_hazard_type(), HazardType::Wind);
    assert_eq!(Hazard::Flood.to_hazard_type(), HazardType::Flood);
    assert_eq!(Hazard::FlashFlood.to_hazard_type(), HazardType::Flood);
    assert_eq!(
        Hazard::Other.to_hazard_type(),
        HazardType::Other { kind: "SN Other".to_string() }
    );
    assert_eq!(Hazard::FreezingRain.to_hazard_type(), HazardType::FreezingRain);
    assert_eq!(Hazard::Snow.to_hazard_type(), HazardType::Snow);
}

#[test]
fn errors_have_their_diagnostics() {
    assert_eq!(
        ReportError::UnknownHazardCode("11".to_string()).to_string(),
        "unknown code: 11"
    );
    assert_eq!(
        ReportError::MalformedReport(Malformation::Format).to_string(),
        "invalid report format"
    );
    assert_eq!(ReportError::MalformedReport(Malformation::Number).to_string(), "invalid number");
    assert_eq!(
        ReportError::MalformedReport(Malformation::Timestamp).to_string(),
        "invalid timestamp"
    );
}
