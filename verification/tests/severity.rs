use cvrf_xmlparser::{ParseSeverityError, Severity};

#[test]
fn high_parses_to_important_in_any_case() {
    assert_eq!(Severity::from_str("high"), Ok(Severity::Important));
    assert_eq!(Severity::from_str("High"), Ok(Severity::Important));
    assert_eq!(Severity::from_str("HIGH"), Ok(Severity::Important));
}

#[test]
fn unknown_text_is_no_severity() {
    assert_eq!(Severity::from_str("unknown"), Err(ParseSeverityError::InvalidSeverity));
    assert_eq!(Severity::from_str(""), Err(ParseSeverityError::InvalidSeverity));
    assert_eq!(Severity::from_str("null"), Err(ParseSeverityError::InvalidSeverity));
    assert_eq!(Severity::from_str(" high"), Err(ParseSeverityError::InvalidSeverity));
    assert_eq!(Severity::from_str("highest"), Err(ParseSeverityError::InvalidSeverity));
    assert_eq!(Severity::from_str("hig"), Err(ParseSeverityError::InvalidSeverity));
    assert_eq!(Severity::from_str("h\u{131}gh"), Err(ParseSeverityError::InvalidSeverity));
}

#[test]
fn every_name_and_synonym_parses() {
    assert_eq!(Severity::from_str("low"), Ok(Severity::Low));
    assert_eq!(Severity::from_str("LoW"), Ok(Severity::Low));
    assert_eq!(Severity::from_str("moderate"), Ok(Severity::Moderate));
    assert_eq!(Severity::from_str("Medium"), Ok(Severity::Moderate));
    assert_eq!(Severity::from_str("IMPORTANT"), Ok(Severity::Important));
    assert_eq!(Severity::from_str("Critical"), Ok(Severity::Critical));
}

#[test]
fn parse_goes_through_from_str() {
    assert_eq!("Medium".parse::<Severity>(), Ok(Severity::Moderate));
    assert_eq!("none".parse::<Severity>(), Err(ParseSeverityError::InvalidSeverity));
}

#[test]
fn severities_are_ordered() {
    assert!(Severity::Null < Severity::Low);
    assert!(Severity::Low < Severity::Moderate);
    assert!(Severity::Moderate < Severity::Important);
    assert!(Severity::Important < Severity::Critical);
    assert_eq!(Severity::new(), Severity::Null);
    assert_eq!(Severity::Null.rank(), 0);
    assert_eq!(Severity::Low.rank(), 1);
    assert_eq!(Severity::Moderate.rank(), 2);
    assert_eq!(Severity::Important.rank(), 3);
    assert_eq!(Severity::Critical.rank(), 4);
}

#[test]
fn error_message_reads_invalid_severity_level() {
    assert_eq!(ParseSeverityError::InvalidSeverity.message(), "Invalid severity level");
}
