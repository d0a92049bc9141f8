use oatf::duration::is_valid_duration;
use oatf::duration::parse_duration;

fn secs(input: &str) -> u64 {
    parse_duration(input).expect("should parse").secs
}

#[test]
fn shorthand_units_parse() {
    assert_eq!(secs("30s"), 30);
    assert_eq!(secs("5m"), 300);
    assert_eq!(secs("1h"), 3600);
    assert_eq!(secs("2d"), 172800);
    assert_eq!(secs("0s"), 0);
}

#[test]
fn iso_forms_parse() {
    assert_eq!(secs("PT30S"), 30);
    assert_eq!(secs("PT5M"), 300);
    assert_eq!(secs("PT1H"), 3600);
    assert_eq!(secs("P2D"), 172800);
    assert_eq!(secs("P1DT12H30M15S"), 86400 + 12 * 3600 + 30 * 60 + 15);
    assert_eq!(secs("P1DT2H"), 86400 + 7200);
}

#[test]
fn iso_equals_shorthand_for_each_unit() {
    for n in ["0", "1", "7", "30", "90", "3600", "123456"] {
        assert_eq!(secs(&format!("PT{}S", n)), secs(&format!("{}s", n)));
        assert_eq!(secs(&format!("PT{}M", n)), secs(&format!("{}m", n)));
        assert_eq!(secs(&format!("PT{}H", n)), secs(&format!("{}h", n)));
        assert_eq!(secs(&format!("P{}D", n)), secs(&format!("{}d", n)));
    }
}

#[test]
fn empty_and_bare_markers_are_errors() {
    assert!(parse_duration("").is_err());
    assert!(parse_duration("PT").is_err());
    assert!(parse_duration("P1DT").is_err());
    assert!(parse_duration("P").is_err());
}

#[test]
fn malformed_durations_are_errors() {
    assert!(parse_duration("30").is_err());
    assert!(parse_duration("s").is_err());
    assert!(parse_duration("30x").is_err());
    assert!(parse_duration("PT5").is_err());
    assert!(parse_duration("P5").is_err());
    assert!(parse_duration("PT1M2H").is_err());
    assert!(parse_duration("PT5S6").is_err());
    assert!(parse_duration("1.5h").is_err());
    assert!(parse_duration("-5s").is_err());
}

#[test]
fn overflow_is_an_error_not_wraparound() {
    assert!(parse_duration("99999999999999999999s").is_err());
    assert!(parse_duration("300000000000000000h").is_err());
    assert!(parse_duration("P300000000000000000D").is_err());
}

#[test]
fn validity_follows_the_grammar_not_the_magnitude() {
    assert!(is_valid_duration("30s"));
    assert!(is_valid_duration("PT30S"));
    assert!(is_valid_duration("P1DT2H30M15S"));
    assert!(is_valid_duration("99999999999999999999s"));
    assert!(!is_valid_duration(""));
    assert!(!is_valid_duration("PT"));
    assert!(!is_valid_duration("P1DT"));
    assert!(!is_valid_duration("P"));
    assert!(!is_valid_duration("30"));
    assert!(!is_valid_duration("abc"));
}
