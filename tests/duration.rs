use config_types::{format_duration, parse_duration, DurationConf, ParseErrorKind};

const SEC: u64 = 1_000_000_000;

#[test]
fn test_parse_duration() {
    assert_eq!(parse_duration("1ns").unwrap(), DurationConf::new(1));
    assert_eq!(parse_duration("1us").unwrap(), DurationConf::new(1_000));
    assert_eq!(parse_duration("1ms").unwrap(), DurationConf::new(1_000_000));
    assert_eq!(parse_duration("1s").unwrap(), DurationConf::new(SEC));
    assert_eq!(parse_duration("1m").unwrap(), DurationConf::new(60 * SEC));
    assert_eq!(parse_duration("1h").unwrap(), DurationConf::new(3600 * SEC));
}

#[test]
fn test_format_duration() {
    assert_eq!(format_duration(DurationConf::new(1)), "1ns");
    assert_eq!(format_duration(DurationConf::new(1_000)), "1us");
    assert_eq!(format_duration(DurationConf::new(1_000_000)), "1ms");
    assert_eq!(format_duration(DurationConf::new(SEC)), "1s");
    assert_eq!(format_duration(DurationConf::new(60 * SEC)), "1m");
    assert_eq!(format_duration(DurationConf::new(3600 * SEC)), "1h");
}

#[test]
fn format_hour_exactly() {
    assert_eq!(format_duration(DurationConf::new(3_600_000_000_000)), "1h");
}

#[test]
fn format_ninety_seconds_stays_in_seconds() {
    assert_eq!(format_duration(DurationConf::new(90 * SEC)), "90s");
}

#[test]
fn format_picks_finest_unit_with_remainder() {
    assert_eq!(format_duration(DurationConf::new(1_500)), "1500ns");
    assert_eq!(format_duration(DurationConf::new(2_500_000)), "2500us");
    assert_eq!(format_duration(DurationConf::new(1_500_000_000)), "1500ms");
    assert_eq!(format_duration(DurationConf::new(120 * SEC)), "2m");
    assert_eq!(format_duration(DurationConf::new(5400 * SEC)), "90m");
    assert_eq!(format_duration(DurationConf::new(7200 * SEC)), "2h");
    assert_eq!(format_duration(DurationConf::new(0)), "0h");
}

#[test]
fn parse_rejects_malformed_duration() {
    for s in ["5", "5xs", "-5s", "5.5s", "", "s", "5 s s", "5S", "5 5s", "+5s"] {
        let e = parse_duration(s).unwrap_err();
        assert_eq!(e.kind, ParseErrorKind::Malformed);
        assert_eq!(e.input, s);
    }
}

#[test]
fn parse_duration_allows_spaces() {
    assert_eq!(parse_duration("  500 ms \t").unwrap().as_nanos(), 500_000_000);
    assert_eq!(parse_duration("007s").unwrap().as_nanos(), 7 * SEC);
}

#[test]
fn parse_duration_overflow() {
    let e = parse_duration("18446744073709551616ns").unwrap_err();
    assert_eq!(e.kind, ParseErrorKind::Overflow);
    let e = parse_duration("5124096h").unwrap_err();
    assert_eq!(e.kind, ParseErrorKind::Overflow);
    assert_eq!(e.input, "5124096h");
    assert_eq!(parse_duration("5124095h").unwrap().as_nanos(), 5_124_095 * 3600 * SEC);
    assert_eq!(parse_duration("18446744073709551615ns").unwrap().as_nanos(), u64::MAX);
}

#[test]
fn duration_round_trip() {
    for n in [0u64, 1, 999, 1_000, 1_234_000, 7 * SEC, 90 * SEC, 3600 * SEC, u64::MAX] {
        let d = DurationConf::new(n);
        assert_eq!(parse_duration(&format_duration(d)).unwrap(), d);
    }
}

#[test]
fn parse_duration_allows_unicode_spaces() {
    assert_eq!(parse_duration("5\u{a0}s").unwrap().as_nanos(), 5 * SEC);
    assert_eq!(parse_duration("\u{3000}2\u{2009}ms\u{85}").unwrap().as_nanos(), 2_000_000);
    assert_eq!(parse_duration("5\u{200b}s").unwrap_err().kind, ParseErrorKind::Malformed);
}
