use config_types::{parse_byte_size, ByteSizeConf, ParseErrorKind};

#[test]
fn test_parse_byte_size() {
    assert_eq!(parse_byte_size("1b").unwrap(), 1);
    assert_eq!(parse_byte_size("1kb").unwrap(), 1000);
    assert_eq!(parse_byte_size("1ki").unwrap(), 1024);
    assert_eq!(parse_byte_size("1mb").unwrap(), 1000 * 1000);
    assert_eq!(parse_byte_size("1mi").unwrap(), 1024 * 1024);
    assert_eq!(parse_byte_size("1gb").unwrap(), 1000 * 1000 * 1000);
    assert_eq!(parse_byte_size("1gi").unwrap(), 1024 * 1024 * 1024);
    assert_eq!(parse_byte_size("1tb").unwrap(), 1000 * 1000 * 1000 * 1000);
    assert_eq!(parse_byte_size("1ti").unwrap(), 1024 * 1024 * 1024 * 1024);
}

#[test]
fn test_byte_size_display() {
    assert_eq!(ByteSizeConf::new(1).to_string(), "1 bytes");
    assert_eq!(ByteSizeConf::new(1024).to_string(), "1 KiB");
    assert_eq!(ByteSizeConf::new(1024 * 1024).to_string(), "1 MiB");
    assert_eq!(ByteSizeConf::new(1024 * 1024 * 1024).to_string(), "1 GiB");
}

#[test]
fn byte_size_display_truncates() {
    assert_eq!(ByteSizeConf::new(1030).to_string(), "1 KiB");
    assert_eq!(ByteSizeConf::new(2047).to_string(), "1 KiB");
    assert_eq!(ByteSizeConf::new(1023).to_string(), "1023 bytes");
    assert_eq!(ByteSizeConf::new(0).to_string(), "0 bytes");
    assert_eq!(ByteSizeConf::new(1_048_575).to_string(), "1023 KiB");
    assert_eq!(ByteSizeConf::new(5 * 1024 * 1024 * 1024 * 1024).to_string(), "5120 GiB");
    assert_eq!(ByteSizeConf::new(u64::MAX).to_string(), "17179869183 GiB");
}

#[test]
fn decimal_size_shown_in_binary_units_is_lossy() {
    let n = parse_byte_size("1mb").unwrap();
    assert_eq!(ByteSizeConf::new(n).to_string(), "976 KiB");
    assert!(parse_byte_size(&ByteSizeConf::new(n).to_string()).is_err());
}

#[test]
fn byte_size_unit_arithmetic() {
    assert_eq!(parse_byte_size("1ki").unwrap(), 1024);
    assert_eq!(parse_byte_size("1kb").unwrap(), 1000);
    assert_eq!(parse_byte_size("1gi").unwrap(), 1_073_741_824);
}

#[test]
fn byte_size_units_ignore_case() {
    assert_eq!(parse_byte_size("2KB").unwrap(), 2000);
    assert_eq!(parse_byte_size("2Ki").unwrap(), 2048);
    assert_eq!(parse_byte_size(" 7 B ").unwrap(), 7);
    assert_eq!(ByteSizeConf::parse("4Gi").unwrap().as_bytes(), 4 * 1_073_741_824);
}

#[test]
fn byte_size_rejects_malformed() {
    for s in ["5", "5xb", "-5kb", "5.5kb", "", "kb", "5 kib", "5 KiB"] {
        let e = parse_byte_size(s).unwrap_err();
        assert_eq!(e.kind, ParseErrorKind::Malformed);
        assert_eq!(e.input, s);
    }
}

#[test]
fn byte_size_overflow() {
    let e = parse_byte_size("16777216ti").unwrap_err();
    assert_eq!(e.kind, ParseErrorKind::Overflow);
    assert_eq!(parse_byte_size("16777215ti").unwrap(), 16_777_215 * 1_099_511_627_776);
    let e = parse_byte_size("99999999999999999999b").unwrap_err();
    assert_eq!(e.kind, ParseErrorKind::Overflow);
}

#[test]
fn byte_size_accessors() {
    let s = ByteSizeConf::new(3_500_000_000);
    assert_eq!(s.as_bytes(), 3_500_000_000);
    assert_eq!(s.as_kilobytes(), 3_500_000);
    assert_eq!(s.as_kibibytes(), 3_417_968);
    assert_eq!(s.as_megabytes(), 3_500);
    assert_eq!(s.as_mebibytes(), 3_337);
    assert_eq!(s.as_gigabytes(), 3);
    assert_eq!(s.as_gibibytes(), 3);
}

#[test]
fn byte_size_kelvin_sign_lowers_to_k() {
    assert_eq!(parse_byte_size("1\u{212a}b").unwrap(), 1000);
    assert_eq!(parse_byte_size("1\u{212a}i").unwrap(), 1024);
    assert_eq!(parse_byte_size("1\u{212a}I").unwrap(), 1024);
}

#[test]
fn byte_size_allows_unicode_spaces() {
    assert_eq!(parse_byte_size("3\u{a0}mi").unwrap(), 3 * 1_048_576);
    assert_eq!(parse_byte_size("\u{2028}3 gb\u{202f}").unwrap(), 3_000_000_000);
}
