use retcon::commit::Timestamp;
use retcon::error::RetconError;
use retcon::validation::{format_date_for_edit, format_date_short, trim_spaces, validate_date, validate_email};

#[test]
fn test_valid_emails() {
    assert!(validate_email("user@example.com").is_ok());
    assert!(validate_email("user.name@example.co.uk").is_ok());
    assert!(validate_email("user+tag@example.com").is_ok());
}

#[test]
fn test_invalid_emails() {
    assert!(validate_email("invalid").is_err());
    assert!(validate_email("@example.com").is_err());
    assert!(validate_email("user@").is_err());
    assert!(validate_email("user@example").is_err());
    assert!(validate_email("user @example.com").is_err());
}

#[test]
fn test_email_with_plus_sign() {
    assert!(validate_email("user+tag@example.com").is_ok());
    assert!(validate_email("test+123@test.co.uk").is_ok());
}

#[test]
fn test_email_with_dots() {
    assert!(validate_email("first.last@example.com").is_ok());
    assert!(validate_email("a.b.c@test.org").is_ok());
}

#[test]
fn test_email_subdomain() {
    assert!(validate_email("user@mail.example.com").is_ok());
    assert!(validate_email("test@subdomain.mail.example.com").is_ok());
}

#[test]
fn test_email_no_domain() {
    assert!(validate_email("user@nodomain").is_err());
}

#[test]
fn test_email_multiple_at_signs() {
    assert!(validate_email("user@@example.com").is_err());
    assert!(validate_email("user@test@example.com").is_err());
}

#[test]
fn test_email_dot_at_start_or_end_of_domain() {
    assert!(validate_email("user@.example.com").is_err());
    assert!(validate_email("user@example.com.").is_err());
    assert!(validate_email("user@.example.com.").is_err());
}

#[test]
fn test_email_empty_parts() {
    assert!(validate_email("@example.com").is_err());
    assert!(validate_email("user@").is_err());
    assert!(validate_email("@").is_err());
}

#[test]
fn email_examples_from_the_rules() {
    assert!(validate_email("user@example.com").is_ok());
    assert!(validate_email("a.b+tag@sub.example.co.uk").is_ok());
    for bad in ["user@", "@x.com", "user@domain", "a b@x.com", "user@.x.com", "user@x.com."] {
        assert_eq!(validate_email(bad), Err(RetconError::InvalidEmail(bad.to_string())));
    }
}

#[test]
fn email_rejects_any_white_space() {
    assert!(validate_email("user@exa\tmple.com").is_err());
    assert!(validate_email("user@example.com\n").is_err());
    assert!(validate_email("us\u{a0}er@example.com").is_err());
}

#[test]
fn test_valid_dates() {
    assert!(validate_date("2024-01-15 14:30:00 +0000").is_ok());
    assert!(validate_date("2024-01-15 14:30:00").is_ok());
    assert!(validate_date("2024-01-15 14:30").is_ok());
    assert!(validate_date("2024-01-15").is_ok());
}

#[test]
fn test_invalid_dates() {
    assert!(validate_date("invalid").is_err());
    assert!(validate_date("15-01-2024").is_err());
    assert!(validate_date("2024/01/15").is_err());
}

#[test]
fn test_date_roundtrip() {
    let original = "2024-01-15 14:30:00 +0530";
    let parsed = validate_date(original).unwrap();
    let formatted = format_date_for_edit(&parsed);
    let reparsed = validate_date(&formatted).unwrap();
    assert_eq!(parsed, reparsed);
}

#[test]
fn canonical_date_text_survives_parse_and_format() {
    for s in ["2024-01-15 14:30:00 +0530", "1999-12-31 23:59:59 -0800", "2024-02-29 00:00:00 +0000"] {
        let parsed = validate_date(s).unwrap();
        assert_eq!(format_date_for_edit(&parsed), s);
        assert_eq!(validate_date(&format_date_for_edit(&parsed)).unwrap(), parsed);
    }
    let short = validate_date("2024-01-15 14:30").unwrap();
    assert_eq!(format_date_for_edit(&short), "2024-01-15 14:30:00 +0000");
}

#[test]
fn test_date_with_timezone_variations() {
    assert!(validate_date("2024-01-15 14:30:00 +0000").is_ok());
    assert!(validate_date("2024-01-15 14:30:00 -0800").is_ok());
    assert!(validate_date("2024-01-15 14:30:00 +0530").is_ok());
    assert!(validate_date("2024-01-15 14:30:00+0000").is_ok());
    assert!(validate_date("2024-01-15 14:30:00-0800").is_ok());
}

#[test]
fn test_date_utc_default() {
    let dt = validate_date("2024-01-15 14:30:00").unwrap();
    assert_eq!(dt.offset_seconds, 0);
}

#[test]
fn test_date_midnight_default() {
    let dt = validate_date("2024-01-15").unwrap();
    assert_eq!(dt.seconds, 1_705_276_800);
    assert_eq!(dt.seconds % 86_400, 0);
    assert_eq!(dt.offset_seconds, 0);
}

#[test]
fn test_date_with_seconds_zero() {
    let dt = validate_date("2024-01-15 14:30").unwrap();
    assert_eq!(dt.seconds % 60, 0);
    assert_eq!(dt.seconds, 1_705_329_000);
}

#[test]
fn test_date_edge_cases() {
    assert!(validate_date("2024-02-29 12:00:00").is_ok());
    assert!(validate_date("2023-02-29 12:00:00").is_err());
    assert!(validate_date("2024-12-31 23:59:59").is_ok());
    assert!(validate_date("2024-01-01 00:00:00").is_ok());
}

#[test]
fn test_date_invalid_formats() {
    assert!(validate_date("2024/01/15 14:30:00").is_err());
    assert!(validate_date("2024.01.15 14:30:00").is_err());
    assert!(validate_date("15-01-2024 14:30:00").is_err());
    assert!(validate_date("01-15-2024 14:30:00").is_err());
    assert!(validate_date("2024-01 14:30:00").is_err());
    assert!(validate_date("2024 14:30:00").is_err());
}

#[test]
fn test_date_invalid_values() {
    assert!(validate_date("2024-13-15 14:30:00").is_err());
    assert!(validate_date("2024-00-15 14:30:00").is_err());
    assert!(validate_date("2024-01-32 14:30:00").is_err());
    assert!(validate_date("2024-01-00 14:30:00").is_err());
    assert!(validate_date("2024-01-15 24:30:00").is_err());
    assert!(validate_date("2024-01-15 14:60:00").is_err());
    assert!(validate_date("2024-01-15 14:30:61").is_err());
}

#[test]
fn test_date_whitespace_handling() {
    assert!(validate_date("  2024-01-15 14:30:00  ").is_ok());
    assert!(validate_date("\t2024-01-15 14:30:00\t").is_ok());
}

#[test]
fn invalid_date_reports_the_trimmed_text() {
    assert_eq!(
        validate_date("  not a date "),
        Err(RetconError::InvalidDate("not a date".to_string()))
    );
    assert_eq!(trim_spaces(" \t x y \n"), "x y");
    assert_eq!(trim_spaces("   "), "");
}

#[test]
fn test_format_date_for_edit() {
    let dt = Timestamp { seconds: 1_705_309_245, offset_seconds: 5 * 3600 + 30 * 60 };
    assert_eq!(format_date_for_edit(&dt), "2024-01-15 14:30:45 +0530");
}

#[test]
fn test_format_date_for_edit_negative_offset() {
    let dt = Timestamp { seconds: 1_705_357_845, offset_seconds: -8 * 3600 };
    assert_eq!(format_date_for_edit(&dt), "2024-01-15 14:30:45 -0800");
}

#[test]
fn short_date_format_drops_seconds() {
    let dt = Timestamp { seconds: 1_705_329_000, offset_seconds: 0 };
    assert_eq!(format_date_short(&dt), "2024-01-15 14:30");
}

#[test]
fn test_date_timezone_preservation() {
    let dt = validate_date("2024-01-15 14:30:00 +0530").unwrap();
    assert_eq!(dt.offset_seconds, 5 * 3600 + 30 * 60);
    assert_eq!(dt.seconds, 1_705_309_200);
    let dt_negative = validate_date("2024-01-15 14:30:00 -0800").unwrap();
    assert_eq!(dt_negative.offset_seconds, -8 * 3600);
}

#[test]
fn test_validation_integration() {
    assert!(validate_email("user@example.com").is_ok());
    assert!(validate_email("invalid").is_err());
    assert!(validate_date("2024-01-15 14:30:00 +0000").is_ok());
    assert!(validate_date("invalid-date").is_err());
}
