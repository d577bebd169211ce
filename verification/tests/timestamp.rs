use grok_anthropic_bridge::timestamp::{
    days_from_civil, is_expired, parse_rfc3339_secs, parse_zulu,
};

#[test]
fn parse_zulu_roundtrip_known() {
    // 1970-01-01T00:00:00Z
    assert_eq!(parse_zulu("1970-01-01T00:00:00Z"), Some(0));
}

#[test]
fn known_times_are_read() {
    assert_eq!(parse_zulu("2026-07-20T18:00:00Z"), Some(1_784_570_400));
    assert_eq!(parse_zulu("2000-02-29T12:34:56.789Z"), Some(951_827_696));
    assert_eq!(parse_zulu("1969-12-31T23:59:59Z"), Some(-1));
    assert_eq!(parse_rfc3339_secs("  1970-01-02T00:00:00Z\n"), Some(86_400));
}

#[test]
fn other_shapes_are_not_read() {
    assert_eq!(parse_zulu(""), None);
    assert_eq!(parse_zulu("1970-01-01T00:00:00"), None);
    assert_eq!(parse_zulu("1970-01-01 00:00:00Z"), None);
    assert_eq!(parse_zulu("1970-01T00:00:00Z"), None);
    assert_eq!(parse_zulu("1970-13-01T00:00:00Z"), None);
    assert_eq!(parse_zulu("1970-01-32T00:00:00Z"), None);
    assert_eq!(parse_zulu("1970-01-01T00:00Z"), None);
    assert_eq!(parse_zulu("x-01-01T00:00:00Z"), None);
    assert_eq!(parse_rfc3339_secs("1970-01-01T00:00:00+00:00"), None);
}

#[test]
fn civil_days_are_counted() {
    assert_eq!(days_from_civil(1970, 1, 1), Some(0));
    assert_eq!(days_from_civil(1970, 12, 31), Some(364));
    assert_eq!(days_from_civil(2000, 3, 1), Some(11_017));
    assert_eq!(days_from_civil(2000, 2, 29), Some(11_016));
    assert_eq!(days_from_civil(1, 1, 1), Some(-719_162));
    assert_eq!(days_from_civil(1970, 2, 31), days_from_civil(1970, 3, 3));
    assert_eq!(days_from_civil(1970, 0, 1), None);
    assert_eq!(days_from_civil(1970, 1, 0), None);
}

#[test]
fn days_follow_each_other_across_a_leap_year() {
    let lengths = [31, 29, 31, 30, 31, 30, 31, 31, 30, 31, 30, 31];
    let mut expected = days_from_civil(2024, 1, 1).unwrap();
    for (m, len) in lengths.iter().enumerate() {
        for d in 1..=*len {
            assert_eq!(days_from_civil(2024, m as i64 + 1, d), Some(expected));
            expected += 1;
        }
    }
    assert_eq!(days_from_civil(2025, 1, 1), Some(expected));
}

#[test]
fn an_unreadable_expiry_is_not_expired() {
    assert!(!is_expired("whenever", i64::MAX));
    assert!(is_expired("1970-01-01T00:01:00Z", 0));
    assert!(!is_expired("1970-01-01T00:01:01Z", 0));
}
