use grok_anthropic_bridge::text::{
    contains, contains_in_lower, cut, ends_with, make_file_safe, pad, parse_i64, parse_unsigned,
    split, split_once, starts_with, to_decimal, trim, wide_to_decimal, word,
};

#[test]
fn trimming_matches_std() {
    for s in ["", " ", "a", "\t a b \u{85}\u{a0}", "\u{3000}x\u{200b}", "\u{1680}\u{205f}y\u{2029}"] {
        assert_eq!(trim(s), s.trim());
        assert_eq!(word(&trim(s)), s.split_whitespace().next().unwrap_or(""));
    }
}

#[test]
fn splitting_matches_std() {
    for s in ["", "-", "a", "a-b", "-a--b-"] {
        let expected: Vec<&str> = s.split('-').collect();
        assert_eq!(split(s, '-'), expected);
        let once = s.split_once('-').map(|(a, b)| (a.to_string(), b.to_string()));
        assert_eq!(split_once(s, '-'), once);
    }
}

#[test]
fn numbers_are_read_as_std_does() {
    for s in [
        "", "-", "+", "0", "-0", "+7", "007", "1a", " 1", "9223372036854775807",
        "9223372036854775808", "-9223372036854775808", "-9223372036854775809", "--1",
    ] {
        assert_eq!(parse_i64(s), s.parse::<i64>().ok(), "{s}");
        assert_eq!(parse_unsigned(s, u64::MAX), s.parse::<u64>().ok(), "{s}");
        assert_eq!(parse_unsigned(s, 65535), s.parse::<u16>().ok().map(u64::from), "{s}");
    }
}

#[test]
fn numbers_are_written_as_std_does() {
    for n in [0, 9, 10, 1_234_567_890, u64::MAX] {
        assert_eq!(to_decimal(n), n.to_string());
    }
    assert_eq!(wide_to_decimal(u128::MAX), u128::MAX.to_string());
}

#[test]
fn searching_matches_std() {
    assert!(contains("abcabd", "abd") && !contains("abcab", "abd"));
    assert!(contains("", "") && contains("x", ""));
    assert!(contains_in_lower("XÄ401", "xÄ4") && !contains_in_lower("XÄ", "xä"));
    assert!(starts_with("añb", "añ") && !starts_with("a", "ab"));
    assert!(ends_with("bañ", "añ") && !ends_with("b", "ab"));
}

#[test]
fn cutting_keeps_characters_whole() {
    assert_eq!(cut("aéb", 3).as_deref(), Some("aé"));
    assert_eq!(cut("aéb", 2), None);
    assert_eq!(cut("aéb", 0).as_deref(), Some(""));
    assert_eq!(cut("aéb", 9), None);
    assert_eq!(pad("7", 3), "7  ");
    assert_eq!(pad("1234", 3), "1234");
    assert_eq!(make_file_safe("a/b\\c d.e"), "a_b_c_d.e");
}
