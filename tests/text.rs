use kdbg::age::{age_at, age_label, dashboard_age};
use kdbg::text::{chars_of, contains, parse_u64, split_fields, split_lines};

#[test]
fn lines_drop_endings() {
    assert_eq!(split_lines("a\r\nb\n"), vec!["a", "b"]);
    assert_eq!(split_lines(""), Vec::<String>::new());
    assert_eq!(split_lines("\n"), vec![""]);
    assert_eq!(split_lines("a\r"), vec!["a\r"]);
    assert_eq!(split_lines("x\n\ny"), vec!["x", "", "y"]);
}

#[test]
fn fields_split_on_any_white_space() {
    assert_eq!(split_fields("  ns\tpod   1m \u{3000}2Mi "), vec!["ns", "pod", "1m", "2Mi"]);
    assert_eq!(split_fields("   "), Vec::<String>::new());
}

#[test]
fn substring_search() {
    assert!(contains("web-7d9f", "7d"));
    assert!(contains("web", ""));
    assert!(!contains("web", "Web"));
    assert!(!contains("we", "web"));
    assert_eq!(chars_of("héllo").len(), 5);
}

#[test]
fn decimal_numbers() {
    assert_eq!(parse_u64("42"), Some(42));
    assert_eq!(parse_u64("+7"), Some(7));
    assert_eq!(parse_u64("+"), None);
    assert_eq!(parse_u64(""), None);
    assert_eq!(parse_u64("-1"), None);
    assert_eq!(parse_u64("1x"), None);
    assert_eq!(parse_u64("18446744073709551615"), Some(u64::MAX));
    assert_eq!(parse_u64("18446744073709551616"), None);
}

#[test]
fn age_labels() {
    assert_eq!(age_label(0), "0s");
    assert_eq!(age_label(59), "59s");
    assert_eq!(age_label(-5), "-5s");
    assert_eq!(age_label(60), "1m");
    assert_eq!(age_label(3599), "59m");
    assert_eq!(age_label(3600), "1h");
    assert_eq!(age_label(86399), "23h");
    assert_eq!(age_label(86400), "1d");
    assert_eq!(age_label(10 * 86400 + 5), "10d");
}

#[test]
fn age_of_timestamps() {
    // 2024-01-01T00:00:00Z is 1704067200 seconds after the epoch.
    assert_eq!(age_at("2024-01-01T00:00:00Z", 1704067200 + 90), "1m");
    assert_eq!(age_at("2024-01-01T01:00:00+01:00", 1704067200 + 7200), "2h");
    assert_eq!(age_at("yesterday", 1704067200), "unknown");
    assert_eq!(age_at("", 1704067200), "unknown");
    assert_eq!(dashboard_age("bad", 120), "2m");
    assert_eq!(dashboard_age("2024-01-01T00:00:00Z", 1704067200 + 30), "30s");
}

#[test]
fn age_of_an_old_pod() {
    // 2000-01-01T00:00:00Z is 946684800 seconds after the epoch.
    assert_eq!(age_at("2000-01-01T00:00:00Z", 946684800 + 3 * 86400 + 7), "3d");
}
