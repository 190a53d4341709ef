use flowy::clock::{format_hm, format_hms, parse_hm, render_local_hm, render_local_hms, unix_to_local};
use flowy::text::{
    contains_substr, remove_char, sort_strings, starts_with_str, str_eq, str_lex_le, strip_prefix_str,
    trim_spaces,
};
use flowy::time_to_minutes;
use chrono::Timelike;

#[test]
fn format_hm_pads_both_parts() {
    assert_eq!(format_hm(6, 5), "06:05");
    assert_eq!(format_hm(0, 0), "00:00");
    assert_eq!(format_hm(23, 59), "23:59");
}

#[test]
fn format_hms_appends_seconds() {
    assert_eq!(format_hms(7, 30, 9), "07:30:09");
}

#[test]
fn parse_hm_reads_minutes_of_day() {
    assert_eq!(parse_hm("00:00"), Some(0));
    assert_eq!(parse_hm("06:05"), Some(365));
    assert_eq!(parse_hm("23:59"), Some(1439));
}

#[test]
fn parse_hm_rejects_malformed_strings() {
    assert_eq!(parse_hm("6:00"), None);
    assert_eq!(parse_hm("24:00"), None);
    assert_eq!(parse_hm("12:60"), None);
    assert_eq!(parse_hm("12-30"), None);
    assert_eq!(parse_hm("ab:cd"), None);
    assert_eq!(parse_hm(""), None);
    assert_eq!(parse_hm("12:300"), None);
}

#[test]
fn parse_hm_inverts_format_hm() {
    for h in [0u32, 1, 12, 23] {
        for m in [0u32, 1, 30, 59] {
            assert_eq!(parse_hm(&format_hm(h, m)), Some(h * 60 + m));
        }
    }
}

#[test]
fn time_to_minutes_drops_seconds() {
    assert_eq!(time_to_minutes(String::from("13:45:59")), 13 * 60 + 45);
    assert_eq!(time_to_minutes(String::from("00:00:00")), 0);
}

#[test]
fn unix_to_local_matches_chrono() {
    for epoch in [0i64, 1_616_630_400, 1_624_492_800, -1] {
        let expected = chrono::DateTime::from_timestamp(epoch, 0)
            .unwrap()
            .with_timezone(&chrono::Local);
        assert_eq!(
            unix_to_local(epoch),
            Some((expected.hour(), expected.minute(), expected.second()))
        );
    }
}

#[test]
fn render_local_hm_matches_chrono_format() {
    let epoch = 1_616_630_400i64;
    let expected = chrono::DateTime::from_timestamp(epoch, 0)
        .unwrap()
        .with_timezone(&chrono::Local)
        .format("%H:%M")
        .to_string();
    assert_eq!(render_local_hm(epoch), Some(expected));
}

#[test]
fn lexicographic_order_on_slices() {
    assert!(str_lex_le("00-DAY.jpg", "01-DAY.jpg"));
    assert!(!str_lex_le("01-DAY.jpg", "00-DAY.jpg"));
    assert!(str_lex_le("abc", "abc"));
    assert!(str_lex_le("ab", "abc"));
    assert!(!str_lex_le("abc", "ab"));
}

#[test]
fn substring_search() {
    assert!(contains_substr("photo-DAY-01.png", "DAY"));
    assert!(!contains_substr("photo-day-01.png", "DAY"));
    assert!(contains_substr("NIGHT", "NIGHT"));
    assert!(contains_substr("anything", ""));
    assert!(!contains_substr("", "NIGHT"));
}

#[test]
fn sorting_keeps_duplicates() {
    let v = vec![
        String::from("b"),
        String::from("a"),
        String::from("b"),
        String::from("00"),
    ];
    let sorted = sort_strings(&v);
    assert_eq!(sorted, vec!["00", "a", "b", "b"]);
}

#[test]
fn prefix_handling() {
    assert!(starts_with_str("file:///x.png", "file://"));
    assert!(!starts_with_str("/x.png", "file://"));
    assert_eq!(
        strip_prefix_str("file:///x.png", "file://"),
        Some(String::from("/x.png"))
    );
    assert_eq!(strip_prefix_str("/x.png", "file://"), None);
    assert!(str_eq("same", "same"));
    assert!(!str_eq("same", "sameness"));
}

#[test]
fn trimming_and_removal() {
    assert_eq!(trim_spaces("  /a/b.png\n"), "/a/b.png");
    assert_eq!(trim_spaces("\t\r\n "), "");
    assert_eq!(trim_spaces("x"), "x");
    assert_eq!(remove_char("\"/a b\"", '"'), "/a b");
    assert_eq!(remove_char("none", 'z'), "none");
}

#[test]
fn render_local_hms_matches_chrono_format() {
    let epoch = 1_624_492_923i64;
    let expected = chrono::DateTime::from_timestamp(epoch, 0)
        .unwrap()
        .with_timezone(&chrono::Local)
        .format("%H:%M:%S")
        .to_string();
    assert_eq!(render_local_hms(epoch), Some(expected));
}
