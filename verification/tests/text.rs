use dev_recap::decimal::{decimal, parse_u32};
use dev_recap::github::{insert_sorted, trim_end_matches};
use dev_recap::text::{
    chars_of, contains, find_at, find_from, is_whitespace, join_from, lines, matches_at, slice,
    starts_with,
    string_of, string_of_range, strip_prefix, trim,
};

fn chars(s: &str) -> Vec<char> {
    s.chars().collect()
}

fn text(v: &Vec<char>) -> String {
    v.iter().collect()
}

#[test]
fn test_chars_and_strings_round_trip() {
    let s = "héllo wörld ✓";
    assert_eq!(chars_of(s), chars(s));
    assert_eq!(string_of(&chars(s)), s);
    assert_eq!(string_of_range(&chars(s), 1, 5), "éllo");
    assert_eq!(text(&slice(&chars(s), 6, 11)), "wörld");
    assert_eq!(chars_of(""), Vec::<char>::new());
}

#[test]
fn test_trim_is_unicode_white_space() {
    assert_eq!(text(&trim(&chars("  a b \t\r\n"))), "a b");
    assert_eq!(text(&trim(&chars("\u{a0}\u{3000}x\u{2003}"))), "x");
    assert_eq!(text(&trim(&chars(" \n "))), "");
    assert_eq!(text(&trim(&chars(""))), "");
    assert_eq!(text(&trim(&chars("\u{200b}x"))), "\u{200b}x");
    for sample in ["  a b \t", "\u{a0}x\u{85}", "", "   ", "no-space"] {
        assert_eq!(text(&trim(&chars(sample))), sample.trim());
    }
}

#[test]
fn test_lines_as_the_standard_library_splits() {
    for sample in [
        "",
        "a",
        "a\n",
        "a\nb",
        "a\r\nb\r\n",
        "\n",
        "\n\n",
        "a\n\nb",
        "a\rb\n",
        "a\r",
        "\r\n",
        "a\r\r\nb",
        "tail\n\r",
    ] {
        let expected: Vec<String> = sample.lines().map(String::from).collect();
        let got: Vec<String> = lines(&chars(sample)).iter().map(text).collect();
        assert_eq!(got, expected, "for {:?}", sample);
    }
}

#[test]
fn test_join_from() {
    let parts = vec![chars("a"), chars(""), chars("bc")];
    assert_eq!(text(&join_from(&parts, 0, &chars(", "))), "a, , bc");
    assert_eq!(text(&join_from(&parts, 1, &chars("\n"))), "\nbc");
    assert_eq!(text(&join_from(&parts, 2, &chars("\n"))), "bc");
    assert_eq!(text(&join_from(&parts, 3, &chars("\n"))), "");
}

#[test]
fn test_search() {
    let hay = chars("abcabc");
    assert!(matches_at(&hay, &chars("bc"), 1));
    assert!(!matches_at(&hay, &chars("bc"), 2));
    assert!(!matches_at(&hay, &chars("bc"), 5));
    assert!(matches_at(&hay, &chars(""), 6));
    assert!(!matches_at(&hay, &chars(""), 7));
    assert!(starts_with(&hay, &chars("abc")));
    assert!(!starts_with(&hay, &chars("bc")));
    assert!(contains(&hay, &chars("ca")));
    assert!(contains(&hay, &chars("")));
    assert!(!contains(&hay, &chars("cc")));
    assert!(!contains(&chars(""), &chars("a")));
    assert_eq!(find_from(&hay, &chars("bc"), 0), Some(1));
    assert_eq!(find_from(&hay, &chars("bc"), 2), Some(4));
    assert_eq!(find_from(&hay, &chars("bc"), 5), None);
    assert_eq!(find_at(&hay, &chars("bc"), 0), Some(1));
    assert_eq!(find_at(&hay, &chars("bc"), 2), Some(4));
    assert_eq!(find_at(&hay, &chars("bc"), 5), None);
    assert_eq!(find_at(&hay, &chars(""), 6), Some(6));
    assert_eq!(find_at(&hay, &chars(""), 7), None);
    assert_eq!(strip_prefix(&hay, &chars("ab")).map(|v| text(&v)), Some("cabc".to_string()));
    assert_eq!(strip_prefix(&hay, &chars("b")), None);
}

#[test]
fn test_trim_end_matches() {
    assert_eq!(text(&trim_end_matches(&chars("a.git.git"), &chars(".git"))), "a");
    assert_eq!(text(&trim_end_matches(&chars("a.gitx"), &chars(".git"))), "a.gitx");
    assert_eq!(text(&trim_end_matches(&chars(".git"), &chars(".git"))), "");
    assert_eq!(text(&trim_end_matches(&chars("abc"), &chars(""))), "abc");
    for (s, suffix) in [("repo.git", ".git"), ("x//", "/"), ("aaa", "a"), ("ab", "abc")] {
        assert_eq!(text(&trim_end_matches(&chars(s), &chars(suffix))), s.trim_end_matches(suffix));
    }
}

#[test]
fn test_decimal_writes_as_the_standard_library() {
    for n in [0u64, 1, 9, 10, 99, 100, 12345, u32::MAX as u64, u64::MAX] {
        assert_eq!(text(&decimal(n)), n.to_string());
    }
}

#[test]
fn test_parse_u32_reads_as_the_standard_library() {
    for sample in [
        "0", "7", "007", "+5", "+", "", "-1", "12a", " 1", "4294967295", "4294967296",
        "99999999999999999999", "++1", "1+", "٣",
    ] {
        assert_eq!(parse_u32(&chars(sample)), sample.parse::<u32>().ok(), "for {:?}", sample);
    }
}

#[test]
fn test_insert_sorted() {
    let mut v: Vec<u32> = vec![];
    for n in [5, 1, 9, 5, 0, 9, 3] {
        insert_sorted(&mut v, n);
    }
    assert_eq!(v, vec![0, 1, 3, 5, 9]);
}

#[test]
fn test_is_whitespace_agrees_with_the_standard_library_on_every_character() {
    let mut count = 0;
    for n in 0..=0x10ffffu32 {
        if let Some(c) = char::from_u32(n) {
            assert_eq!(is_whitespace(c), c.is_whitespace(), "for U+{:04X}", n);
            if is_whitespace(c) {
                count += 1;
            }
        }
    }
    assert_eq!(count, 25);
}
