use dev_recap::prompt::{parse_response, second_of};

#[test]
fn test_parse_response() {
    let response = "\n## Summary\nThis is a test summary.\nIt has multiple lines.\n\n## Key Achievements\n- Achievement 1\n- Achievement 2\n- Achievement 3\n\n## Presentation Tips\n1. Tip number one\n2. Tip number two\n3. Tip number three\n";

    let (summary, achievements, tips) = parse_response(response);

    assert!(summary.contains("test summary"));
    assert_eq!(achievements.len(), 3);
    assert_eq!(achievements[0], "Achievement 1");
    assert_eq!(tips.len(), 3);
    assert_eq!(tips[0], "Tip number one");
}

#[test]
fn test_parse_response_with_asterisk_bullets() {
    let response = "\n## Summary\nTest summary\n\n## Key Achievements\n* Achievement with asterisk\n* Another achievement\n\n## Presentation Tips\n1. First tip\n";

    let (_summary, achievements, tips) = parse_response(response);

    assert_eq!(achievements.len(), 2);
    assert_eq!(achievements[0], "Achievement with asterisk");
    assert_eq!(tips.len(), 1);
}

#[test]
fn test_parse_response_exact() {
    let response = "preface\r\n  ## Summary of it  \r\n  one \r\n\r\n## not a heading\n two\n## Key Achievements\n-  first  \n-second\n* third\n## Presentation Tips\n1. a. b. c\nx. no\n2.none\n3. last";
    let (summary, achievements, tips) = parse_response(response);
    assert_eq!(summary, "one two");
    assert_eq!(achievements, vec!["first", "third"]);
    assert_eq!(tips, vec!["a", "last"]);
}

#[test]
fn test_parse_response_empty() {
    let (summary, achievements, tips) = parse_response("");
    assert_eq!(summary, "");
    assert!(achievements.is_empty());
    assert!(tips.is_empty());
}

#[test]
fn test_second_of() {
    let chars = |s: &str| s.chars().collect::<Vec<char>>();
    let text = |v: Vec<char>| v.into_iter().collect::<String>();
    assert_eq!(text(second_of(&chars("1. a. b"), &chars(". "))), "a");
    assert_eq!(text(second_of(&chars("1. tail"), &chars(". "))), "tail");
    assert_eq!(text(second_of(&chars("none"), &chars(". "))), "");
    assert_eq!(text(second_of(&chars("1. "), &chars(". "))), "");
}

#[test]
fn test_tips_begin_with_a_number() {
    let response = "## Presentation Tips\n1. one\n9. nine\n\u{b2}. squared\n\u{0663}. three\nx. letter\n-1. minus\n10. ten. more\n";
    let (_, _, tips) = parse_response(response);
    assert_eq!(tips, vec!["one", "nine", "squared", "three", "ten"]);
    for c in '0'..='9' {
        let (_, _, tips) = parse_response(&format!("## Presentation Tips\n{}. tip", c));
        assert_eq!(tips, vec!["tip"]);
    }
}
