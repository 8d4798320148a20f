//! Tests for the text primitives.

use lob::path::join_path;
use lob::text::{
    begins_at, chars_of, cut, drop_trailing_spaces_in, find_in, has, index_after_last_char,
    index_of_char, is_number_in, is_space_char, same_text, skip_spaces_in, split_lines,
};

fn chars(s: &str) -> Vec<char> {
    s.chars().collect()
}

#[test]
fn lines_are_split_as_the_standard_library_splits_them() {
    for text in [
        "",
        "\n",
        "a",
        "a\n",
        "a\nb",
        "a\n\nb\n",
        "a\r\nb\r\n",
        "a\r",
        "a\rb\n",
        "\r\n",
        "\r",
        "\n\n\n",
        "a\r\r\nb",
        "✗ x\ny • z\n",
    ] {
        let expected: Vec<String> = text.lines().map(|l| l.to_string()).collect();
        assert_eq!(split_lines(text), expected);
    }
}

#[test]
fn white_space_is_what_the_standard_library_trims() {
    for code in 0..0x3100u32 {
        if let Some(c) = char::from_u32(code) {
            assert_eq!(is_space_char(c), c.is_whitespace());
        }
    }
    assert!(!is_space_char('\u{feff}'));
    assert!(!is_space_char('\u{10ffff}'));
}

#[test]
fn trimming_by_index() {
    let s = chars("  \t hello  world \n");
    assert_eq!(skip_spaces_in(&s, 0, s.len()), 4);
    assert_eq!(skip_spaces_in(&s, 9, s.len()), 11);
    assert_eq!(skip_spaces_in(&s, 16, s.len()), 18);
    assert_eq!(skip_spaces_in(&s, 0, 3), 3);
    assert_eq!(drop_trailing_spaces_in(&s, 0, s.len()), 16);
    assert_eq!(drop_trailing_spaces_in(&s, 0, 4), 0);
    assert_eq!(drop_trailing_spaces_in(&s, 4, 11), 9);
}

#[test]
fn searching() {
    let s = chars("abcabcab");
    let needle = chars("cab");
    assert_eq!(find_in(&s, &needle, 0), Some(2));
    assert_eq!(find_in(&s, &needle, 3), Some(5));
    assert_eq!(find_in(&s, &needle, 6), None);
    assert_eq!(find_in(&s, &chars(""), 8), Some(8));
    assert_eq!(find_in(&s, &chars(""), 9), None);
    assert_eq!(find_in(&s, &chars("abcabcabc"), 0), None);
    assert!(has(&s, "bca"));
    assert!(has(&s, ""));
    assert!(has(&s, "abcabcab"));
    assert!(!has(&s, "ba"));
    assert!(begins_at(&s, 3, "abc"));
    assert!(!begins_at(&s, 6, "abc"));
    assert!(!begins_at(&s, 9, ""));
    assert_eq!(index_of_char(&s, 'c', 0, 8), 2);
    assert_eq!(index_of_char(&s, 'c', 3, 5), 5);
    assert_eq!(index_of_char(&s, 'x', 0, 8), 8);
    assert_eq!(index_after_last_char(&s, 'c', 0, 8), 6);
    assert_eq!(index_after_last_char(&s, 'c', 0, 5), 3);
    assert_eq!(index_after_last_char(&s, 'x', 2, 8), 2);
}

#[test]
fn numbers() {
    let s = chars("12a 007 +5 ٣");
    assert!(is_number_in(&s, 0, 2));
    assert!(!is_number_in(&s, 0, 3));
    assert!(is_number_in(&s, 4, 7));
    assert!(!is_number_in(&s, 8, 10));
    assert!(!is_number_in(&s, 11, 12));
    assert!(!is_number_in(&s, 5, 5));
}

#[test]
fn cutting_and_comparing() {
    assert_eq!(chars_of("a✗b"), vec!['a', '✗', 'b']);
    assert_eq!(cut("a✗b•c", 1, 4), "✗b•");
    assert_eq!(cut("abc", 3, 3), "");
    assert!(same_text("jsonl", "jsonl"));
    assert!(!same_text("jsonl", "json"));
    assert!(!same_text("jsona", "jsonl"));
    assert!(same_text("", ""));
}

#[test]
fn joining_paths() {
    assert_eq!(join_path("/a/b", "c"), "/a/b/c");
    assert_eq!(join_path("/a/b/", "c"), "/a/b/c");
    assert_eq!(join_path("/", "target/debug"), "/target/debug");
    assert_eq!(join_path("", "c"), "c");
    assert_eq!(join_path("a", "b/c.rs"), "a/b/c.rs");
    for (dir, name) in [("/a/b", "c"), ("/a/b/", "c"), ("/", "t/d"), ("", "c"), ("a", "b")] {
        assert_eq!(
            join_path(dir, name),
            std::path::Path::new(dir).join(name).to_str().unwrap()
        );
    }
}
