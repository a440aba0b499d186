use gptcommit::lines::{distinct_lines, join_with_line_feeds, unique_lines, without_repeats};
use gptcommit::text::{contains_str, is_white_space_char, join, str_eq, to_chars, trim};

#[test]
fn unique_lines_drops_repeats_anywhere_above() {
    assert_eq!(unique_lines("a\nb\na\nc\nb"), "a\nb\nc");
    assert_eq!(unique_lines("title\n\nbody\n\n[f]\nbody\n"), "title\n\nbody\n[f]");
}

#[test]
fn unique_lines_keeps_what_does_not_repeat() {
    assert_eq!(unique_lines(""), "");
    assert_eq!(unique_lines("one line"), "one line");
    assert_eq!(unique_lines("a\nb"), "a\nb");
    assert_eq!(unique_lines("\n"), "");
}

#[test]
fn unique_lines_reads_lines_as_a_text_file_is_read() {
    // the line feed at the end ends the last line and begins no new one
    assert_eq!(unique_lines("a\n"), "a");
    assert_eq!(unique_lines("a\nb\n"), "a\nb");
    // a carriage return before a line feed belongs to the end of the line
    assert_eq!(unique_lines("a\r\nb\na"), "a\nb");
    assert_eq!(unique_lines("a\r\na\n"), "a");
    // elsewhere it belongs to the line
    assert_eq!(unique_lines("a\rb\na\r"), "a\rb\na\r");
    for message in ["", "a", "a\n\nb", "a\r\n\r\nb\r\na\n", "\n\n", "x\ny\nx\n\ny\n"] {
        let mut kept: Vec<&str> = Vec::new();
        for line in message.lines() {
            if !kept.contains(&line) {
                kept.push(line);
            }
        }
        assert_eq!(unique_lines(message), kept.join("\n"), "{:?}", message);
    }
}

#[test]
fn unique_lines_twice_is_unique_lines_once() {
    for message in ["", "\n", "\n\n", "a\nb\na\n", "x\n\ny\n\nx\nz\n\n", "a\r\na\n\r", "\na"] {
        let once = unique_lines(message);
        assert_eq!(unique_lines(&once), once, "{:?}", message);
    }
}

#[test]
fn unique_lines_twice_differs_where_the_lines_are_not_settled() {
    // an empty line is the last of several lines left
    assert_eq!(unique_lines("x\n\n"), "x\n");
    assert_eq!(unique_lines("x\n"), "x");
    // a line that is left ends in a carriage return
    assert_eq!(unique_lines("a\r\r\nb"), "a\r\nb");
    assert_eq!(unique_lines("a\r\nb"), "a\nb");
}

#[test]
fn unique_lines_leave_something_of_every_line_that_is_not_empty() {
    assert_eq!(unique_lines("\r\n\n\r\n"), "");
    assert_eq!(unique_lines("\n\n \n"), "\n ");
    assert_eq!(unique_lines("\r\r\n"), "\r");
}

#[test]
fn distinct_lines_keeps_the_first_of_equal_lines() {
    assert_eq!(distinct_lines("b\na\nb\n\na"), vec!["b", "a", ""]);
    assert_eq!(distinct_lines("b\na\nb\n\na\n"), vec!["b", "a", ""]);
    assert!(distinct_lines("").is_empty());
    let lines = vec!["x".to_string(), "".to_string(), "x".to_string(), "".to_string()];
    assert_eq!(without_repeats(&lines), vec!["x", ""]);
}

#[test]
fn joining_puts_the_separator_between() {
    let parts = vec!["a".to_string(), "".to_string(), "b".to_string()];
    assert_eq!(join_with_line_feeds(&parts), "a\n\nb");
    assert_eq!(join(&parts, ", "), "a, , b");
    assert_eq!(join(&Vec::new(), ", "), "");
    assert_eq!(join(&vec!["only".to_string()], ", "), "only");
}

#[test]
fn trim_removes_white_space_at_both_ends() {
    assert_eq!(trim("  a b \n"), "a b");
    assert_eq!(trim("\u{a0}\u{3000}x\u{2003}"), "x");
    assert_eq!(trim(" \t\r\n"), "");
    assert_eq!(trim(""), "");
    assert_eq!(trim("x"), "x");
}

#[test]
fn text_helpers_compare_by_characters() {
    assert!(str_eq("\u{e9}t\u{e9}", "\u{e9}t\u{e9}"));
    assert!(!str_eq("a", "ab"));
    assert!(!str_eq("ab", "ac"));
    assert_eq!(to_chars("a\u{e9}"), vec!['a', '\u{e9}']);
    assert!(contains_str(&vec!["a".to_string(), "b".to_string()], "b"));
    assert!(!contains_str(&vec!["a".to_string()], "A"));
}

#[test]
fn white_space_is_what_unicode_says() {
    for code in 0..=0x10FFFF_u32 {
        if let Some(c) = char::from_u32(code) {
            assert_eq!(is_white_space_char(c), c.is_whitespace(), "U+{:04X}", code);
        }
    }
}

#[test]
fn trim_agrees_with_the_standard_library() {
    for text in ["", " ", "a", " a", "a ", "\u{85}a\u{2028}b\u{205f}", "\u{180e}a\u{200b}", "\t\n\x0b\x0c\r x \u{1680}"] {
        assert_eq!(trim(text), text.trim(), "{:?}", text);
    }
}
