use phpstan_diagnostics_lsp::path::{join, paths_equal};
use phpstan_diagnostics_lsp::text::{
    decimal_string, line_character_range, parse_usize_exec, trimmed,
};

#[test]
fn calculates_the_non_whitespace_line_range_in_utf16_code_units() {
    assert_eq!(
        line_character_range("<?php\n  $value = 😀;  \r\n", 1),
        (2, 14)
    );
}

#[test]
fn line_ranges_at_the_edges() {
    assert_eq!(line_character_range("abc", 0), (0, 3));
    assert_eq!(line_character_range("abc", 5), (0, 0));
    assert_eq!(line_character_range("a\n\t \r\n", 1), (2, 2));
    assert_eq!(line_character_range("", 0), (0, 0));
    assert_eq!(line_character_range("x\n", 1), (0, 0));
}

#[test]
fn writes_and_reads_decimal_numbers() {
    assert_eq!(decimal_string(0), "0");
    assert_eq!(decimal_string(1234567890), "1234567890");
    assert_eq!(parse_usize_exec("0042"), Some(42));
    assert_eq!(parse_usize_exec("+"), None);
    assert_eq!(parse_usize_exec("-1"), None);
    assert_eq!(parse_usize_exec(""), None);
    assert_eq!(parse_usize_exec("4 2"), None);
}

#[test]
fn trims_unicode_white_space() {
    assert_eq!(trimmed("\u{3000} a b \u{a0}\n"), "a b");
    assert_eq!(trimmed("   "), "");
}

#[test]
fn joins_paths() {
    assert_eq!(join("/w", "a/b"), "/w/a/b");
    assert_eq!(join("/w/", "a"), "/w/a");
    assert_eq!(join("/w", "/abs"), "/abs");
    assert_eq!(join("", "rel"), "rel");
    assert_eq!(join("/w", ""), "/w/");
}

#[test]
fn compares_paths_by_components() {
    assert!(paths_equal("/project//Foo.php", "/project/Foo.php"));
    assert!(paths_equal("/a/./b/", "/a/b"));
    assert!(paths_equal("./a", "./a/"));
    assert!(!paths_equal("./a", "a"));
    assert!(!paths_equal("/a", "a"));
    assert!(!paths_equal("/a/../b", "/b"));
    assert!(!paths_equal("/a/b", "/a/c"));
}
