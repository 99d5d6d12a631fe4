use rust_guardian::numerals::{decimal_text, hex_text, parse_u32};
use rust_guardian::ordering::{order_by_key, precedes_or_equals};
use rust_guardian::paths::{extension_of, file_name, path_segments, relative_path, rust_path, test_path};
use rust_guardian::text::{
    chars_of, contains, ends_with, find, replace, same_text, starts_with, string_of, strip_prefix,
};
use rust_guardian::textlines::{lines, split, trim};

fn cs(s: &str) -> Vec<char> {
    s.chars().collect()
}

fn st(v: &[char]) -> String {
    v.iter().collect()
}

fn sts(v: &[Vec<char>]) -> Vec<String> {
    v.iter().map(|x| st(x)).collect()
}

#[test]
fn conversions_round_trip() {
    assert_eq!(chars_of("añ✓"), vec!['a', 'ñ', '✓']);
    assert_eq!(string_of(&cs("añ✓")), "añ✓");
    assert!(same_text("abc", "abc"));
    assert!(!same_text("abc", "abd"));
    assert!(!same_text("abc", "ab"));
}

#[test]
fn search_finds_first_occurrence() {
    assert_eq!(find(&cs("abcabc"), &cs("bc")), Some(1));
    assert_eq!(find(&cs("abcabc"), &cs("cab")), Some(2));
    assert_eq!(find(&cs("abc"), &cs("abcd")), None);
    assert_eq!(find(&cs("abc"), &cs("")), Some(0));
    assert_eq!(find(&cs("abc"), &cs("c")), Some(2));
    assert!(contains(&cs("hello world"), &cs("o w")));
    assert!(!contains(&cs("hello"), &cs("lo ")));
    assert!(starts_with(&cs("hello"), &cs("he")));
    assert!(!starts_with(&cs("hello"), &cs("el")));
    assert!(ends_with(&cs("hello"), &cs("llo")));
    assert!(!ends_with(&cs("lo"), &cs("llo")));
    assert_eq!(strip_prefix(&cs("macro_call:a"), &cs("macro_call:")), Some(cs("a")));
    assert_eq!(strip_prefix(&cs("x"), &cs("y")), None);
}

#[test]
fn replace_is_left_to_right_and_total() {
    assert_eq!(st(&replace(&cs("a{m}b{m}"), &cs("{m}"), &cs("X"))), "aXbX");
    assert_eq!(st(&replace(&cs("aaa"), &cs("aa"), &cs("b"))), "ba");
    assert_eq!(st(&replace(&cs("abc"), &cs(""), &cs("X"))), "abc");
    assert_eq!(st(&replace(&cs("abc"), &cs("abcd"), &cs("X"))), "abc");
    assert_eq!(st(&replace(&cs("a&b"), &cs("&"), &cs("&amp;"))), "a&amp;b");
    assert_eq!(st(&replace(&cs(""), &cs("a"), &cs("b"))), "");
}

#[test]
fn trim_takes_unicode_whitespace() {
    assert_eq!(st(&trim(&cs("  a b \t\n"))), "a b");
    assert_eq!(st(&trim(&cs("\u{a0}x\u{3000}"))), "x");
    assert_eq!(st(&trim(&cs(" \r\n "))), "");
    assert_eq!(st(&trim(&cs("x"))), "x");
    assert_eq!("\u{a0}x\u{3000}".trim(), "x");
}

#[test]
fn split_keeps_empty_pieces() {
    assert_eq!(sts(&split(&cs("a|b||c"), '|')), vec!["a", "b", "", "c"]);
    assert_eq!(sts(&split(&cs(""), '|')), vec![""]);
    assert_eq!(sts(&split(&cs("|"), '|')), vec!["", ""]);
}

#[test]
fn lines_follow_the_standard_library() {
    for text in ["a\nb", "a\nb\n", "a\r\nb\r\n", "\n\nx", "", "a\r", "a\rb\n", "\n"] {
        let expected: Vec<String> = text.lines().map(|l| l.to_string()).collect();
        assert_eq!(sts(&lines(&cs(text))), expected, "for {:?}", text);
    }
}

#[test]
fn numbers_as_text() {
    assert_eq!(st(&decimal_text(0)), "0");
    assert_eq!(st(&decimal_text(42)), "42");
    assert_eq!(st(&decimal_text(u64::MAX)), "18446744073709551615");
    assert_eq!(st(&hex_text(0)), "0");
    assert_eq!(st(&hex_text(255)), "ff");
    assert_eq!(st(&hex_text(0xdeadbeef)), format!("{:x}", 0xdeadbeefu64));
}

#[test]
fn parse_follows_the_standard_library() {
    for text in ["0", "15", "+7", "4294967295", "4294967296", "", "+", "-1", "1a", " 1", "007"] {
        assert_eq!(parse_u32(&cs(text)), text.parse::<u32>().ok(), "for {:?}", text);
    }
}

#[test]
fn text_order_and_stable_order() {
    assert!(precedes_or_equals(&cs("a"), &cs("b")));
    assert!(precedes_or_equals(&cs("a"), &cs("a")));
    assert!(precedes_or_equals(&cs("a"), &cs("ab")));
    assert!(!precedes_or_equals(&cs("ab"), &cs("a")));
    assert!(!precedes_or_equals(&cs("b"), &cs("a")));
    let keys = vec![cs("b"), cs("a"), cs("b"), cs("a"), cs("")];
    assert_eq!(order_by_key(&keys), vec![4, 1, 3, 0, 2]);
    assert_eq!(order_by_key(&Vec::new()), Vec::<usize>::new());
}

#[test]
fn path_segments_and_names() {
    assert_eq!(sts(&path_segments(&cs("./a//b/./c.rs"))), vec!["a", "b", "c.rs"]);
    assert_eq!(file_name(&cs("a/b/c.rs")), Some(cs("c.rs")));
    assert_eq!(file_name(&cs("a/b/")), Some(cs("b")));
    assert_eq!(file_name(&cs("a/..")), None);
    assert_eq!(file_name(&cs("")), None);
    assert_eq!(extension_of(&cs("src/lib.rs")), Some(cs("rs")));
    assert_eq!(extension_of(&cs("a.tar.gz")), Some(cs("gz")));
    assert_eq!(extension_of(&cs(".gitignore")), None);
    assert_eq!(extension_of(&cs("Makefile")), None);
    assert!(rust_path(&cs("main.rs")));
    assert!(!rust_path(&cs("README.md")));
}

#[test]
fn test_paths_are_recognised_by_segment_or_name() {
    assert!(test_path(&cs("tests/unit.rs")));
    assert!(test_path(&cs("src/test/helper.rs")));
    assert!(test_path(&cs("src/my_test.rs")));
    assert!(test_path(&cs("src/testing.rs")));
    assert!(!test_path(&cs("src/lib.rs")));
    assert!(!test_path(&cs("src/attestation/x.rs")));
}

#[test]
fn equivalent_paths_are_test_paths_alike() {
    for (a, b) in [
        ("tests/unit.rs", "./tests//unit.rs"),
        ("src/lib.rs", "./src/./lib.rs"),
        ("a/test/x.rs", "a//test/x.rs"),
    ] {
        assert_eq!(path_segments(&cs(a)), path_segments(&cs(b)));
        assert_eq!(test_path(&cs(a)), test_path(&cs(b)));
    }
}

#[test]
fn relative_paths() {
    assert_eq!(relative_path(&cs("a/b/c.rs"), &cs("a/b")), Some(cs("c.rs")));
    assert_eq!(relative_path(&cs("a/b/c.rs"), &cs("")), Some(cs("a/b/c.rs")));
    assert_eq!(relative_path(&cs("/a/b"), &cs("/")), Some(cs("a/b")));
    assert_eq!(relative_path(&cs("a/bc"), &cs("a/b")), None);
    assert_eq!(relative_path(&cs("x/y"), &cs("a")), None);
}
