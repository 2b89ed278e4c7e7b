use cpstt::paths::{extension, file_name, join, parent, precedes, rfind, with_extension};
use cpstt::text::{copy_texts, digits, from_chars, push_decimal, push_padded, same_text, to_chars};

fn numeral(n: u128) -> String {
    let mut s = String::new();
    push_decimal(&mut s, n);
    s
}

fn padded(n: u128, width: usize, fill: char) -> String {
    let mut s = String::new();
    push_padded(&mut s, n, width, fill);
    s
}

#[test]
fn numerals_are_written_without_leading_zeros() {
    assert_eq!(numeral(0), "0");
    assert_eq!(numeral(7), "7");
    assert_eq!(numeral(10), "10");
    assert_eq!(numeral(4294967295), "4294967295");
    assert_eq!(numeral(u128::MAX), "340282366920938463463374607431768211455");
    assert_eq!(digits(1203), vec!['1', '2', '0', '3']);
}

#[test]
fn numerals_are_appended_to_what_is_there() {
    let mut s = String::from("n=");
    push_decimal(&mut s, 42);
    assert_eq!(s, "n=42");
}

#[test]
fn padding_fills_short_numerals_and_leaves_long_ones() {
    assert_eq!(padded(3, 2, '0'), "03");
    assert_eq!(padded(3, 2, ' '), " 3");
    assert_eq!(padded(12, 2, '0'), "12");
    assert_eq!(padded(123, 2, '0'), "123");
    assert_eq!(padded(5, 3, '0'), "005");
    assert_eq!(padded(0, 0, '0'), "0");
}

#[test]
fn strings_and_characters_convert_both_ways() {
    assert_eq!(to_chars("a\u{e9}\n"), vec!['a', '\u{e9}', '\n']);
    assert_eq!(from_chars(&vec!['x', '/', 'y']), "x/y");
    assert_eq!(from_chars(&to_chars("")), "");
    assert!(same_text("cpstt", "cpstt"));
    assert!(!same_text("cpstt", "cpst"));
    let copy = copy_texts(&vec!["a".to_string(), "bc".to_string()]);
    assert_eq!(copy, vec!["a".to_string(), "bc".to_string()]);
}

#[test]
fn join_puts_one_separator_between_directory_and_name() {
    assert_eq!(join("/work", "testcase"), "/work/testcase");
    assert_eq!(join("/work/", "testcase"), "/work/testcase");
    assert_eq!(join("", "testcase"), "testcase");
    assert_eq!(join("/", "testcase"), "/testcase");
    assert_eq!(join("/work", "cpstt_out/smart"), "/work/cpstt_out/smart");
}

#[test]
fn file_name_is_what_follows_the_last_separator() {
    assert_eq!(file_name("/work/testcase/1.in"), "1.in");
    assert_eq!(file_name("1.in"), "1.in");
    assert_eq!(file_name("/work/testcase/"), "");
    assert_eq!(file_name(""), "");
}

#[test]
fn parent_drops_the_last_component() {
    assert_eq!(parent("/work/smart.cpp"), "/work");
    assert_eq!(parent("smart.cpp"), "");
    assert_eq!(parent("/smart.cpp"), "/");
    assert_eq!(parent("a/b/c"), "a/b");
}

#[test]
fn extension_is_what_follows_the_last_dot_of_the_file_name() {
    assert_eq!(extension("/work/testcase/1.in"), Some("in".to_string()));
    assert_eq!(extension("a.tar.gz"), Some("gz".to_string()));
    assert_eq!(extension("/work.d/readme"), None);
    assert_eq!(extension(".hidden"), None);
    assert_eq!(extension(".."), None);
    assert_eq!(extension("name."), Some("".to_string()));
    assert_eq!(extension(""), None);
}

#[test]
fn with_extension_replaces_appends_or_removes() {
    assert_eq!(with_extension("/w/cpstt_out/smart/1.in", "out"), "/w/cpstt_out/smart/1.out");
    assert_eq!(with_extension("generator", "out"), "generator.out");
    assert_eq!(with_extension("generator", ""), "generator");
    assert_eq!(with_extension("1.in", ""), "1");
    assert_eq!(with_extension(".hidden", "out"), ".hidden.out");
    assert_eq!(with_extension("/w.d/x", "out"), "/w.d/x.out");
    assert_eq!(with_extension("/w/", "out"), "/w/");
    assert_eq!(with_extension("a.b.c", "d"), "a.b.d");
}

#[test]
fn rfind_gives_the_last_position() {
    assert_eq!(rfind(&to_chars("a/b/c"), '/'), Some(3));
    assert_eq!(rfind(&to_chars("abc"), '/'), None);
    assert_eq!(rfind(&to_chars(""), '/'), None);
}

#[test]
fn texts_are_ordered_like_a_dictionary() {
    let le = |a: &str, b: &str| precedes(&to_chars(a), &to_chars(b));
    assert!(le("", "a"));
    assert!(le("a", "a"));
    assert!(le("a", "ab"));
    assert!(!le("ab", "a"));
    assert!(le("10.in", "2.in"));
    assert!(!le("b", "a"));
    assert!(le("Z", "a"));
}
