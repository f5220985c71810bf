use math_core::mathml_renderer::fmt::{new_line_and_indent, StrJoiner};

#[test]
fn test_empty_slice() {
    let empty = StrJoiner::from_slice(&[]);
    assert_eq!(empty.to_string(), "");
}

#[test]
fn test_single_element() {
    let single = StrJoiner::from_slice(&["test"]);
    assert_eq!(single.to_string(), "test");
}

#[test]
fn test_multiple_elements() {
    let multiple = StrJoiner::from_slice(&["hello ", "world", "!"]);
    assert_eq!(multiple.to_string(), "hello world!");
}

#[test]
fn test_with_empty_strings() {
    let with_empty = StrJoiner::from_slice(&["", "middle", ""]);
    assert_eq!(with_empty.to_string(), "middle");
}

#[test]
fn test_with_whitespace() {
    let with_spaces = StrJoiner::from_slice(&[" ", "spaced", " ", "content", " "]);
    assert_eq!(with_spaces.to_string(), " spaced content ");
}

#[test]
fn test_with_special_characters() {
    let special = StrJoiner::from_slice(&["new\nline", "\ttab", "\\escape"]);
    assert_eq!(special.to_string(), "new\nline\ttab\\escape");
}

#[test]
fn test_large_slice() {
    let elements = ["a"; 1000]; // Array with 1000 "a" strings
    let large = StrJoiner::from_slice(&elements);
    assert_eq!(large.to_string(), "a".repeat(1000));
}

#[test]
fn test_static_lifetime() {
    // This test ensures the static lifetime requirement works as expected
    const STATIC_STRS: [&'static str; 2] = ["static", "strings"];
    let joiner = StrJoiner::from_slice(&STATIC_STRS);
    assert_eq!(joiner.to_string(), "staticstrings");
}

#[test]
fn test_in_format() {
    let s = format!("text: {}", StrJoiner::from_slice(&["red", ",", "blue"]).to_string());
    assert_eq!(s.as_str(), "text: red,blue");
}

#[test]
fn new_line_and_indent_zero_writes_nothing() {
    let mut s = String::from("x");
    new_line_and_indent(&mut s, 0);
    assert_eq!(s, "x");
}

#[test]
fn new_line_and_indent_two_levels() {
    let mut s = String::from("x");
    new_line_and_indent(&mut s, 2);
    assert_eq!(s, "x\n        ");
}
