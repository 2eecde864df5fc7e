use registers::text::{
    copied, copied_reversed, decimal_string, first_line_of, join, reversed, starts_with_at,
};

fn owned(values: &[&str]) -> Vec<String> {
    values.iter().map(|value| value.to_string()).collect()
}

#[test]
fn join_places_the_separator_between_neighbours() {
    assert_eq!(join(&owned(&["a", "b", "c"]), ", "), "a, b, c");
    assert_eq!(join(&owned(&["a", "b"]), "\n"), "a\nb");
    assert_eq!(join(&owned(&["alone"]), "\n"), "alone");
    assert_eq!(join(&[], "\n"), "");
    assert_eq!(join(&owned(&["", ""]), "-"), "-");
    assert_eq!(join(&owned(&["a", "b"]), ""), "ab");
}

#[test]
fn join_agrees_with_the_standard_join() {
    let values = owned(&["x", "", "y\n", "\u{e9}"]);
    assert_eq!(join(&values, "\r\n"), values.join("\r\n"));
}

#[test]
fn decimal_string_of_some_numbers() {
    assert_eq!(decimal_string(0), "0");
    assert_eq!(decimal_string(7), "7");
    assert_eq!(decimal_string(9), "9");
    assert_eq!(decimal_string(10), "10");
    assert_eq!(decimal_string(101), "101");
    assert_eq!(decimal_string(1234567890), "1234567890");
    assert_eq!(decimal_string(usize::MAX), usize::MAX.to_string());
}

#[test]
fn first_line_stops_at_the_line_ending() {
    assert_eq!(first_line_of("one\ntwo\nthree"), "one");
    assert_eq!(first_line_of("one\r\ntwo"), "one");
    assert_eq!(first_line_of("one"), "one");
    assert_eq!(first_line_of("one\r"), "one\r");
    assert_eq!(first_line_of("one\r\r\ntwo"), "one\r");
    assert_eq!(first_line_of("\n"), "");
    assert_eq!(first_line_of("\r\n"), "");
    assert_eq!(first_line_of(""), "");
    assert_eq!(first_line_of("\u{65e5}\u{672c}\r\n\u{8a9e}"), "\u{65e5}\u{672c}");
}

#[test]
fn first_line_agrees_with_the_standard_lines() {
    for text in ["a\nb", "a\r\nb", "a\rb\n", "\r", "x\r\n", "tab\there\n\n"] {
        assert_eq!(Some(first_line_of(text)), text.lines().next());
    }
}

#[test]
fn starts_with_at_compares_bytes_in_place() {
    let text = "hello world".as_bytes();
    assert!(starts_with_at(text, 0, b"hello"));
    assert!(starts_with_at(text, 6, b"world"));
    assert!(starts_with_at(text, 6, b""));
    assert!(starts_with_at(text, 11, b""));
    assert!(!starts_with_at(text, 6, b"worlds"));
    assert!(!starts_with_at(text, 1, b"hello"));
    assert!(!starts_with_at(text, 11, b"d"));
    assert!(!starts_with_at(text, 12, b""));
    assert!(!starts_with_at(text, usize::MAX, b"hello"));
}

#[test]
fn copies_keep_or_turn_the_order() {
    let values = owned(&["a", "b", "c"]);
    assert_eq!(copied(&values), owned(&["a", "b", "c"]));
    assert_eq!(copied_reversed(&values), owned(&["c", "b", "a"]));
    assert_eq!(reversed(values), owned(&["c", "b", "a"]));
    assert_eq!(copied(&[]), Vec::<String>::new());
    assert_eq!(copied_reversed(&[]), Vec::<String>::new());
    assert_eq!(reversed(Vec::new()), Vec::<String>::new());
}
