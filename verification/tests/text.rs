use todo::text::{chars_of, contains_text, find, push_decimal};

fn decimal(n: usize) -> String {
    let mut out = Vec::new();
    push_decimal(&mut out, n);
    out.into_iter().collect()
}

#[test]
fn chars_of_gives_the_characters_in_order() {
    assert_eq!(chars_of("abc"), vec!['a', 'b', 'c']);
    assert_eq!(chars_of(""), Vec::<char>::new());
    assert_eq!(chars_of("aé€"), vec!['a', 'é', '€']);
}

#[test]
fn contains_text_finds_a_part_anywhere() {
    assert!(contains_text("hello world", "hello"));
    assert!(contains_text("hello world", "lo wo"));
    assert!(contains_text("hello world", "world"));
    assert!(contains_text("hello world", "d"));
    assert!(contains_text("hello", "hello"));
}

#[test]
fn contains_text_finds_the_empty_text_everywhere() {
    assert!(contains_text("abc", ""));
    assert!(contains_text("", ""));
}

#[test]
fn contains_text_rejects_what_is_not_a_part() {
    assert!(!contains_text("hello", "hellp"));
    assert!(!contains_text("hello", "hello!"));
    assert!(!contains_text("", "a"));
    assert!(!contains_text("abc", "ac"));
    assert!(!contains_text("abc", "cb"));
    assert!(!contains_text("aab", "abb"));
}

#[test]
fn contains_text_agrees_with_std_on_other_scripts() {
    for (hay, needle) in [("grüße", "üß"), ("grüße", "us"), ("日本語", "本"), ("日本語", "本日"), ("aaab", "aab")] {
        assert_eq!(contains_text(hay, needle), hay.contains(needle));
    }
}

#[test]
fn find_works_on_characters() {
    assert!(find(&vec!['a', 'b', 'c'], &vec!['b', 'c']));
    assert!(!find(&vec!['a', 'b', 'c'], &vec!['c', 'b']));
    assert!(find(&vec![], &vec![]));
}

#[test]
fn push_decimal_writes_digits_without_leading_zeros() {
    assert_eq!(decimal(0), "0");
    assert_eq!(decimal(7), "7");
    assert_eq!(decimal(10), "10");
    assert_eq!(decimal(909), "909");
    assert_eq!(decimal(12345), "12345");
    assert_eq!(decimal(usize::MAX), usize::MAX.to_string());
}

#[test]
fn push_decimal_appends_to_what_is_there() {
    let mut out = vec!['n', '='];
    push_decimal(&mut out, 42);
    assert_eq!(out, vec!['n', '=', '4', '2']);
}
