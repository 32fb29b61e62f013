use tweet_vault::text::{
    count_ascii_words, has_punctuation, i64_to_decimal, replace_all_exec, split_ascii_whitespace,
    starts_with, str_eq, strip_punctuation, to_ascii_lowercase,
};

#[test]
fn strip_punctuation_keeps_letters_digits_and_spaces() {
    let s = strip_punctuation(String::from("Hello, World! 42 times... é"));
    assert_eq!(s, "Hello World 42 times ");
}

#[test]
fn strip_punctuation_of_empty_is_empty() {
    assert_eq!(strip_punctuation(String::new()), "");
}

#[test]
fn strip_punctuation_is_idempotent_on_example() {
    let once = strip_punctuation(String::from("don't-stop: #1 (really)"));
    let twice = strip_punctuation(once.clone());
    assert_eq!(once, "dontstop 1 really");
    assert_eq!(once, twice);
    assert!(!has_punctuation(&once));
}

#[test]
fn has_punctuation_examples() {
    assert!(has_punctuation("don't"));
    assert!(has_punctuation("tab\there"));
    assert!(!has_punctuation("plain words 123"));
    assert!(!has_punctuation(""));
}

#[test]
fn lowercase_only_touches_ascii_capitals() {
    assert_eq!(to_ascii_lowercase("AbC-ÉZ 9"), "abc-Éz 9");
}

#[test]
fn split_ascii_whitespace_examples() {
    assert_eq!(
        split_ascii_whitespace("  one two\tthree\n\nfour\r\x0cfive  "),
        vec!["one", "two", "three", "four", "five"]
    );
    assert!(split_ascii_whitespace("   ").is_empty());
    assert!(split_ascii_whitespace("").is_empty());
    // A non-breaking space is not ASCII whitespace.
    assert_eq!(split_ascii_whitespace("a\u{a0}b c"), vec!["a\u{a0}b", "c"]);
}

#[test]
fn word_count_matches_split_and_ignores_case() {
    let text = "The Quick  brown\tFOX";
    assert_eq!(count_ascii_words(text), 4);
    assert_eq!(count_ascii_words(&to_ascii_lowercase(text)), 4);
    assert_eq!(count_ascii_words(""), 0);
}

#[test]
fn starts_with_examples() {
    assert!(starts_with("https://x.y", "http"));
    assert!(!starts_with("htt", "http"));
    assert!(starts_with("anything", ""));
}

#[test]
fn str_eq_examples() {
    assert!(str_eq("abc", "abc"));
    assert!(!str_eq("abc", "abd"));
    assert!(!str_eq("abc", "ab"));
}

#[test]
fn replace_all_matches_std_replace() {
    let cases = [
        ("{{A}} and {{A}}", "{{A}}", "x"),
        ("aaaa", "aa", "b"),
        ("abc", "", "-"),
        ("", "", "-"),
        ("no match here", "zz", "y"),
        ("ab", "abc", "y"),
    ];
    for (s, p, r) in cases {
        assert_eq!(replace_all_exec(s, p, r), s.replace(p, r), "{s:?} {p:?} {r:?}");
    }
}

#[test]
fn decimal_rendering_of_extremes() {
    for i in [0i64, 7, 10, -1, -10, 1234567890, i64::MAX, i64::MIN] {
        assert_eq!(i64_to_decimal(i), i.to_string());
    }
}
