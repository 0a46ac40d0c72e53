use green_spaces::record::{not_found, Error};
use green_spaces::text::{chars_contain, chars_of, push_decimal, text_contains};

fn decimal(n: u64) -> String {
    let mut out = String::new();
    push_decimal(&mut out, n);
    out
}

#[test]
fn chars_of_gives_the_characters_in_order() {
    assert_eq!(chars_of(""), Vec::<char>::new());
    assert_eq!(chars_of("aé𝄞"), vec!['a', 'é', '𝄞']);
}

#[test]
fn contains_finds_a_query_at_the_start_middle_and_end() {
    assert!(text_contains("Central Park", "Central"));
    assert!(text_contains("Central Park", "al P"));
    assert!(text_contains("Central Park", "Park"));
    assert!(text_contains("Central Park", "Central Park"));
    assert!(text_contains("aab", "ab"));
    assert!(text_contains("aaab", "aab"));
}

#[test]
fn contains_rejects_what_does_not_occur() {
    assert!(!text_contains("Central Park", "park"));
    assert!(!text_contains("Central Park", "Parks"));
    assert!(!text_contains("Central Park", "Central  Park"));
    assert!(!text_contains("Central Park", "Central Park "));
    assert!(!text_contains("abc", "ac"));
    assert!(!text_contains("", "a"));
}

#[test]
fn contains_accepts_the_empty_query() {
    assert!(text_contains("Central Park", ""));
    assert!(text_contains("", ""));
}

#[test]
fn contains_agrees_with_std_on_many_pairs() {
    let texts = ["", "a", "ab", "aba", "abab", "Parc Güell", "上野公園", "ééé", "aé𝄞b"];
    let queries = ["", "a", "b", "ab", "ba", "aba", "bab", "é", "éé", "üe", "公", "野公", "𝄞b", "x"];
    for text in texts {
        for query in queries {
            assert_eq!(text_contains(text, query), text.contains(query), "{:?} in {:?}", query, text);
        }
    }
}

#[test]
fn decimal_numerals_are_exact() {
    assert_eq!(decimal(0), "0");
    assert_eq!(decimal(7), "7");
    assert_eq!(decimal(10), "10");
    assert_eq!(decimal(1234567890), "1234567890");
    assert_eq!(decimal(u64::MAX), "18446744073709551615");
    for n in [9u64, 99, 100, 101, 1000, 65535, 65536, 4294967296] {
        assert_eq!(decimal(n), n.to_string());
    }
}

#[test]
fn push_decimal_appends_to_what_is_there() {
    let mut out = String::from("id=");
    push_decimal(&mut out, 42);
    assert_eq!(out, "id=42");
}

#[test]
fn not_found_puts_the_identifier_between_the_two_texts() {
    assert_eq!(
        not_found("before ", 305, " after"),
        Error::NotFound { msg: "before 305 after".to_string() }
    );
}

#[test]
fn chars_contain_scans_character_sequences() {
    let text = vec!['a', 'é', '𝄞', 'b'];
    assert!(chars_contain(&text, &vec![]));
    assert!(chars_contain(&text, &vec!['a']));
    assert!(chars_contain(&text, &vec!['é', '𝄞']));
    assert!(chars_contain(&text, &vec!['𝄞', 'b']));
    assert!(chars_contain(&text, &text.clone()));
    assert!(!chars_contain(&text, &vec!['a', '𝄞']));
    assert!(!chars_contain(&text, &vec!['a', 'é', '𝄞', 'b', 'c']));
    assert!(!chars_contain(&vec![], &vec!['a']));
    assert!(chars_contain(&vec![], &vec![]));
}
