use integration_aggressor::order::{is_text_eq, is_text_lt, sort_texts};
use integration_aggressor::text::{
    can_shorten_text, chars_of, decimal_text, shortened_text, signed_decimal_text, text_contains,
    text_ends_with, two_places_text,
};

#[test]
fn decimals_have_no_leading_zeros() {
    assert_eq!(decimal_text(0), "0");
    assert_eq!(decimal_text(9), "9");
    assert_eq!(decimal_text(10), "10");
    assert_eq!(decimal_text(1234567890), "1234567890");
    assert_eq!(decimal_text(u64::MAX), "18446744073709551615");
}

#[test]
fn negative_numbers_have_a_sign() {
    assert_eq!(signed_decimal_text(-1), "-1");
    assert_eq!(signed_decimal_text(0), "0");
    assert_eq!(signed_decimal_text(139), "139");
    assert_eq!(signed_decimal_text(i32::MIN), "-2147483648");
}

#[test]
fn two_places_are_filled() {
    assert_eq!(two_places_text("0", 7), "07");
    assert_eq!(two_places_text(" ", 7), " 7");
    assert_eq!(two_places_text("0", 42), "42");
    assert_eq!(two_places_text(" ", 123), "123");
}

#[test]
fn characters_come_one_by_one() {
    assert_eq!(chars_of("aµ→"), vec!['a', 'µ', '→']);
    assert!(chars_of("").is_empty());
}

#[test]
fn endings_and_parts_are_found() {
    assert!(text_ends_with("x.__build__", ".__build__"));
    assert!(!text_ends_with("x.__build__.d", ".__build__"));
    assert!(!text_ends_with("_", ".__build__"));
    assert!(text_ends_with("x", ""));
    assert!(text_contains("/a/pthread/b", "/pthread/"));
    assert!(text_contains("/pthread/", "/pthread/"));
    assert!(!text_contains("/a/pthreads/b", "/pthread/"));
    assert!(!text_contains("", "a"));
    assert!(text_contains("", ""));
}

#[test]
fn long_names_are_cut_behind_ten_bytes() {
    assert_eq!(shortened_text("short"), "short");
    assert_eq!(shortened_text("0123456789"), "0123456789");
    assert_eq!(shortened_text("0123456789a"), "0123456789");
    assert_eq!(shortened_text("01234567é9"), "01234567é");
    assert!(can_shorten_text("01234567é9"));
    assert!(can_shorten_text("é"));
    assert!(!can_shorten_text("012345678é9"));
}

#[test]
fn texts_are_ordered_as_strings_are() {
    let words = ["", "a", "ab", "b", "B", "é", "z", "→", "a/b", "a-b", "\u{10000}", "\u{ffff}"];
    for a in words {
        for b in words {
            assert_eq!(is_text_lt(a, b), a < b, "{a} {b}");
            assert_eq!(is_text_eq(a, b), a == b, "{a} {b}");
        }
    }
}

#[test]
fn sorting_gives_the_one_sorted_list() {
    let words: Vec<String> = ["b", "a", "é", "", "a", "B", "ab"]
        .iter()
        .map(|w| w.to_string())
        .collect();
    let mut expected = words.clone();
    expected.sort();
    assert_eq!(sort_texts(words), expected);
    assert!(sort_texts(Vec::new()).is_empty());
}
