use string_utils::contains_substring;
use string_utils::find_contains;

#[test]
fn find_contains_test() {
    let haystack: Vec<&str> = vec!["Hello", "World", "Bad", "Wolf"];
    let empty_vec: Vec<&str> = vec![];
    assert_eq!(find_contains(&haystack, "Hell"), vec!["Hello"]);
    assert_eq!(find_contains(&haystack, "l"), vec!["Hello", "World", "Wolf"]);
    assert_eq!(find_contains(&haystack, "a"), vec!["Bad"]);
    assert_eq!(find_contains(&haystack, "Hello World"), empty_vec);
}

#[test]
fn find_contains_empty_needle_matches_everything() {
    let haystack: Vec<&str> = vec!["Hello", "", "Wolf"];
    assert_eq!(find_contains(&haystack, ""), vec!["Hello", "", "Wolf"]);
}

#[test]
fn find_contains_empty_haystack() {
    let haystack: Vec<&str> = vec![];
    let expected: Vec<&str> = vec![];
    assert_eq!(find_contains(&haystack, "x"), expected);
}

#[test]
fn find_contains_keeps_duplicates_in_order() {
    let haystack: Vec<&str> = vec!["aba", "b", "aba", "cc"];
    assert_eq!(find_contains(&haystack, "ab"), vec!["aba", "aba"]);
}

#[test]
fn contains_substring_exact_length_match() {
    assert!(contains_substring("Wolf", "Wolf"));
    assert!(!contains_substring("Wolf", "Wolfs"));
}

#[test]
fn contains_substring_empty_cases() {
    assert!(contains_substring("", ""));
    assert!(contains_substring("abc", ""));
    assert!(!contains_substring("", "a"));
}

#[test]
fn contains_substring_is_case_sensitive() {
    assert!(contains_substring("Hello", "Hell"));
    assert!(!contains_substring("Hello", "hell"));
}

#[test]
fn contains_substring_interior_match() {
    assert!(contains_substring("abcde", "bcd"));
    assert!(!contains_substring("abcde", "bd"));
}
