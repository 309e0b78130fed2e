use containertyrant::text::{contains_str, push_decimal, str_equal, trim_start_matches_char};

#[test]
fn decimal_digits() {
    for n in [0u64, 7, 10, 99, 100, 12345, u64::MAX] {
        let mut s = String::from("x");
        push_decimal(&mut s, n);
        assert_eq!(s, format!("x{}", n));
    }
}

#[test]
fn substring_search() {
    assert!(contains_str("nginx:latest", "nginx"));
    assert!(contains_str("nginx:latest", "latest"));
    assert!(contains_str("abc", ""));
    assert!(contains_str("", ""));
    assert!(!contains_str("", "a"));
    assert!(!contains_str("ab", "abc"));
    assert!(contains_str("aaab", "aab"));
    assert!(!contains_str("postgres", "sql"));
    assert!(contains_str("ünïcode", "nïc"));
}

#[test]
fn string_equality() {
    assert!(str_equal("abc", "abc"));
    assert!(!str_equal("abc", "abd"));
    assert!(!str_equal("abc", "ab"));
    assert!(str_equal("", ""));
}

#[test]
fn trim_leading_slashes() {
    assert_eq!(trim_start_matches_char("/web", '/'), "web");
    assert_eq!(trim_start_matches_char("//a/b/", '/'), "a/b/");
    assert_eq!(trim_start_matches_char("///", '/'), "");
    assert_eq!(trim_start_matches_char("x", '/'), "x");
    assert_eq!(trim_start_matches_char("", '/'), "");
}
