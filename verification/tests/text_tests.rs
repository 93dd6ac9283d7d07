use auction_stage::digits::{parse_u64, u64_to_string};
use auction_stage::text::{find_substring, str_eq, trim_trailing_char};

#[test]
fn renders_decimals_without_leading_zeros() {
    assert_eq!(u64_to_string(0), "0");
    assert_eq!(u64_to_string(7), "7");
    assert_eq!(u64_to_string(112), "112");
    assert_eq!(u64_to_string(u64::MAX), "18446744073709551615");
}

#[test]
fn parses_digit_runs_and_nothing_else() {
    assert_eq!(parse_u64("0"), Some(0));
    assert_eq!(parse_u64("0042"), Some(42));
    assert_eq!(parse_u64("112"), Some(112));
    assert_eq!(parse_u64(""), None);
    assert_eq!(parse_u64("12a"), None);
    assert_eq!(parse_u64("-3"), None);
    assert_eq!(parse_u64(" 3"), None);
}

#[test]
fn parsing_rejects_values_past_the_limit() {
    assert_eq!(parse_u64("18446744073709551615"), Some(u64::MAX));
    assert_eq!(parse_u64("18446744073709551616"), None);
    assert_eq!(parse_u64("99999999999999999999999"), None);
}

#[test]
fn rendering_and_parsing_agree() {
    for n in [0u64, 1, 9, 10, 99, 100, 4096, u64::MAX] {
        assert_eq!(parse_u64(&u64_to_string(n)), Some(n));
    }
}

#[test]
fn compares_strings_by_characters() {
    assert!(str_eq("", ""));
    assert!(str_eq("abc", "abc"));
    assert!(!str_eq("abc", "abd"));
    assert!(!str_eq("abc", "ab"));
}

#[test]
fn finds_the_first_occurrence() {
    assert_eq!(find_substring("https://host/input/s1", "/input/"), Some(12));
    assert_eq!(find_substring("aXbXc", "X"), Some(1));
    assert_eq!(find_substring("abc", "zzz"), None);
    assert_eq!(find_substring("ab", "abc"), None);
}

#[test]
fn trims_only_trailing_characters() {
    assert_eq!(trim_trailing_char("s112///", '/'), "s112");
    assert_eq!(trim_trailing_char("s/1/12", '/'), "s/1/12");
    assert_eq!(trim_trailing_char("///", '/'), "");
    assert_eq!(trim_trailing_char("", '/'), "");
}
