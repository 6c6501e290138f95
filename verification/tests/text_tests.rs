use sitegen::minifier::replacer;
use sitegen::text::{str_eq, has_prefix, match_at, find_sub_from, substring, trim};

#[test]
fn str_eq_compares_characters() {
    assert!(str_eq("abc", "abc"));
    assert!(!str_eq("abc", "abd"));
    assert!(!str_eq("abc", "ab"));
    assert!(str_eq("", ""));
}

#[test]
fn prefix_and_position_matching() {
    assert!(has_prefix("---\ntitle", "---"));
    assert!(!has_prefix("--x", "---"));
    assert!(match_at("a---b", "---", 1));
    assert!(!match_at("a---b", "---", 2));
    assert!(!match_at("ab", "abc", 0));
}

#[test]
fn find_sub_from_finds_first_occurrence() {
    assert_eq!(find_sub_from("a---b---c", "---", 0), Some(1));
    assert_eq!(find_sub_from("a---b---c", "---", 2), Some(5));
    assert_eq!(find_sub_from("a---b---c", "---", 6), None);
    assert_eq!(find_sub_from("abc", "", 2), Some(2));
}

#[test]
fn substring_copies_a_range() {
    assert_eq!(substring("hello", 1, 4), String::from("ell"));
    assert_eq!(substring("hello", 2, 2), String::from(""));
}

#[test]
fn trim_removes_surrounding_whitespace() {
    assert_eq!(trim("  title: x \n\t"), String::from("title: x"));
    assert_eq!(trim("\r\n \x0b\x0c"), String::from(""));
    assert_eq!(trim("solid"), String::from("solid"));
}

#[test]
fn replacer_keeps_groups_and_collapses_runs() {
    assert_eq!(replacer(Some("{ a  b }")), String::from("{ a  b }"));
    assert_eq!(replacer(None), String::from(" "));
}
