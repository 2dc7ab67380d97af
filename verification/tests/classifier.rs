use gold::f002::{index, parse_prefix_rule};
use gold::std_imports::is_standard_import;

fn groups(rules: &[&str]) -> Vec<String> {
    rules.iter().map(|r| String::from(*r)).collect()
}

#[test]
fn standard_membership() {
    assert!(is_standard_import("fmt"));
    assert!(is_standard_import("net/http"));
    assert!(is_standard_import("unicode/utf8"));
    assert!(!is_standard_import("example.com/x"));
    assert!(!is_standard_import("fm"));
}

#[test]
fn prefix_rule_parsing() {
    assert_eq!(parse_prefix_rule("prefix(a)"), Some(String::from("a")));
    assert_eq!(parse_prefix_rule("prefix(example.com/x)"), Some(String::from("example.com/x")));
    assert_eq!(parse_prefix_rule("prefix()"), Some(String::from("")));
    assert_eq!(parse_prefix_rule("standard"), None);
    assert_eq!(parse_prefix_rule("default"), None);
    assert_eq!(parse_prefix_rule("prefix("), None);
}

#[test]
fn standard_section_wins() {
    let g = groups(&["standard", "default"]);
    assert_eq!(index(&g, "fmt"), Some(0));
    assert_eq!(index(&g, "example.com/x"), Some(1));
}

#[test]
fn standard_wins_over_matching_prefix() {
    let g = groups(&["prefix(f)", "standard"]);
    assert_eq!(index(&g, "fmt"), Some(1));
}

#[test]
fn longest_prefix_tie_break() {
    let g = groups(&["prefix(a)", "prefix(ab)"]);
    assert_eq!(index(&g, "abc"), Some(1));
}

#[test]
fn longest_prefix_regardless_of_order() {
    let g = groups(&["prefix(ab)", "prefix(a)"]);
    assert_eq!(index(&g, "abc"), Some(0));
}

#[test]
fn default_is_the_fallback() {
    let g = groups(&["prefix(example.com)", "default"]);
    assert_eq!(index(&g, "other.org/y"), Some(1));
    assert_eq!(index(&g, "example.com/x"), Some(0));
}

#[test]
fn no_rule_matches_means_unclassified() {
    let g = groups(&["standard", "prefix(example.com)"]);
    assert_eq!(index(&g, "other.org/y"), None);
}

#[test]
fn classification_is_deterministic() {
    let g = groups(&["standard", "prefix(example.com)", "default"]);
    let first = index(&g, "example.com/x");
    let second = index(&g, "example.com/x");
    assert_eq!(first, second);
    assert_eq!(first, Some(1));
}
