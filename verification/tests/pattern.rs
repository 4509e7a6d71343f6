use git_poly::error::Error;
use git_poly::filter::{branch, passes};
use git_poly::flags::Flags;
use git_poly::pattern::Pattern;

#[test]
fn a_pattern_that_compiles_is_taken() {
    let pattern = Pattern::new(".*foo.*").unwrap();
    assert_eq!(pattern.as_str(), ".*foo.*");
    assert_eq!(pattern.clone().as_str(), ".*foo.*");
}

#[test]
fn a_pattern_that_does_not_compile_is_an_error() {
    match Pattern::new("foo(bar") {
        Err(Error::Regex(message)) => assert!(!message.is_empty()),
        _ => panic!("the pattern has an unclosed group"),
    }
}

#[test]
fn matching_looks_anywhere_in_the_text() {
    let pattern = Pattern::new("o+b").unwrap();
    assert!(pattern.is_match("foobar"));
    assert!(!pattern.is_match("o+b"));
    assert!(!pattern.is_match(""));
    let anchored = Pattern::new("^bar$").unwrap();
    assert!(anchored.is_match("bar"));
    assert!(!anchored.is_match("foobar"));
}

#[test]
fn captures_list_the_groups_of_every_match() {
    let pattern = Pattern::new("(a)(x)?(b+)").unwrap();
    assert_eq!(
        pattern.captures("ab-axbb"),
        vec![
            vec![Some("ab".to_string()), Some("a".to_string()), None, Some("b".to_string())],
            vec![
                Some("axbb".to_string()),
                Some("a".to_string()),
                Some("x".to_string()),
                Some("bb".to_string()),
            ],
        ]
    );
    assert_eq!(pattern.captures("none"), Vec::<Vec<Option<String>>>::new());
}

#[test]
fn replacing_touches_every_match() {
    let pattern = Pattern::new("a(b*)").unwrap();
    assert_eq!(pattern.replace_all("abb a c", "<$1>"), "<bb> <> c");
    assert_eq!(pattern.replace_all("xyz", "-"), "xyz");
    assert_eq!(pattern.replace_all("aaa", ""), "");
}

#[test]
fn the_branch_filter_matches_the_branch_name() {
    let pattern = Pattern::new("feature/.*").unwrap();
    assert!(branch(&pattern, "feature/foo"));
    assert!(!branch(&pattern, "master"));
    assert!(branch(&pattern.clone(), "feature/x"));
    assert!(passes(&None, "master"));
    assert!(!passes(&Some(pattern.clone()), "master"));
    assert!(passes(&Some(pattern), "feature/x"));
}

#[test]
fn flags_start_without_filters() {
    let flags = Flags::new().unwrap();
    assert_eq!(flags.path.as_str(), ".*");
    assert!(flags.branch.is_none());
    assert!(flags.path.is_match("./anything"));
    assert!(flags.path.is_match(""));
}
