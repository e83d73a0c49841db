use fnr::paths::PathMatcher;
use regex::RegexSet;

fn as_regex_set(v: Vec<&str>) -> RegexSet {
    let escaped = v.iter().map(|r| regex::escape(r));
    RegexSet::new(escaped).unwrap()
}

#[test]
fn test_empty_included_set() {
    let disallow_list: Vec<&str> = vec![];

    let matcher = PathMatcher::new(None, as_regex_set(disallow_list));

    assert_eq!(matcher.path_matches("foo"), true);
}

#[test]
fn test_included_set() {
    let allow_list: Vec<&str> = vec!["foo", "bar"];
    let disallow_list: Vec<&str> = vec![];

    let matcher = PathMatcher::new(Some(as_regex_set(allow_list)), as_regex_set(disallow_list));

    assert_eq!(matcher.path_matches("foo.rs"), true);
    assert_eq!(matcher.path_matches("bar.rs"), true);
    assert_eq!(matcher.path_matches("baz.rs"), false);
}

#[test]
fn test_excluded_set() {
    let disallow_list = vec!["foo", "bar"];
    let matcher = PathMatcher::new(None, as_regex_set(disallow_list));

    assert_eq!(matcher.path_matches("foo.rs"), false);
    assert_eq!(matcher.path_matches("bar.rs"), false);
    assert_eq!(matcher.path_matches("baz.rs"), true);
}

// Inclusion should take precedence
#[test]
fn test_included_and_excluded_set() {
    let allow_list = vec!["foo", "bar"];
    let disallow_list = vec!["foo", "bar"];

    let matcher = PathMatcher::new(Some(as_regex_set(allow_list)), as_regex_set(disallow_list));

    assert_eq!(matcher.path_matches("foo.rs"), true);
    assert_eq!(matcher.path_matches("bar.rs"), true);
    assert_eq!(matcher.path_matches("baz.rs"), false);
}

#[test]
fn only_files_are_searched() {
    let matcher = PathMatcher::new(None, as_regex_set(vec!["target"]));
    assert_eq!(matcher.should_search(true, "src/main.rs"), true);
    assert_eq!(matcher.should_search(false, "src"), false);
    assert_eq!(matcher.should_search(true, "target/debug/main.rs"), false);
    assert_eq!(matcher.should_search(false, "target"), false);
}

#[test]
fn texts_occur_anywhere_in_the_path() {
    let matcher = PathMatcher::new(Some(as_regex_set(vec!["a.b"])), as_regex_set(vec![]));
    assert_eq!(matcher.path_matches("x/a.b/y"), true);
    assert_eq!(matcher.path_matches("x/aXb/y"), false);
}
