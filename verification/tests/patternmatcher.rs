use bollard::grpc::patternmatcher::{
    clean_pattern, compile_pattern, contains_wildcard, match_component, PatternMatcher,
};

fn matcher(patterns: &[&str]) -> PatternMatcher {
    PatternMatcher::new(
        &patterns
            .iter()
            .map(|value| (*value).to_owned())
            .collect::<Vec<_>>(),
    )
    .expect("patterns compile")
    .expect("matcher exists")
}

#[test]
fn supports_ancestors_and_doublestar() {
    let matcher = matcher(&["**/bar/foo"]);
    assert!(matcher.matches_or_parent("a/bar/foo"));
    assert!(!matcher.matches_or_parent("a/bar"));
    assert!(!matcher.matches_or_parent("a/baz"));
}

#[test]
fn preserves_ordered_exceptions() {
    let matcher = matcher(&["foo*", "!foo/bar"]);
    assert!(matcher.matches_or_parent("foo"));
    assert!(!matcher.matches_or_parent("foo/bar"));
    assert!(matcher.matches_or_parent("foo/other"));
}

#[test]
fn rejects_bare_exclusion() {
    assert!(PatternMatcher::new(&["!".to_owned()]).is_err());
}

#[test]
fn component_matching_uses_glob_pattern() {
    assert!(match_component("l*", "link"));
    assert!(match_component("l[ia]nk", "link"));
    assert!(!match_component("l[ia]nk", "look"));
    assert!(!match_component("[", "link"));
    assert!(match_component(r"\*", "*"));
}

#[test]
fn followpath_wildcard_detection_honors_escaped_metacharacters() {
    assert!(contains_wildcard("link*"));
    assert!(contains_wildcard("link[0-9]"));
    assert!(!contains_wildcard("literal"));
    assert!(!contains_wildcard(r"literal\*"));
}

#[test]
fn blank_patterns_give_no_matcher() {
    assert!(PatternMatcher::new(&["  ".to_owned(), String::new()]).unwrap().is_none());
    assert!(PatternMatcher::new(&[]).unwrap().is_none());
}

#[test]
fn patterns_are_cleaned_and_listed_in_order() {
    let m = matcher(&[" ./a//b/../c ", "!x/./y"]);
    assert_eq!(
        m.patterns(),
        vec![("a/c".to_owned(), false), ("x/y".to_owned(), true)]
    );
    assert_eq!(clean_pattern("../a/./b/"), "a/b");
    assert_eq!(clean_pattern("a/.."), "");
}

#[test]
fn pattern_that_cleans_to_nothing_is_an_error() {
    assert_eq!(
        PatternMatcher::new(&["!.".to_owned()]).err().as_deref(),
        Some("empty pattern after exclusion marker")
    );
    assert_eq!(
        PatternMatcher::new(&["!".to_owned()]).err().as_deref(),
        Some("illegal exclusion pattern: \"!\"")
    );
}

#[test]
fn patterns_translate_to_anchored_expressions() {
    assert_eq!(compile_pattern("**/a").unwrap(), "^(?:.*/)?a$");
    assert_eq!(compile_pattern("a**").unwrap(), "^a.*$");
    assert_eq!(compile_pattern("*.rs").unwrap(), "^[^/]*\\.rs$");
    assert_eq!(compile_pattern("a?[!b]").unwrap(), "^a[^/][^b]$");
    assert_eq!(compile_pattern("[a/b]").err().as_deref(), Some("invalid pattern \"[a/b]\""));
    assert_eq!(compile_pattern("[ab").err().as_deref(), Some("invalid pattern \"[ab\""));
}

#[test]
fn the_last_matching_pattern_decides() {
    let m = matcher(&["a", "!a/b", "a/b/c"]);
    assert!(m.matches_or_parent("a/x"));
    assert!(!m.matches_or_parent("a/b/x"));
    assert!(m.matches_or_parent("a/b/c/d"));
    assert!(!m.matches_or_parent("z"));
}

#[test]
fn cleaning_a_cleaned_pattern_changes_nothing() {
    for p in ["a/./b//../c/", "../x", "./", "", "a/b/c", "//a//", "..", "a/.."] {
        let once = clean_pattern(p);
        assert_eq!(clean_pattern(&once), once, "{p:?}");
        assert!(once.is_empty() || once.split('/').all(|c| !c.is_empty() && c != "." && c != ".."), "{p:?}");
    }
}

#[test]
fn inclusion_matches_carry_over_to_descendants() {
    let m = matcher(&["src", "*.md", "docs/*/index.html"]);
    for (path, child) in [("src", "main.rs"), ("README.md", "x"), ("docs/v1/index.html", "a/b"), ("src/lib", "deep/er")] {
        assert!(m.matches_or_parent(path), "{path}");
        assert!(m.matches_or_parent(&format!("{path}/{child}")), "{path}/{child}");
    }
}
