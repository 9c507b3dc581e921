use archlint::path_matcher::{expand_pattern, PathMatcher};

fn matcher(patterns: &[&str]) -> PathMatcher {
    let owned: Vec<String> = patterns.iter().map(|p| (*p).to_string()).collect();
    PathMatcher::new("/proj", &owned)
}

#[test]
fn plain_directory_matches_its_subtree() {
    assert_eq!(
        expand_pattern("legacy"),
        vec!["**/legacy/**".to_string(), "**/legacy".to_string()]
    );

    let m = matcher(&["legacy"]);
    assert!(m.matches("/proj/legacy/a.ts"));
    assert!(m.matches("/proj/packages/x/legacy/deep/a.ts"));
    assert!(!m.matches("/proj/src/a.ts"));
}

#[test]
fn plain_nested_path_matches_its_subtree() {
    let m = matcher(&["src/legacy"]);
    assert!(m.matches("/proj/src/legacy/a.ts"));
    assert!(!m.matches("/proj/src/a.ts"));
}

#[test]
fn plain_file_name_matches_the_file() {
    let m = matcher(&["generated.ts"]);
    assert!(m.matches("/proj/src/generated.ts"));
    assert!(m.matches("/proj/generated.ts"));
    assert!(!m.matches("/proj/src/a.ts"));
}

#[test]
fn leading_and_trailing_separators_are_ignored() {
    assert_eq!(expand_pattern("./legacy"), expand_pattern("legacy"));
    assert_eq!(expand_pattern("/legacy"), expand_pattern("legacy"));
    assert_eq!(expand_pattern("legacy/"), expand_pattern("legacy"));
}

#[test]
fn globs_are_compiled_verbatim() {
    assert_eq!(expand_pattern("**/dist/**"), vec!["**/dist/**".to_string()]);
    assert_eq!(expand_pattern("src/*.ts"), vec!["src/*.ts".to_string()]);
    assert_eq!(expand_pattern("**/*.d.ts"), vec!["**/*.d.ts".to_string()]);

    let m = matcher(&["**/dist/**", "**/*.spec.ts"]);
    assert!(m.matches("/proj/dist/bundle.js"));
    assert!(m.matches("/proj/src/dist/bundle.js"));
    assert!(m.matches("/proj/src/a.spec.ts"));
    assert!(!m.matches("/proj/src/a.ts"));
}

#[test]
fn a_glob_with_a_trailing_separator_still_matches_the_subtree() {
    let m = matcher(&["**/dist/"]);
    assert!(m.matches("/proj/dist/bundle.js"));
}

#[test]
fn backslashes_are_normalized() {
    assert_eq!(expand_pattern("src\\legacy"), expand_pattern("src/legacy"));
}

#[test]
fn unusable_patterns_are_skipped_without_disabling_the_rest() {
    let m = matcher(&["", "../outside", "src/**legacy", "legacy"]);
    assert!(m.matches("/proj/legacy/a.ts"));
    assert!(!m.matches("/proj/src/a.ts"));
}

#[test]
fn an_empty_matcher_never_matches() {
    let m = matcher(&[]);
    assert!(m.is_empty());
    assert!(!m.matches("/proj/src/a.ts"));
}

#[test]
fn paths_outside_the_root_are_matched_as_is() {
    let m = matcher(&["**/legacy/**"]);
    assert!(m.matches("/elsewhere/legacy/a.ts"));
}

#[test]
fn expand_pattern_rejects_empty_and_parent_paths() {
    assert!(expand_pattern("").is_empty());
    assert!(expand_pattern("///").is_empty());
    assert!(expand_pattern("src/../x").is_empty());
    assert_eq!(expand_pattern("./././a"), expand_pattern("a"));
}

#[test]
fn expand_pattern_glob_directory_gets_subtree() {
    assert_eq!(expand_pattern("dist/*/"), vec!["dist/*/**".to_string()]);
}
