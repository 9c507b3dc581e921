use archlint::metrics::FileMetrics;
use archlint::package_json::PackageJsonParser;
use archlint::parser::tokenizer::{TokenCollector, TokenKind};
use archlint::project_root::{ancestors, marker_paths};
use archlint::resolver::PathResolver;
use archlint::scanner::FileScanner;

fn exts() -> Vec<String> {
    vec!["ts".to_string(), "js".to_string()]
}

#[test]
fn relative_import_candidates() {
    let r = PathResolver::new("/p", vec![], exts());
    let c = r.resolution_candidates("./b.js", "/p/src/a.ts").ok().unwrap();
    assert_eq!(
        c,
        vec![
            "/p/src/./b.js".to_string(),
            "/p/src/./b.ts".to_string(),
            "/p/src/./b.js.ts".to_string(),
            "/p/src/./b.js.js".to_string(),
            "/p/src/./b.js/index.ts".to_string(),
            "/p/src/./b.js/index.js".to_string(),
        ]
    );
    assert!(r.resolution_candidates("./b", "/").is_err());
}

#[test]
fn alias_then_root_then_src() {
    let r = PathResolver::new("/p", vec![("@app/*".to_string(), "src/app/*".to_string())], vec!["ts".to_string()]);
    let c = r.resolution_candidates("@app/x", "/p/src/a.ts").ok().unwrap();
    assert_eq!(c[0], "/p/src/app/x");
    assert_eq!(c[3], "/p/@app/x");
    assert_eq!(c[6], "/p/src/@app/x");
    assert_eq!(c.len(), 9);
}

#[test]
fn entry_point_candidates_for_build_outputs() {
    assert_eq!(
        PackageJsonParser::entry_point_candidates("dist/index.js", "/p"),
        vec!["/p/dist/index.js".to_string(), "dist/index.js".to_string(), "/p/src/index.ts".to_string()]
    );
    assert_eq!(
        PackageJsonParser::entry_point_candidates("lib/main.js", "/p"),
        vec!["/p/lib/main.js".to_string(), "lib/main.js".to_string()]
    );
    assert_eq!(
        PackageJsonParser::entry_point_candidates("build/cli", "/p"),
        vec!["/p/build/cli".to_string(), "build/cli".to_string(), "/p/src/cli".to_string(), "/p/src/cli.ts".to_string()]
    );
}

#[test]
fn dynamic_load_patterns_map_to_sources() {
    let mut patterns = Vec::new();
    PackageJsonParser::add_dynamic_load_pattern("dist/plugins/*.js", &mut patterns);
    PackageJsonParser::add_dynamic_load_pattern("dist/plugins/*.js", &mut patterns);
    PackageJsonParser::add_dynamic_load_pattern("dist/main.js", &mut patterns);
    PackageJsonParser::add_dynamic_load_pattern("build/**/*.mjs", &mut patterns);
    assert_eq!(patterns, vec!["src/plugins/*.ts".to_string(), "src/**/*.ts".to_string()]);
}

#[test]
fn ancestors_walk_up_to_the_root() {
    assert_eq!(ancestors("/a/b"), vec!["/a/b".to_string(), "/a".to_string(), "/".to_string()]);
    assert_eq!(marker_paths("/a")[0], "/a/.git");
    assert_eq!(marker_paths("/a").len(), 6);
}

#[test]
fn scanner_keeps_matching_extensions() {
    let s = FileScanner::new("/p".to_string(), "/p/src".to_string(), exts());
    assert!(s.accepts("/p/src/a.ts"));
    assert!(!s.accepts("/p/src/a.tsx"));
    assert!(!s.accepts("/p/src/Makefile"));
    assert_eq!(FileScanner::exclude_overrides()[0], "!**/node_modules/**");
}

#[test]
fn metrics_and_tokens() {
    let m = FileMetrics::new(1, 2, 3);
    assert_eq!((m.fan_in, m.fan_out, m.churn), (1, 2, 3));
    let mut c = TokenCollector::new("ab\ncd");
    c.add_token(TokenKind::Identifier, "cd".to_string(), 3, 5);
    let t = &c.tokens()[0];
    assert_eq!((t.line, t.column, t.end_line, t.end_column, t.seq), (2, 1, 2, 3, 0));
}

#[test]
fn relative_import_without_parent_names_the_file() {
    let r = PathResolver::new("/p", vec![], exts());
    match r.resolution_candidates("./b", "/") {
        Err(archlint::error::AnalysisError::PathResolution(m)) => assert_eq!(m, "Invalid file path: \"/\""),
        _ => panic!("expected a path resolution error"),
    }
}
