use archlint::error::AnalysisError;
use archlint::project_root::{ancestors, detect_project_root, is_project_root, marker_paths, start_dir};
use archlint::tsconfig::loader::ExtendsChain;
use archlint::tsconfig::types::TsConfig;

#[test]
fn root_search_starts_at_the_parent_of_a_file() {
    assert_eq!(start_dir("/p/src/a.ts", true), "/p/src");
    assert_eq!(start_dir("/p/src", false), "/p/src");
}

#[test]
fn nearest_marked_ancestor_is_the_root() {
    assert_eq!(ancestors("/p/src/sub"), vec!["/p/src/sub", "/p/src", "/p", "/"]);
    assert_eq!(detect_project_root("/p/src/sub", &[false, false, true, true]), "/p");
    assert_eq!(detect_project_root("/p/src/sub", &[true]), "/p/src/sub");
    assert_eq!(detect_project_root("/p/src/sub", &[false, false, false, false]), "/p/src/sub");
    assert_eq!(detect_project_root("/p/src/sub", &[]), "/p/src/sub");
}

#[test]
fn any_marker_makes_a_root() {
    assert_eq!(marker_paths("/p")[1], "/p/package.json");
    assert!(is_project_root(&[false, true, false, false, false, false]));
    assert!(!is_project_root(&[false; 6]));
}

#[test]
fn tsconfig_lookup() {
    assert_eq!(TsConfig::find_and_load("/p", None, true).ok(), Some(Some("/p/tsconfig.json".to_string())));
    assert_eq!(TsConfig::find_and_load("/p", None, false).ok(), Some(None));
    assert_eq!(
        TsConfig::find_and_load("/p", Some("tsconfig.build.json"), true).ok(),
        Some(Some("/p/tsconfig.build.json".to_string()))
    );
    match TsConfig::find_and_load("/p", Some("missing.json"), false) {
        Err(AnalysisError::TsConfigNotFound(p)) => assert_eq!(p, "/p/missing.json"),
        _ => panic!("expected a missing-file error"),
    }
}

#[test]
fn extends_candidates_in_order() {
    assert_eq!(
        TsConfig::extends_candidates("/p/cfg", "./base", false),
        vec!["/p/cfg/./base", "/p/cfg/./base.json", "/p/cfg/./base/tsconfig.json"]
    );
    assert_eq!(TsConfig::extends_candidates("/p", "/etc/ts.json", true), vec!["/etc/ts.json", "/etc/ts.json", "/etc/ts.json/tsconfig.json"]);
    assert_eq!(
        TsConfig::extends_candidates("/p", "@tsconfig/node18", false),
        vec![
            "/p/node_modules/@tsconfig/node18",
            "/p/node_modules/@tsconfig/node18.json",
            "/p/node_modules/@tsconfig/node18/tsconfig.json",
            "/node_modules/@tsconfig/node18",
            "/node_modules/@tsconfig/node18.json",
            "/node_modules/@tsconfig/node18/tsconfig.json",
        ]
    );
    assert_eq!(TsConfig::extends_base("/p/cfg/tsconfig.json"), "/p/cfg");
}

#[test]
fn extends_resolves_to_the_first_file() {
    let c = vec!["a".to_string(), "b".to_string(), "c".to_string()];
    assert_eq!(TsConfig::resolve_extends_path(&c, &[false, true, true], "x").ok(), Some("b".to_string()));
    match TsConfig::resolve_extends_path(&c, &[false, false, false], "x") {
        Err(AnalysisError::UnresolvedExtends(e)) => assert_eq!(e, "x"),
        _ => panic!("expected an unresolved extends"),
    }
}

#[test]
fn circular_extends_is_refused() {
    let mut chain = ExtendsChain::new();
    assert!(chain.enter("/p/a.json", "a.json").is_ok());
    assert!(chain.enter("/p/b.json", "../b.json").is_ok());
    match chain.enter("/p/a.json", "./a.json") {
        Err(AnalysisError::CircularExtends(p)) => assert_eq!(p, "./a.json"),
        _ => panic!("expected a cycle"),
    }
    assert_eq!(chain.visited.len(), 2);
}

#[test]
fn extends_candidates_follow_the_platform_absoluteness() {
    assert_eq!(
        TsConfig::resolve_extends_candidates("/p", "/etc/ts.json"),
        vec!["/etc/ts.json", "/etc/ts.json", "/etc/ts.json/tsconfig.json"]
    );
    assert_eq!(
        TsConfig::resolve_extends_candidates("/p", "base"),
        vec!["/p/node_modules/base", "/p/node_modules/base.json", "/p/node_modules/base/tsconfig.json", "/node_modules/base", "/node_modules/base.json", "/node_modules/base/tsconfig.json"]
    );
}
