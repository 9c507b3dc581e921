use archlint::tsconfig::resolver::TsConfigResolver;
use archlint::tsconfig::types::{CompilerOptions, PathAliases, TsConfig};
use archlint::utils::package::PackageUtils;

#[test]
fn package_name_of_plain_and_scoped_specifiers() {
    assert_eq!(PackageUtils::extract_package_name("lodash/get"), "lodash");
    assert_eq!(PackageUtils::extract_package_name("lodash"), "lodash");
    assert_eq!(PackageUtils::extract_package_name("@scope/pkg/utils"), "@scope/pkg");
    assert_eq!(PackageUtils::extract_package_name("@scope"), "@scope");
}

#[test]
fn external_packages_are_not_paths() {
    assert!(PackageUtils::is_external_package("react"));
    assert!(!PackageUtils::is_external_package("./local"));
    assert!(!PackageUtils::is_external_package("/abs"));
    assert!(PackageUtils::is_external_package(""));
}

#[test]
fn ignore_patterns() {
    assert!(PackageUtils::matches_ignore_pattern("@types/node", "@types/*"));
    assert!(!PackageUtils::matches_ignore_pattern("@typesx/node", "@types/*"));
    assert!(PackageUtils::matches_ignore_pattern("eslint-plugin-x", "eslint-*"));
    assert!(PackageUtils::matches_ignore_pattern("react", "react"));
    assert!(!PackageUtils::matches_ignore_pattern("react-dom", "react"));
}

#[test]
fn builtins_are_ignored() {
    assert!(PackageUtils::is_builtin_package("fs"));
    assert!(PackageUtils::is_builtin_package("node:test"));
    assert!(!PackageUtils::is_builtin_package("lodash"));
    assert!(PackageUtils::should_ignore_package("path", &[]));
    assert!(PackageUtils::should_ignore_package("jest", &["jest".to_string()]));
    assert!(!PackageUtils::should_ignore_package("jest", &["vitest".to_string()]));
}

#[test]
fn package_specifier_split() {
    assert_eq!(
        TsConfigResolver::parse_package_specifier("@my-org/config/base.json"),
        ("@my-org/config".to_string(), Some("base.json".to_string()))
    );
    assert_eq!(TsConfigResolver::parse_package_specifier("@my-org/config"), ("@my-org/config".to_string(), None));
    assert_eq!(
        TsConfigResolver::parse_package_specifier("pkg/tsconfig.json"),
        ("pkg".to_string(), Some("tsconfig.json".to_string()))
    );
    assert_eq!(TsConfigResolver::parse_package_specifier("@scope"), ("@scope".to_string(), None));
}

fn aliases(entries: &[(&str, &str)]) -> PathAliases {
    let mut p = PathAliases::new();
    for (k, v) in entries {
        p.insert_if_absent(k.to_string(), vec![v.to_string()]);
    }
    p
}

#[test]
fn test_extends_and_merge() {
    let child = TsConfig {
        compiler_options: Some(CompilerOptions {
            paths: Some(aliases(&[("@app/*", "app/*"), ("@overridden/*", "app-overridden/*")])),
            base_url: None,
            out_dir: Some("out".to_string()),
            root_dir: None,
        }),
        exclude: vec!["custom-exclude".to_string()],
        extends: Some("./tsconfig.base.json".to_string()),
    };
    let parent = TsConfig {
        compiler_options: Some(CompilerOptions {
            paths: Some(aliases(&[("@base/*", "base/*"), ("@overridden/*", "base-overridden/*")])),
            base_url: Some(".".to_string()),
            out_dir: Some("dist".to_string()),
            root_dir: None,
        }),
        exclude: vec!["node_modules".to_string(), "dist".to_string(), "custom-exclude".to_string()],
        extends: None,
    };
    let merged = child.merge_with_parent(parent);
    let opts = merged.compiler_options.unwrap();
    let paths = opts.paths.unwrap();
    assert_eq!(paths.get("@base/*"), Some(&vec!["base/*".to_string()]));
    assert_eq!(paths.get("@app/*"), Some(&vec!["app/*".to_string()]));
    assert_eq!(paths.get("@overridden/*"), Some(&vec!["app-overridden/*".to_string()]));
    assert_eq!(opts.base_url, Some(".".to_string()));
    assert_eq!(opts.out_dir, Some("out".to_string()));
    assert_eq!(merged.exclude, vec!["custom-exclude".to_string(), "node_modules".to_string(), "dist".to_string()]);
}

#[test]
fn merge_without_parent_options_keeps_child() {
    let child = TsConfig { compiler_options: None, exclude: vec![], extends: None };
    let parent = TsConfig { compiler_options: None, exclude: vec!["a".to_string(), "a".to_string()], extends: None };
    let merged = child.merge_with_parent(parent);
    assert!(merged.compiler_options.is_none());
    assert_eq!(merged.exclude, vec!["a".to_string()]);
}
