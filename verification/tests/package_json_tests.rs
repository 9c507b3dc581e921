use archlint::package_json::{JsonValue, PackageJsonParser};
use archlint::tsconfig::resolver::TsConfigResolver;

fn s(x: &str) -> String {
    x.to_string()
}

fn manifest() -> JsonValue {
    JsonValue::Object(vec![
        (s("name"), JsonValue::Str(s("pkg"))),
        (s("main"), JsonValue::Str(s("dist/index.js"))),
        (s("module"), JsonValue::Other),
        (
            s("exports"),
            JsonValue::Object(vec![
                (s("."), JsonValue::Object(vec![(s("import"), JsonValue::Str(s("./esm/a.js"))), (s("types"), JsonValue::Other)])),
                (s("./b"), JsonValue::Array(vec![JsonValue::Str(s("./b.js")), JsonValue::Str(s("./b.cjs"))])),
            ]),
        ),
        (
            s("scripts"),
            JsonValue::Object(vec![
                (s("start"), JsonValue::Str(s("node dist/server.js"))),
                (s("n"), JsonValue::Other),
                (s("watch"), JsonValue::Str(s("tsx watch plugins/**/*.js"))),
            ]),
        ),
    ])
}

#[test]
fn exports_are_read_in_document_order() {
    let mut named = Vec::new();
    let json = manifest();
    if let JsonValue::Object(es) = &json {
        PackageJsonParser::process_exports_value(&es[3].1, &mut named);
    }
    assert_eq!(named, vec![s("./esm/a.js"), s("./b.js"), s("./b.cjs")]);
}

#[test]
fn scripts_give_entry_points_and_globs() {
    let mut named = Vec::new();
    let mut patterns = Vec::new();
    PackageJsonParser::parse_script("node dist/server.js", &mut named, &mut patterns);
    assert_eq!(named, vec![s("dist/server.js")]);
    assert!(patterns.is_empty());
    PackageJsonParser::parse_script("tsx watch plugins/**/*.js", &mut named, &mut patterns);
    assert_eq!(patterns, vec![s("plugins/**/*.ts")]);
    PackageJsonParser::parse_script("tsx watch plugins/**/*.js", &mut named, &mut patterns);
    assert_eq!(patterns, vec![s("plugins/**/*.ts")]);
}

#[test]
fn whole_manifest() {
    let mut candidates = Vec::new();
    let mut patterns = Vec::new();
    PackageJsonParser::process_package_json(&manifest(), "/p", &mut candidates, &mut patterns);
    assert_eq!(
        candidates,
        vec![
            s("/p/dist/index.js"),
            s("dist/index.js"),
            s("/p/src/index.ts"),
            s("/p/./esm/a.js"),
            s("./esm/a.js"),
            s("/p/./b.js"),
            s("./b.js"),
            s("/p/./b.cjs"),
            s("./b.cjs"),
            s("/p/dist/server.js"),
            s("dist/server.js"),
            s("/p/src/server.ts"),
        ]
    );
    assert_eq!(patterns, vec![s("plugins/**/*.ts")]);
    assert_eq!(PackageJsonParser::package_dir("/p/package.json", "/root"), "/p");
}

#[test]
fn tsconfig_from_package_fields() {
    let pkg = JsonValue::Object(vec![
        (s("tsconfig"), JsonValue::Str(s("tsconfig.base.json"))),
        (
            s("exports"),
            JsonValue::Object(vec![
                (s("./node18"), JsonValue::Str(s("./node18.json"))),
                (s("./strict"), JsonValue::Object(vec![(s("import"), JsonValue::Str(s("./i.json"))), (s("default"), JsonValue::Str(s("./d.json")))])),
                (s("./odd"), JsonValue::Object(vec![(s("types"), JsonValue::Other), (s("default"), JsonValue::Str(s("./d.json")))])),
            ]),
        ),
    ]);
    assert_eq!(TsConfigResolver::resolve_via_package_json_field("/nm/cfg", &pkg), Some(s("/nm/cfg/tsconfig.base.json")));
    assert_eq!(TsConfigResolver::resolve_via_package_json_field("/nm/cfg", &JsonValue::Other), None);
    assert_eq!(TsConfigResolver::resolve_via_exports("/nm/cfg", &pkg, "node18"), Some(s("/nm/cfg/./node18.json")));
    assert_eq!(TsConfigResolver::resolve_via_exports("/nm/cfg", &pkg, "strict"), Some(s("/nm/cfg/./d.json")));
    assert_eq!(TsConfigResolver::resolve_via_exports("/nm/cfg", &pkg, "odd"), None);
    assert_eq!(TsConfigResolver::resolve_via_exports("/nm/cfg", &pkg, "missing"), None);
}
