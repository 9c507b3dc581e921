use archlint::detectors::{ArchSmell, Explanation, LocationDetail, Severity, SmellType};
use archlint::graph::CodeRange;
use archlint::report::sarif::{format_sarif_message, generate_sarif, map_locations, map_severity, normalize_path};

#[test]
fn sarif_levels() {
    assert_eq!(map_severity(&Severity::Low), "note");
    assert_eq!(map_severity(&Severity::Medium), "warning");
    assert_eq!(map_severity(&Severity::High), "error");
    assert_eq!(map_severity(&Severity::Critical), "error");
}

#[test]
fn sarif_message_text() {
    let e = Explanation {
        problem: "Cycle".into(),
        reason: "Imports loop".into(),
        risks: vec!["r".into()],
        recommendations: vec!["Split".into(), "Invert".into()],
    };
    assert_eq!(format_sarif_message(&e), "Cycle\n\nReason: Imports loop\n\nRecommendations:\nSplit\nInvert");
}

#[test]
fn sarif_uris_are_relative_with_forward_slashes() {
    assert_eq!(normalize_path("/p/src/a.ts", Some("/p")), "src/a.ts");
    assert_eq!(normalize_path("/q/a.ts", Some("/p")), "/q/a.ts");
    assert_eq!(normalize_path("src\\win\\a.ts", None), "src/win/a.ts");
}

#[test]
fn sarif_locations_from_places_or_files() {
    let range = CodeRange { start_line: 3, start_column: 2, end_line: 5, end_column: 9 };
    let smell = ArchSmell { metrics: vec![], cluster: None,
        smell_type: SmellType::CyclicDependency,
        severity: Severity::High,
        files: vec!["/p/a.ts".into(), "/p/b.ts".into()],
        locations: vec![LocationDetail { file: "/p/a.ts".into(), line: 0, column: Some(4), range: Some(range), description: String::new() }],
    };
    let locs = map_locations(&smell, Some("/p"));
    assert_eq!(locs.len(), 1);
    assert_eq!(locs[0].physical_location.artifact_location.uri, "a.ts");
    let region = locs[0].physical_location.region.as_ref().unwrap();
    assert_eq!(region.start_line, 1);
    assert_eq!(region.start_column, Some(4));
    assert_eq!(region.end_line, Some(5));
    assert_eq!(region.end_column, Some(9));

    let plain = ArchSmell { metrics: vec![], cluster: None, locations: vec![], ..smell };
    let locs = map_locations(&plain, None);
    assert_eq!(locs.len(), 2);
    assert_eq!(locs[1].physical_location.artifact_location.uri, "/p/b.ts");
    assert_eq!(locs[1].physical_location.region.as_ref().unwrap().end_line, None);
}

fn plain_smell(t: SmellType, severity: Severity, files: &[&str], locations: Vec<LocationDetail>) -> (ArchSmell, Explanation) {
    (
        ArchSmell {
            smell_type: t,
            severity,
            files: files.iter().map(|f| f.to_string()).collect(),
            metrics: vec![],
            locations,
            cluster: None,
        },
        Explanation { problem: "P".into(), reason: "R".into(), risks: vec![], recommendations: vec!["do".into()] },
    )
}

#[test]
fn test_generate_sarif() {
    let smells = vec![plain_smell(
        SmellType::CyclicDependency,
        Severity::High,
        &["a.ts", "b.ts"],
        vec![LocationDetail::new("a.ts".to_string(), 1, "import b".to_string())],
    )];
    let names = vec![("cyclic_dependency".to_string(), "Cyclic Dependency".to_string())];
    let sarif = generate_sarif(&smells, None, "0.1.0", &names);
    assert_eq!(sarif.version, "2.1.0");
    assert_eq!(sarif.results.len(), 1);
    assert_eq!(sarif.results[0].rule_id, "cyclic_dependency");
    assert_eq!(sarif.results[0].level, "error");
    assert!(sarif.results[0].message.contains("Reason:"));
    assert_eq!(sarif.rules.len(), 1);
    assert_eq!(sarif.rules[0].short_description, "Cyclic Dependency");
    assert_eq!(
        sarif.rules[0].help_uri.as_deref(),
        Some("https://archlinter.github.io/archlint/detectors/cyclic_dependency.html")
    );
}

#[test]
fn test_sarif_relative_paths_and_windows_separators() {
    let smells = vec![plain_smell(SmellType::GodModule, Severity::Medium, &["/project/src/main.ts"], vec![])];
    let sarif = generate_sarif(&smells, Some("/project"), "0.1.0", &[]);
    assert_eq!(sarif.results[0].locations[0].physical_location.artifact_location.uri, "src/main.ts");
}

#[test]
fn test_sarif_severity_mapping() {
    let smells = vec![
        plain_smell(SmellType::DeadCode, Severity::Low, &["low.ts"], vec![]),
        plain_smell(SmellType::GodModule, Severity::Medium, &["med.ts"], vec![]),
        plain_smell(SmellType::CyclicDependency, Severity::Critical, &["crit.ts"], vec![]),
        plain_smell(SmellType::DeadCode, Severity::Low, &["low2.ts"], vec![]),
    ];
    let sarif = generate_sarif(&smells, None, "0.1.0", &[]);
    assert_eq!(sarif.results[0].level, "note");
    assert_eq!(sarif.results[1].level, "warning");
    assert_eq!(sarif.results[2].level, "error");
    let ids: Vec<&str> = sarif.rules.iter().map(|r| r.id.as_str()).collect();
    assert_eq!(ids, vec!["dead_code", "god_module", "cyclic_dependency"]);
}

#[test]
fn test_sarif_empty_report() {
    let sarif = generate_sarif(&[], None, "0.1.0", &[]);
    assert_eq!(sarif.results.len(), 0);
    assert_eq!(sarif.rules.len(), 0);
}
