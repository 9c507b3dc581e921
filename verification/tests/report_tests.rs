use archlint::detectors::{ArchSmell, Explanation, Severity, SmellType};
use archlint::report::markdown::common::{append_explanation, extract_filename, extract_short_directory, group_files_by_directory};
use archlint::report::markdown::dead_code;
use archlint::report::summary::{format_smell_type, SmellCounts};

fn explanation() -> Explanation {
    Explanation {
        problem: "P".to_string(),
        reason: "R".to_string(),
        risks: vec!["r1".to_string()],
        recommendations: vec!["c1".to_string(), "c2".to_string()],
    }
}

fn smell(t: SmellType, files: &[&str]) -> (ArchSmell, Explanation) {
    (
        ArchSmell { metrics: vec![], cluster: None, smell_type: t, severity: Severity::Low, files: files.iter().map(|f| f.to_string()).collect(), locations: vec![] },
        explanation(),
    )
}

#[test]
fn smell_type_labels() {
    assert_eq!(format_smell_type(&SmellType::CyclicDependency), "Cyclic Dependency");
    assert_eq!(
        format_smell_type(&SmellType::HighComplexity { name: "f".into(), line: 3, complexity: 12 }),
        "Complexity\n(f: 12)"
    );
    assert_eq!(
        format_smell_type(&SmellType::LayerViolation { from_layer: "ui".into(), to_layer: "db".into() }),
        "Layer Violation\n(ui -> db)"
    );
    assert_eq!(format_smell_type(&SmellType::PackageCycle { packages: vec!["a".into(), "b".into()] }), "Package Cycle\n(2 packages)");
    assert_eq!(format_smell_type(&SmellType::Unknown { raw_type: "X".into() }), "Unknown Smell (X)");
}

#[test]
fn counts_follow_smells() {
    let smells = vec![
        smell(SmellType::CyclicDependency, &["a.ts"]),
        smell(SmellType::CyclicDependencyCluster, &["b.ts"]),
        smell(SmellType::GodModule, &["c.ts"]),
        smell(SmellType::SdpViolation, &["d.ts"]),
    ];
    let mut counts = SmellCounts::new();
    counts.update_counts(&smells);
    assert_eq!(counts.cyclic_dependencies, 2);
    assert_eq!(counts.god_modules, 1);
    assert_eq!(counts.dead_code, 0);
}

#[test]
fn explanation_markdown() {
    let mut out = String::from("X");
    append_explanation(&mut out, &explanation());
    assert_eq!(out, "X**Problem:** P\n\n**Reason:** R\n\n**Risks:**\n- r1\n\n**Recommendations:**\n- c1\n- c2\n\n");
}

#[test]
fn short_directory_and_name() {
    assert_eq!(extract_short_directory("/a/b/c/d/e.ts"), "b/c/d");
    assert_eq!(extract_short_directory("e.ts"), ".");
    assert_eq!(extract_filename("/a/b/e.ts"), "e.ts");
    assert_eq!(extract_filename("/"), "unknown");
}

#[test]
fn files_grouped_and_sorted() {
    let smells = vec![
        smell(SmellType::DeadCode, &["/p/src/z.ts"]),
        smell(SmellType::DeadCode, &["/p/lib/a.ts"]),
        smell(SmellType::DeadCode, &["/p/src/b.ts"]),
        smell(SmellType::DeadCode, &[]),
    ];
    let groups = group_files_by_directory(&smells);
    assert_eq!(
        groups,
        vec![
            ("p/lib".to_string(), vec!["a.ts".to_string()]),
            ("p/src".to_string(), vec!["b.ts".to_string(), "z.ts".to_string()]),
        ]
    );
}

#[test]
fn dead_code_section() {
    assert_eq!(dead_code::generate(&[]), "");
    let smells = vec![smell(SmellType::DeadCode, &["/p/src/a.ts"])];
    let out = dead_code::generate(&smells);
    assert!(out.starts_with("## Dead Code (1 files)\n\n**Problem:** P"));
    assert!(out.ends_with("### Files by Directory\n\n**p/src** (1 files):\n- `a.ts`\n\n"));
}
