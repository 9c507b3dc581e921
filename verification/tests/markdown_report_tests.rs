use archlint::detectors::{ArchSmell, Explanation, Severity, SmellType};
use archlint::report::facts::SmellFacts;
use archlint::report::markdown::common::group_smells_by_detector;
use archlint::report::markdown::{find_section, generate_markdown};
use archlint::report::severity::SeverityWeights;
use archlint::report::summary::{GradeLevel, SmellCounts};

fn weights() -> SeverityWeights {
    SeverityWeights { low: 1, medium: 3, high: 5, critical: 10 }
}

fn expl() -> Explanation {
    Explanation { problem: "P".into(), reason: "R".into(), risks: vec![], recommendations: vec![] }
}

fn smell(t: SmellType, severity: Severity, files: &[&str]) -> (ArchSmell, Explanation) {
    (
        ArchSmell {
            metrics: vec![],
            cluster: None,
            smell_type: t,
            severity,
            files: files.iter().map(|f| f.to_string()).collect(),
            locations: vec![],
        },
        expl(),
    )
}

fn facts(n: usize) -> Vec<SmellFacts> {
    (0..n)
        .map(|_| SmellFacts {
            score: 1,
            effective_severity: Severity::Low,
            lines: None,
            churn: None,
            fan_in: None,
            instability_score: None,
            dependant_count: None,
            complexity: None,
            display_path: None,
            location_path: None,
            fan_out: None,
            ratio_text: None,
            co_change_text: None,
            used_by: vec![],
            depends_on: vec![],
            shown_paths: vec![],
        })
        .collect()
}

fn counts_of(smells: &[(ArchSmell, Explanation)]) -> SmellCounts {
    let mut c = SmellCounts::new();
    c.update_counts(smells);
    c
}

#[test]
fn markdown_without_smells() {
    let counts = SmellCounts::new();
    let r = generate_markdown(vec![], vec![], &counts, 4, &weights(), "8.0", GradeLevel::Good, "0.30", Some("chart"), &[]);
    let summary = archlint::report::markdown::summary::generate(&counts, 4, 0, "8.0", GradeLevel::Good, "0.30");
    assert_eq!(r, format!("{}\u{2705} No architectural smells detected!\n", summary));
}

#[test]
fn markdown_one_dead_symbol() {
    let smells = vec![smell(SmellType::DeadSymbol { name: "unused".into(), kind: "function".into() }, Severity::Low, &[])];
    let counts = counts_of(&smells);
    let r = generate_markdown(smells, facts(1), &counts, 0, &weights(), "10.0", GradeLevel::Excellent, "0.00", None, &[]);
    assert!(r.starts_with("# Architecture Smell Report\n\n## Summary\n\n"));
    assert!(r.contains("| Dead code files | 0 |\n| Dead symbols | 1 |\n"));
    assert!(r.ends_with(
        "| Hub dependencies | 0 |\n\n## Dead Symbols (1 symbols)\n\n| Location | Symbol | Kind |\n|----------|--------|------|\n| `unknown` | `unused` | function |\n\n"
    ));
}

#[test]
fn markdown_sections_in_report_order() {
    let smells = vec![
        smell(SmellType::SdpViolation, Severity::Low, &["/p/s.ts"]),
        smell(SmellType::DeadSymbol { name: "f".into(), kind: "function".into() }, Severity::Low, &["/p/d.ts"]),
        smell(SmellType::CyclicDependency, Severity::High, &["/p/a.ts", "/p/b.ts"]),
    ];
    let counts = counts_of(&smells);
    let rendered = vec![
        ("cycles".to_string(), "CYCLES\n".to_string()),
        ("sdp_violation".to_string(), "SDP\n".to_string()),
        ("god_module".to_string(), "NEVER\n".to_string()),
    ];
    let r = generate_markdown(smells, facts(3), &counts, 4, &weights(), "8.0", GradeLevel::Good, "0.30", Some("```mermaid\n```\n"), &rendered);
    let tail = "## Dependency Graph (Problem Files)\n\n```mermaid\n```\n\n## Dead Symbols (1 symbols)\n\n| Location | Symbol | Kind |\n|----------|--------|------|\n| `/p/d.ts` | `f` | function |\n\nSDP\n";
    assert!(r.ends_with(tail), "{}", r);
    assert!(r.contains("| **Total Score** | **7 points** (density: 0.30) |"));
    assert!(!r.contains("NEVER"));
    // Cycles are grouped under `cyclic_dependency`, which the report's order does not list.
    assert!(!r.contains("CYCLES"));
}

#[test]
fn section_lookup_takes_first() {
    let sections = vec![("a".to_string(), "1".to_string()), ("a".to_string(), "2".to_string())];
    assert_eq!(find_section(&sections, "a").map(|s| s.as_str()), Some("1"));
    assert_eq!(find_section(&sections, "b"), None);
}

#[test]
fn grouping_by_detector() {
    let smells = vec![
        smell(SmellType::DeadCode, Severity::Low, &["a"]),
        smell(SmellType::CyclicDependency, Severity::Low, &["b"]),
        smell(SmellType::DeadCode, Severity::Low, &["c"]),
        smell(SmellType::CyclicDependencyCluster, Severity::Low, &["d"]),
        smell(SmellType::HighCyclomaticComplexity { name: "f".into(), line: 1, complexity: 20 }, Severity::Low, &["e"]),
    ];
    let groups = group_smells_by_detector(smells);
    let view: Vec<(String, Vec<String>)> =
        groups.iter().map(|(id, g)| (id.clone(), g.iter().map(|(s, _)| s.files[0].clone()).collect())).collect();
    assert_eq!(
        view,
        vec![
            ("dead_code".to_string(), vec!["a".to_string(), "c".to_string()]),
            ("cyclic_dependency".to_string(), vec!["b".to_string(), "d".to_string()]),
            ("complexity".to_string(), vec!["e".to_string()]),
        ]
    );
}
