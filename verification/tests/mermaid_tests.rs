use archlint::detectors::{ArchSmell, Explanation, Severity, SmellType};
use archlint::graph::{DependencyGraph, EdgeData};
use archlint::report::mermaid::MermaidGenerator;

fn explanation() -> Explanation {
    Explanation { problem: String::new(), reason: String::new(), risks: vec![], recommendations: vec![] }
}

fn smell(t: SmellType, files: &[&str]) -> (ArchSmell, Explanation) {
    (
        ArchSmell { metrics: vec![], cluster: None, smell_type: t, severity: Severity::Medium, files: files.iter().map(|f| f.to_string()).collect(), locations: vec![] },
        explanation(),
    )
}

#[test]
fn mermaid_empty_without_files() {
    let graph = DependencyGraph::new();
    assert_eq!(MermaidGenerator::generate(&[], &graph), "");
    let smells = vec![smell(SmellType::GodModule, &[])];
    assert_eq!(MermaidGenerator::generate(&smells, &graph), "");
}

#[test]
fn mermaid_short_names() {
    assert_eq!(MermaidGenerator::get_short_name("src/my-file.test.ts"), "my_file_test_ts");
    assert_eq!(MermaidGenerator::get_short_name("a b.js"), "a_b_js");
    assert_eq!(MermaidGenerator::get_short_name(""), "unknown");
}

#[test]
fn mermaid_first_class_wins() {
    assert_eq!(MermaidGenerator::get_css_classes(&[]), "");
    assert_eq!(MermaidGenerator::get_css_classes(&[SmellType::OrphanType { name: "T".into() }, SmellType::GodModule, SmellType::DeadCode]), "godModule");
    assert_eq!(MermaidGenerator::get_css_classes(&[SmellType::CyclicDependencyCluster]), "cycle");
}

#[test]
fn mermaid_problem_data_order() {
    let smells = vec![
        smell(SmellType::OrphanType { name: "T".into() }, &["b.ts", "a.ts"]),
        smell(SmellType::DeadCode, &["a.ts"]),
        smell(SmellType::GodModule, &["b.ts", "c.ts"]),
    ];
    let (files, classes) = MermaidGenerator::collect_problem_data(&smells);
    assert_eq!(files, vec!["b.ts".to_string(), "a.ts".to_string(), "c.ts".to_string()]);
    assert_eq!(classes, vec!["godModule".to_string(), "deadCode".to_string(), "godModule".to_string()]);
}

#[test]
fn mermaid_full_chart() {
    let mut graph = DependencyGraph::new();
    let a = graph.add_file("src/a.ts");
    let b = graph.add_file("src/b.ts");
    let c = graph.add_file("src/c.ts");
    graph.add_dependency(a, b, EdgeData::new(1));
    graph.add_dependency(b, a, EdgeData::new(2));
    graph.add_dependency(a, c, EdgeData::new(3));
    let smells = vec![smell(SmellType::CyclicDependency, &["src/a.ts", "src/b.ts"])];
    let out = MermaidGenerator::generate(&smells, &graph);
    let expected_start = "```mermaid\nflowchart LR\n    file0[a_ts]:::cycle\n    file1[b_ts]:::cycle\n\n    file0 --> file1\n    file1 --> file0\n\n    classDef deadCode";
    assert!(out.starts_with(expected_start), "{}", out);
    assert!(out.ends_with("    classDef sdpViolation fill:#ffcc99,stroke:#ff6600\n```\n"));
    assert!(!out.contains("file2"));
}
