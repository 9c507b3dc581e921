use archlint::detectors::{ArchSmell, Explanation, LocationDetail, Severity, SmellType};
use archlint::graph::CodeRange;
use archlint::report::facts::SmellFacts;
use archlint::report::location::{format_location, format_location_parts};
use archlint::report::markdown::{complexity, dead_symbols, hub_deps, large_files, unstable};

fn explanation() -> Explanation {
    Explanation { problem: "P".to_string(), reason: "R".to_string(), risks: vec![], recommendations: vec![] }
}

fn smell(t: SmellType, files: &[&str], locations: Vec<LocationDetail>) -> (ArchSmell, Explanation) {
    (
        ArchSmell { metrics: vec![], cluster: None, smell_type: t, severity: Severity::Medium, files: files.iter().map(|f| f.to_string()).collect(), locations },
        explanation(),
    )
}

fn facts(score: usize) -> SmellFacts {
    SmellFacts {
        score,
        effective_severity: Severity::High,
        lines: Some(1200),
        churn: Some(40),
        fan_in: Some(12),
        instability_score: Some(480),
        dependant_count: Some(25),
        complexity: Some(31),
        display_path: Some("src/big.ts".to_string()),
        location_path: None,
        fan_out: None,
        ratio_text: None,
        co_change_text: None,
        used_by: vec![],
        depends_on: vec![],
        shown_paths: vec![],
    }
}

const EXPLAINED: &str = "**Problem:** P\n\n**Reason:** R\n\n**Risks:**\n\n**Recommendations:**\n\n";

#[test]
fn location_texts() {
    assert_eq!(format_location_parts("a.ts", 0, None, None, ""), "a.ts");
    assert_eq!(format_location_parts("a.ts", 3, Some(7), None, ""), "a.ts:3:7");
    let one = CodeRange { start_line: 4, start_column: 1, end_line: 4, end_column: 9 };
    let many = CodeRange { start_line: 4, start_column: 1, end_line: 6, end_column: 2 };
    assert_eq!(format_location_parts("a.ts", 4, Some(2), Some(one), "import"), "a.ts:4:2 (import)");
    assert_eq!(format_location_parts("a.ts", 4, Some(2), Some(many), ""), "a.ts:4-6");
    assert_eq!(format_location("a.ts", 0, Some(3)), "a.ts");
    assert_eq!(format_location("a.ts", 9, None), "a.ts:9");
}

#[test]
fn hub_section() {
    assert_eq!(hub_deps::generate(&[], &[]), "");
    let s = vec![smell(SmellType::HubDependency { package: "lodash".into() }, &[], vec![])];
    let expected = format!(
        "## Hub Dependencies (1 packages)\n\n{EXPLAINED}| Package | Dependants | pts |\n|---------|------------|-----|\n| `lodash` | 25 files | 7 pts |\n\n"
    );
    assert_eq!(hub_deps::generate(&s, &[facts(7)]), expected);
}

#[test]
fn large_files_section() {
    let s = vec![smell(SmellType::LargeFile, &["/p/src/big.ts"], vec![]), smell(SmellType::LargeFile, &[], vec![])];
    let expected = format!(
        "## Large Files (2 files)\n\n{EXPLAINED}| File | Lines | Severity |\n|------|-------|----------|\n| `src/big.ts` | 1200 | 🟠 High (9 pts) |\n\n"
    );
    assert_eq!(large_files::generate(&s, &[facts(9), facts(1)]), expected);
}

#[test]
fn unstable_section() {
    let mut f = facts(3);
    f.display_path = None;
    f.fan_in = None;
    let s = vec![smell(SmellType::UnstableInterface, &["core.ts"], vec![])];
    let expected = format!(
        "## Unstable Interfaces (1 files)\n\n{EXPLAINED}| File | Churn | Dependants | Score | pts |\n|------|-------|------------|-------|-----|\n| `core.ts` | 40 | 0 | 480 | 3 pts |\n\n"
    );
    assert_eq!(unstable::generate(&s, &[f]), expected);
}

#[test]
fn dead_symbols_section() {
    let loc = LocationDetail { file: "/p/a.ts".into(), line: 5, column: Some(1), range: None, description: String::new() };
    let s = vec![
        smell(SmellType::DeadSymbol { name: "foo".into(), kind: "function".into() }, &["/p/a.ts"], vec![loc]),
        smell(SmellType::DeadSymbol { name: "bar".into(), kind: "class".into() }, &[], vec![]),
    ];
    let expected = "## Dead Symbols (2 symbols)\n\n| Location | Symbol | Kind |\n|----------|--------|------|\n| `/p/a.ts:5:1` | `foo` | function |\n| `unknown` | `bar` | class |\n\n";
    assert_eq!(dead_symbols::generate(&s, &[facts(0), facts(0)]), expected);
}

#[test]
fn complexity_section() {
    let s = vec![smell(SmellType::HighComplexity { name: "run".into(), line: 42, complexity: 31 }, &["/p/x.ts"], vec![])];
    let expected = "## High Complexity Functions (1 functions)\n\n| Location | Function | Complexity | Score |\n|----------|----------|------------|-------|\n| `src/big.ts:42` | `run` | 31 | 5 pts |\n\n";
    assert_eq!(complexity::generate(&s, &[facts(5)]), expected);
}
