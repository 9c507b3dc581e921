use archlint::detectors::{ArchSmell, Explanation, Severity, SmellType};
use archlint::report::severity::{apply_severity_config, determine_exit_code, total_score, SeverityConfig, SeverityWeights};
use archlint::report::summary::SmellCounts;

fn explanation() -> Explanation {
    Explanation { problem: String::new(), reason: String::new(), risks: vec![], recommendations: vec![] }
}

fn smell(t: SmellType, severity: Severity, file: &str) -> (ArchSmell, Explanation) {
    (ArchSmell { metrics: vec![], cluster: None, smell_type: t, severity, files: vec![file.to_string()], locations: vec![] }, explanation())
}

fn weights() -> SeverityWeights {
    SeverityWeights { low: 1, medium: 3, high: 5, critical: 10 }
}

fn files(smells: &[(ArchSmell, Explanation)]) -> Vec<String> {
    smells.iter().map(|(s, _)| s.files[0].clone()).collect()
}

#[test]
fn severity_sort_is_stable_and_descending() {
    let mut smells = vec![
        smell(SmellType::DeadCode, Severity::Low, "a"),
        smell(SmellType::GodModule, Severity::High, "b"),
        smell(SmellType::DeadCode, Severity::Medium, "c"),
        smell(SmellType::GodModule, Severity::High, "d"),
        smell(SmellType::CyclicDependency, Severity::Critical, "e"),
    ];
    let mut counts = SmellCounts::new();
    let config = SeverityConfig { minimum: None, minimum_score: None, weights: weights() };
    apply_severity_config(&mut smells, &mut counts, None, None, &config);
    assert_eq!(files(&smells), vec!["e", "b", "d", "c", "a"]);
    assert_eq!(counts.god_modules, 2);
    assert_eq!(counts.dead_code, 2);
    assert_eq!(counts.cyclic_dependencies, 1);
}

#[test]
fn severity_minimums_filter() {
    let base = vec![
        smell(SmellType::DeadCode, Severity::Low, "a"),
        smell(SmellType::GodModule, Severity::High, "b"),
        smell(SmellType::DeadCode, Severity::Medium, "c"),
    ];
    let config = SeverityConfig { minimum: Some(Severity::Medium), minimum_score: None, weights: weights() };
    let mut smells = base.clone();
    let mut counts = SmellCounts::new();
    apply_severity_config(&mut smells, &mut counts, None, None, &config);
    assert_eq!(files(&smells), vec!["b", "c"]);
    assert_eq!(counts.dead_code, 1);

    // The report's own minimum comes first.
    let mut smells = base.clone();
    apply_severity_config(&mut smells, &mut counts, Some(Severity::High), None, &config);
    assert_eq!(files(&smells), vec!["b"]);

    let by_score = SeverityConfig { minimum: None, minimum_score: Some(3), weights: weights() };
    let mut smells = base.clone();
    apply_severity_config(&mut smells, &mut counts, None, None, &by_score);
    assert_eq!(files(&smells), vec!["b", "c"]);
    let mut smells = base;
    apply_severity_config(&mut smells, &mut counts, None, Some(6), &by_score);
    assert!(smells.is_empty());
    assert_eq!(counts.god_modules, 0);
}

#[test]
fn exit_codes() {
    assert_eq!(determine_exit_code(&[]), 0);
    assert_eq!(determine_exit_code(&[smell(SmellType::DeadCode, Severity::Medium, "a")]), 0);
    assert_eq!(
        determine_exit_code(&[smell(SmellType::DeadCode, Severity::Low, "a"), smell(SmellType::GodModule, Severity::High, "b")]),
        1
    );
    assert_eq!(
        determine_exit_code(&[smell(SmellType::GodModule, Severity::High, "b"), smell(SmellType::DeadCode, Severity::Critical, "a")]),
        2
    );
}

#[test]
fn total_score_sums_weights() {
    let smells = vec![
        smell(SmellType::DeadCode, Severity::Low, "a"),
        smell(SmellType::GodModule, Severity::High, "b"),
        smell(SmellType::CyclicDependency, Severity::Critical, "e"),
    ];
    assert_eq!(total_score(&smells, &weights()), 16);
    assert_eq!(total_score(&[], &weights()), 0);
}
