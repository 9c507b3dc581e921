use archlint::detectors::{
    ArchSmell, CriticalEdge, CycleCluster, Explanation, HotspotInfo, LocationDetail, MetricArg, Severity, SmellMetric, SmellType,
};
use archlint::graph::CodeRange;
use archlint::report::json::{generate_json, json_type_of, ReportJson};
use archlint::report::summary::{GradeLevel, SmellCounts};

fn get<'a>(j: &'a ReportJson, key: &str) -> &'a ReportJson {
    match j {
        ReportJson::Object(es) => &es.iter().find(|(k, _)| k == key).expect("missing key").1,
        _ => panic!("not an object"),
    }
}

fn has(j: &ReportJson, key: &str) -> bool {
    match j {
        ReportJson::Object(es) => es.iter().any(|(k, _)| k == key),
        _ => false,
    }
}

fn text(s: &str) -> ReportJson {
    ReportJson::Str(s.to_string())
}

fn explanation() -> Explanation {
    Explanation {
        problem: "P".to_string(),
        reason: "R".to_string(),
        risks: vec!["r1".to_string()],
        recommendations: vec!["c1".to_string(), "c2".to_string()],
    }
}

fn smell(t: SmellType, files: &[&str], locations: Vec<LocationDetail>) -> (ArchSmell, Explanation) {
    (
        ArchSmell { metrics: vec![], cluster: None,
            smell_type: t,
            severity: Severity::High,
            files: files.iter().map(|f| f.to_string()).collect(),
            locations,
        },
        explanation(),
    )
}

#[test]
fn json_type_names() {
    assert_eq!(json_type_of(&SmellType::CyclicDependency), "cyclic_dependency");
    assert_eq!(json_type_of(&SmellType::CyclicDependencyCluster), "cyclic_dependency_cluster");
    assert_eq!(
        json_type_of(&SmellType::DeadSymbol { name: "foo".into(), kind: "function".into() }),
        "dead_symbol: foo (function)"
    );
    assert_eq!(
        json_type_of(&SmellType::HighComplexity { name: "f".into(), line: 12, complexity: 25 }),
        "high_complexity: f at line 12 (complexity: 25)"
    );
    assert_eq!(json_type_of(&SmellType::FeatureEnvy { most_envied_module: "src/b.ts".into() }), "feature_envy: envies src/b.ts");
    assert_eq!(json_type_of(&SmellType::HubDependency { package: "lodash".into() }), "hub_dependency: lodash");
    assert_eq!(json_type_of(&SmellType::TestLeakage { test_file: "a.test.ts".into() }), "test_leakage: imports a.test.ts");
    assert_eq!(
        json_type_of(&SmellType::LayerViolation { from_layer: "ui".into(), to_layer: "db".into() }),
        "layer_violation: ui -> db"
    );
    assert_eq!(json_type_of(&SmellType::SdpViolation), "sdp_violation");
    assert_eq!(json_type_of(&SmellType::HubModule), "HubModule");
    assert_eq!(json_type_of(&SmellType::HighCoupling { cbo: 7 }), "HighCoupling { cbo: 7 }");
}

#[test]
fn json_report_summary_and_smells() {
    let mut loc = LocationDetail::new("/p/a.ts".to_string(), 3, "import".to_string());
    loc.column = Some(5);
    loc.range = Some(CodeRange { start_line: 3, start_column: 5, end_line: 3, end_column: 9 });
    let plain = LocationDetail::new("/p/b.ts".to_string(), 7, String::new());
    let smells = vec![
        smell(SmellType::CyclicDependencyCluster, &["/p/a.ts", "/p/b.ts", "/p/c.ts"], vec![loc, plain]),
        smell(SmellType::GodModule, &["/p/g.ts"], vec![]),
        smell(SmellType::CyclicDependencyCluster, &["/p/x.ts", "/p/y.ts"], vec![]),
    ];
    let mut counts = SmellCounts::new();
    counts.update_counts(&smells);
    let j = generate_json(&smells, &counts, 10, "7.5", GradeLevel::Good, "0.40");

    let summary = get(&j, "summary");
    assert_eq!(get(summary, "files_analyzed"), &ReportJson::Num(10));
    assert_eq!(get(summary, "cyclic_dependencies"), &ReportJson::Num(2));
    assert_eq!(get(summary, "cycle_clusters"), &ReportJson::Num(2));
    assert_eq!(get(summary, "files_in_cycles"), &ReportJson::Num(5));
    assert_eq!(get(summary, "god_modules"), &ReportJson::Num(1));
    assert_eq!(get(summary, "dead_code"), &ReportJson::Num(0));
    assert_eq!(get(summary, "total_smells"), &ReportJson::Num(3));
    let grade = get(summary, "architecture_grade");
    assert_eq!(get(grade, "score"), &text("7.5"));
    assert_eq!(get(grade, "level"), &text("Good"));
    assert_eq!(get(grade, "density"), &text("0.40"));

    let items = match get(&j, "smells") {
        ReportJson::Array(items) => items,
        _ => panic!("smells is not an array"),
    };
    assert_eq!(items.len(), 3);
    let first = &items[0];
    assert_eq!(get(first, "type"), &text("cyclic_dependency_cluster"));
    assert_eq!(get(first, "severity"), &text("High"));
    assert_eq!(get(first, "files"), &ReportJson::Array(vec![text("/p/a.ts"), text("/p/b.ts"), text("/p/c.ts")]));
    let locations = match get(first, "locations") {
        ReportJson::Array(l) => l,
        _ => panic!("locations is not an array"),
    };
    assert_eq!(locations.len(), 2);
    assert_eq!(get(&locations[0], "file"), &text("/p/a.ts"));
    assert_eq!(get(&locations[0], "line"), &ReportJson::Num(3));
    assert_eq!(get(&locations[0], "description"), &text("import"));
    assert_eq!(get(&locations[0], "column"), &ReportJson::Num(5));
    assert_eq!(get(get(&locations[0], "range"), "end_column"), &ReportJson::Num(9));
    assert!(!has(&locations[1], "column"));
    assert!(!has(&locations[1], "range"));
    assert_eq!(get(&locations[1], "description"), &text(""));
    let expl = get(first, "explanation");
    assert_eq!(get(expl, "problem"), &text("P"));
    assert_eq!(get(expl, "recommendations"), &ReportJson::Array(vec![text("c1"), text("c2")]));
    assert_eq!(get(&items[1], "type"), &text("god_module"));
}

#[test]
fn json_report_of_nothing() {
    let smells: Vec<(ArchSmell, Explanation)> = vec![];
    let counts = SmellCounts::new();
    let j = generate_json(&smells, &counts, 0, "10.0", GradeLevel::Excellent, "0.00");
    let summary = get(&j, "summary");
    assert_eq!(get(summary, "cycle_clusters"), &ReportJson::Num(0));
    assert_eq!(get(summary, "files_in_cycles"), &ReportJson::Num(0));
    assert_eq!(get(summary, "total_smells"), &ReportJson::Num(0));
    assert_eq!(get(&j, "smells"), &ReportJson::Array(vec![]));
}

#[test]
fn json_smell_metrics_and_cluster() {
    let mut s = smell(SmellType::CyclicDependencyCluster, &["/p/a.ts", "/p/b.ts"], vec![]);
    s.0.metrics = vec![
        SmellMetric { name: "Churn".to_string(), value: MetricArg::Int(-2) },
        SmellMetric { name: "InstabilityDiff".to_string(), value: MetricArg::Float("0.5".to_string()) },
    ];
    s.0.cluster = Some(CycleCluster {
        files: vec!["/p/a.ts".to_string(), "/p/b.ts".to_string()],
        hotspots: vec![HotspotInfo { file: "/p/a.ts".to_string(), in_degree: 1, out_degree: 2 }],
        critical_edges: vec![CriticalEdge {
            from: "/p/a.ts".to_string(),
            to: "/p/b.ts".to_string(),
            line: 3,
            range: Some(CodeRange { start_line: 3, start_column: 7, end_line: 3, end_column: 20 }),
            impact: "high".to_string(),
        }],
        internal_edges: vec![LocationDetail::new("/p/a.ts".to_string(), 3, "x".to_string())],
    });
    let smells = vec![s];
    let mut counts = SmellCounts::new();
    counts.update_counts(&smells);
    let j = generate_json(&smells, &counts, 2, "5.0", GradeLevel::Fair, "1.00");
    let item = match get(&j, "smells") {
        ReportJson::Array(items) => &items[0],
        _ => panic!("smells is not an array"),
    };
    let metrics = match get(item, "metrics") {
        ReportJson::Array(m) => m,
        _ => panic!("metrics is not an array"),
    };
    assert_eq!(get(&metrics[0], "churn"), &ReportJson::Int(-2));
    assert_eq!(get(&metrics[1], "instabilityDiff"), &ReportJson::Float("0.5".to_string()));
    let cluster = get(item, "cluster");
    assert_eq!(get(cluster, "internal_edges_count"), &ReportJson::Num(1));
    let edges = match get(cluster, "critical_edges") {
        ReportJson::Array(e) => e,
        _ => panic!("critical_edges is not an array"),
    };
    assert_eq!(get(&edges[0], "column"), &ReportJson::Num(7));
    assert_eq!(get(&edges[0], "impact"), &text("high"));
    let hotspots = match get(cluster, "hotspots") {
        ReportJson::Array(h) => h,
        _ => panic!("hotspots is not an array"),
    };
    assert_eq!(get(&hotspots[0], "out_degree"), &ReportJson::Num(2));
    assert!(!has(&items_first_without_cluster(), "cluster"));
}

fn items_first_without_cluster() -> ReportJson {
    let smells = vec![smell(SmellType::GodModule, &["/p/g.ts"], vec![])];
    let mut counts = SmellCounts::new();
    counts.update_counts(&smells);
    let j = generate_json(&smells, &counts, 1, "9.0", GradeLevel::Excellent, "0.10");
    match get(&j, "smells") {
        ReportJson::Array(items) => {
            let first = &items[0];
            assert_eq!(get(first, "metrics"), &ReportJson::Array(vec![]));
            match first {
                ReportJson::Object(es) => ReportJson::Object(es.iter().map(|(k, _)| (k.clone(), ReportJson::Num(0))).collect()),
                _ => panic!("not an object"),
            }
        }
        _ => panic!("smells is not an array"),
    }
}
