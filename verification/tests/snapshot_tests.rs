use archlint::detectors::{ArchSmell, Explanation, LocationDetail, Severity, SmellType};
use archlint::detectors::{CriticalEdge, CycleCluster, HotspotInfo, MetricArg, SmellMetric};
use archlint::graph::CodeRange;
use archlint::report::summary::GradeLevel;
use archlint::snapshot::smell_text::smell_text_of;
use archlint::snapshot::generator::{count_by_type, smell_type_to_string, KindMetric, SnapshotGenerator};
use archlint::snapshot::id::{generate_smell_id, id_for_cycle, id_for_file_smell, short_hash};
use archlint::snapshot::types::{validate_snapshot, SnapshotError};

#[test]
fn test_cycle_id_is_order_independent() {
    let root = "/project";
    let files1 = vec!["/project/a.ts".to_string(), "/project/b.ts".to_string()];
    let files2 = vec!["/project/b.ts".to_string(), "/project/a.ts".to_string()];
    let id1 = id_for_cycle(&files1, root);
    let id2 = id_for_cycle(&files2, root);
    assert_eq!(id1, id2);
}

#[test]
fn test_file_smell_id_uses_relative_path() {
    let id = id_for_file_smell("/project/src/service.ts", "god", "/project");
    assert_eq!(id, "god:src/service.ts");
}

#[test]
fn test_short_hash_consistency() {
    let h1 = short_hash("test");
    let h2 = short_hash("test");
    let h3 = short_hash("other");
    assert_eq!(h1, h2);
    assert_ne!(h1, h3);
}

#[test]
fn short_hash_is_the_sha256_prefix() {
    // SHA-256("test") = 9f86d081884c7d65...
    assert_eq!(short_hash("test"), "9f86d081");
}

fn dead_symbol(line: usize, desc: &str) -> ArchSmell {
    let file = "/project/src/service.ts".to_string();
    ArchSmell { metrics: vec![], cluster: None,
        smell_type: SmellType::DeadSymbol { name: "unused".to_string(), kind: "function".to_string() },
        severity: Severity::Low,
        files: vec![file.clone()],
        locations: vec![LocationDetail::new(file, line, desc.to_string())],
    }
}

#[test]
fn test_id_collision_fallback_when_line_is_zero() {
    let id1 = generate_smell_id(&dead_symbol(0, "Desc 1"), "/project");
    let id2 = generate_smell_id(&dead_symbol(0, "Desc 2"), "/project");
    assert_ne!(id1, id2, "IDs should differ when descriptions differ even if line is 0");
    assert!(id1.contains(&short_hash("Desc 1")));
    assert!(id2.contains(&short_hash("Desc 2")));
}

#[test]
fn test_id_generation_no_hash_when_line_positive() {
    let id = generate_smell_id(&dead_symbol(10, "Some desc"), "/project");
    assert_eq!(id, "dead:src/service.ts:unused:10");
    assert!(!id.contains(&short_hash("Some desc")));
}

#[test]
fn test_id_generation_empty_locations_uses_debug_hash() {
    let smell = ArchSmell { metrics: vec![], cluster: None,
        smell_type: SmellType::DeadSymbol { name: "unused".to_string(), kind: "function".to_string() },
        severity: Severity::Low,
        files: vec!["/project/src/service.ts".to_string()],
        locations: vec![],
    };
    let id = generate_smell_id(&smell, "/project");
    let expected_hash = short_hash(&format!("{:?}", smell));
    assert!(id.contains(&expected_hash));
    assert!(id.ends_with(&expected_hash));
}

fn side_effect(line: usize) -> ArchSmell {
    let file = "/project/src/service.ts".to_string();
    ArchSmell { metrics: vec![], cluster: None,
        smell_type: SmellType::SideEffectImport,
        severity: Severity::Low,
        files: vec![file.clone()],
        locations: vec![LocationDetail::new(file, line, "Side effect".to_string())],
    }
}

#[test]
fn test_id_generation_side_effect_import_hash() {
    let id = generate_smell_id(&side_effect(0), "/project");
    assert!(id.starts_with("sideeffect:src/service.ts:0:"));
    assert!(id.contains(&short_hash("Side effect")));
}

#[test]
fn test_id_generation_side_effect_import_no_hash_when_line_positive() {
    let id = generate_smell_id(&side_effect(10), "/project");
    assert_eq!(id, "sideeffect:src/service.ts:10");
    assert!(!id.contains(&short_hash("Side effect")));
}

#[test]
fn smell_id_kinds_without_files() {
    let smell = ArchSmell { metrics: vec![], cluster: None,
        smell_type: SmellType::HubDependency { package: "lodash".to_string() },
        severity: Severity::Medium,
        files: vec![],
        locations: vec![],
    };
    assert_eq!(generate_smell_id(&smell, "/p"), "hub_dep:lodash");
    let smell = ArchSmell { metrics: vec![], cluster: None,
        smell_type: SmellType::LayerViolation { from_layer: "ui".to_string(), to_layer: "db".to_string() },
        severity: Severity::High,
        files: vec!["/p/src/ui/a.ts".to_string()],
        locations: vec![],
    };
    assert_eq!(generate_smell_id(&smell, "/p"), "layer:src/ui/a.ts:db");
    let smell = ArchSmell { metrics: vec![], cluster: None,
        smell_type: SmellType::GodModule,
        severity: Severity::High,
        files: vec!["/p/src\\big.ts".to_string()],
        locations: vec![],
    };
    assert_eq!(generate_smell_id(&smell, "/p"), "godmodule:src/big.ts");
}

#[test]
fn smell_id_generic_kind_hashes_sorted_files() {
    let smell = ArchSmell { metrics: vec![], cluster: None,
        smell_type: SmellType::ShotgunSurgery,
        severity: Severity::Low,
        files: vec!["/p/b.ts".to_string(), "/p/a.ts".to_string()],
        locations: vec![],
    };
    assert_eq!(generate_smell_id(&smell, "/p"), format!("shotgunsurgery:{}", short_hash("a.ts|b.ts")));
}

#[test]
fn test_validate_duplicate_ids() {
    let ids = vec!["dup".to_string(), "other".to_string(), "dup".to_string()];
    match validate_snapshot(1, &ids) {
        Err(SnapshotError::DuplicateId(id)) => assert_eq!(id, "dup"),
        other => panic!("expected a duplicate-ID error, got {other:?}"),
    }
}

#[test]
fn validate_accepts_unique_ids_and_rejects_newer_schema() {
    let ids = vec!["a:1".to_string(), "b:2".to_string()];
    assert!(validate_snapshot(1, &ids).is_ok());
    match validate_snapshot(2, &ids) {
        Err(SnapshotError::UnsupportedVersion { found, supported }) => {
            assert_eq!(found, 2);
            assert_eq!(supported, 1);
        }
        other => panic!("unexpected {other:?}"),
    }
}

#[test]
fn test_generator_sets_metadata() {
    let gen = SnapshotGenerator::new("/test".to_string()).with_commit(false);
    assert!(!gen.include_commit);
    assert_eq!(gen.project_root, "/test");
}

#[test]
fn generator_relative_files_and_locations() {
    let gen = SnapshotGenerator::new("/p".to_string());
    let smell = ArchSmell { metrics: vec![], cluster: None,
        smell_type: SmellType::LargeFile,
        severity: Severity::Low,
        files: vec!["/p/src/a.ts".to_string(), "/elsewhere/b.ts".to_string()],
        locations: vec![LocationDetail::new("/p/src/a.ts".to_string(), 3, String::new())],
    };
    assert_eq!(gen.smell_files(&smell), vec!["src/a.ts".to_string()]);
    let locs = gen.extract_locations(&smell);
    assert_eq!(locs.len(), 1);
    assert_eq!(locs[0].file, "src/a.ts");
    assert_eq!(locs[0].line, 3);
    assert!(locs[0].description.is_none());
    assert_eq!(smell_type_to_string(&smell.smell_type), "LargeFile");
}

#[test]
fn generator_counts_by_type_prefix() {
    let expl = || Explanation { problem: String::new(), reason: String::new(), risks: vec![], recommendations: vec![] };
    let mk = |t: SmellType| (ArchSmell { metrics: vec![], cluster: None, smell_type: t, severity: Severity::Low, files: vec![], locations: vec![] }, expl());
    let smells = vec![
        mk(SmellType::LayerViolation { from_layer: "a".into(), to_layer: "b".into() }),
        mk(SmellType::GodModule),
        mk(SmellType::LayerViolation { from_layer: "c".into(), to_layer: "d".into() }),
    ];
    assert_eq!(count_by_type(&smells, "LayerViolation"), 2);
    assert_eq!(count_by_type(&smells, "Cyclic"), 0);
}

#[test]
fn snapshot_files_are_sorted() {
    let gen = SnapshotGenerator::new("/project".to_string());
    let smell = ArchSmell { metrics: vec![], cluster: None,
        smell_type: SmellType::GodModule,
        severity: Severity::High,
        files: vec!["/project/b.ts".to_string(), "/project/a.ts".to_string()],
        locations: vec![],
    };
    let core = gen.convert_smell(&smell);
    assert_eq!(core.files, vec!["a.ts".to_string(), "b.ts".to_string()]);
    assert_eq!(core.id, "godmodule:b.ts");
    assert_eq!(core.smell_type, "GodModule");
    assert_eq!(core.severity, "High");
    assert_eq!(core.details, "GodModule");
    assert!(core.kind_metrics.is_empty());
}

#[test]
fn fallback_hashes_the_written_out_smell() {
    let smell = dead_symbol(0, "x");
    let smell = ArchSmell { metrics: vec![], cluster: None, locations: vec![], ..smell };
    let id = generate_smell_id(&smell, "/project");
    assert!(id.ends_with(&short_hash(&format!("{:?}", smell))));
    assert!(id.starts_with("dead:src/service.ts:unused:0:"));
}

#[test]
fn snapshot_generation() {
    let expl = || Explanation { problem: String::new(), reason: String::new(), risks: vec![], recommendations: vec![] };
    let smells = vec![
        (
            ArchSmell { metrics: vec![], cluster: None,
                smell_type: SmellType::CodeClone { clone_hash: "abc".into(), token_count: 42 },
                severity: Severity::Medium,
                files: vec!["/p/x.ts".into()],
                locations: vec![],
            },
            expl(),
        ),
        (
            ArchSmell { metrics: vec![], cluster: None, smell_type: SmellType::LayerViolation { from_layer: "ui".into(), to_layer: "db".into() }, severity: Severity::Critical, files: vec!["/p/ui/a.ts".into()], locations: vec![] },
            expl(),
        ),
    ];
    let gen = SnapshotGenerator::new("/p".to_string());
    let snap = gen.generate(&smells, 7, "1.0.0".into(), "2026-01-05T12:00:00Z".into(), Some("abcdef1".into()), GradeLevel::Good);
    assert_eq!(snap.smells.len(), 2);
    assert_eq!(snap.smells[0].id, "clone:abc");
    assert_eq!(snap.smells[0].kind_metrics, vec![("cloneHash".to_string(), KindMetric::Text("abc".into())), ("tokenCount".to_string(), KindMetric::Int(42))]);
    assert_eq!(snap.smells[0].details, "CodeClone { clone_hash: \"abc\", token_count: 42 }");
    assert_eq!(snap.smells[1].id, "layer:ui/a.ts:db");
    assert_eq!(snap.commit, Some("abcdef1".to_string()));
    assert_eq!(snap.grade, "B");
    assert_eq!(snap.summary.total_smells, 2);
    assert_eq!(snap.summary.layer_violations, 1);
    assert_eq!(snap.summary.files_analyzed, 7);
    let gen = gen.with_commit(false);
    let snap = gen.generate(&smells, 7, "1.0.0".into(), "now".into(), Some("abcdef1".into()), GradeLevel::Critical);
    assert_eq!(snap.commit, None);
    assert_eq!(snap.grade, "F");
}

#[test]
fn fallback_text_is_the_debug_form() {
    let smell = ArchSmell {
        smell_type: SmellType::DeadSymbol { name: "a\"b\\c\nd\t\u{1}\u{7f}é".to_string(), kind: "it's".to_string() },
        severity: Severity::Low,
        files: vec!["/project/src/service.ts".to_string()],
        metrics: vec![],
        locations: vec![],
        cluster: Some(CycleCluster {
            files: vec!["/project/a.ts".to_string()],
            hotspots: vec![HotspotInfo { file: "/project/a.ts".to_string(), in_degree: 2, out_degree: 3 }],
            critical_edges: vec![CriticalEdge {
                from: "/project/a.ts".to_string(),
                to: "/project/b.ts".to_string(),
                line: 4,
                range: Some(CodeRange { start_line: 4, start_column: 1, end_line: 4, end_column: 9 }),
                impact: "high".to_string(),
            }],
            internal_edges: vec![LocationDetail::new("/project/a.ts".to_string(), 4, "import".to_string())],
        }),
    };
    assert_eq!(smell_text_of(&smell), format!("{:?}", smell));
    let id = generate_smell_id(&smell, "/project");
    assert!(id.ends_with(&short_hash(&format!("{:?}", smell))));
}

#[test]
fn metrics_are_written_as_their_variants() {
    let smell = ArchSmell {
        smell_type: SmellType::GodModule,
        severity: Severity::High,
        files: vec![],
        metrics: vec![
            SmellMetric { name: "PrimitiveCount".to_string(), value: MetricArg::Int(10) },
            SmellMetric { name: "Delta".to_string(), value: MetricArg::Int(-3) },
            SmellMetric { name: "InstabilityDiff".to_string(), value: MetricArg::Float("0.5".to_string()) },
            SmellMetric { name: "Label".to_string(), value: MetricArg::Text("x\"y".to_string()) },
        ],
        locations: vec![],
        cluster: None,
    };
    assert_eq!(
        smell_text_of(&smell),
        "ArchSmell { smell_type: GodModule, severity: High, files: [], metrics: [PrimitiveCount(10), Delta(-3), InstabilityDiff(0.5), Label(\"x\\\"y\")], locations: [], cluster: None }"
    );
}

#[test]
fn test_extract_metrics_comprehensive() {
    let gen = SnapshotGenerator::new("/test".to_string());
    let smell = ArchSmell {
        smell_type: SmellType::PrimitiveObsession { primitives: 10, name: "test".to_string() },
        severity: Severity::High,
        files: vec![],
        metrics: vec![
            SmellMetric { name: "PrimitiveCount".to_string(), value: MetricArg::Int(10) },
            SmellMetric { name: "Churn".to_string(), value: MetricArg::Int(42) },
            SmellMetric { name: "InstabilityDiff".to_string(), value: MetricArg::Float("0.5".to_string()) },
        ],
        locations: vec![],
        cluster: None,
    };
    let metrics = gen.extract_metrics(&smell);
    let get = |k: &str| metrics.iter().find(|(n, _)| n == k).map(|(_, v)| v.clone());
    assert_eq!(get("primitiveCount"), Some(KindMetric::Int(10)));
    assert_eq!(get("churn"), Some(KindMetric::Int(42)));
    assert_eq!(get("instabilityDiff"), Some(KindMetric::Float("0.5".to_string())));
    assert_eq!(metrics.len(), 3);
}

#[test]
fn later_metrics_take_the_place_of_earlier_ones() {
    let gen = SnapshotGenerator::new("/p".to_string());
    let smell = ArchSmell {
        smell_type: SmellType::CodeClone { clone_hash: "h".into(), token_count: 5 },
        severity: Severity::Low,
        files: vec!["/p/a.ts".into()],
        metrics: vec![
            SmellMetric { name: "TokenCount".to_string(), value: MetricArg::Int(1) },
            SmellMetric { name: "Churn".to_string(), value: MetricArg::Int(2) },
            SmellMetric { name: "Churn".to_string(), value: MetricArg::Int(3) },
        ],
        locations: vec![],
        cluster: None,
    };
    let core = gen.convert_smell(&smell);
    let get = |k: &str| core.kind_metrics.iter().find(|(n, _)| n == k).map(|(_, v)| v.clone());
    assert_eq!(get("churn"), Some(KindMetric::Int(3)));
    assert_eq!(get("tokenCount"), Some(KindMetric::Int(5)));
    assert_eq!(get("cloneHash"), Some(KindMetric::Text("h".into())));
    assert_eq!(core.kind_metrics.len(), 3);
}
