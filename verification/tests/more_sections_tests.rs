use archlint::detectors::{ArchSmell, CriticalEdge, CycleCluster, Explanation, HotspotInfo, LocationDetail, Severity, SmellType};
use archlint::graph::CodeRange;
use archlint::report::facts::SmellFacts;
use archlint::report::markdown::{cycles, envy, god_modules, surgery};

fn explanation() -> Explanation {
    Explanation { problem: "P".to_string(), reason: "R".to_string(), risks: vec![], recommendations: vec![] }
}

const EXPLAINED: &str = "**Problem:** P\n\n**Reason:** R\n\n**Risks:**\n\n**Recommendations:**\n\n";

fn smell(t: SmellType, files: &[&str], locations: Vec<LocationDetail>) -> (ArchSmell, Explanation) {
    (
        ArchSmell {
            smell_type: t,
            severity: Severity::Medium,
            files: files.iter().map(|f| f.to_string()).collect(),
            metrics: vec![],
            locations,
            cluster: None,
        },
        explanation(),
    )
}

fn facts(score: usize) -> SmellFacts {
    SmellFacts {
        score,
        effective_severity: Severity::Medium,
        lines: None,
        churn: None,
        fan_in: None,
        instability_score: None,
        dependant_count: None,
        complexity: None,
        display_path: None,
        location_path: None,
        fan_out: None,
        ratio_text: None,
        co_change_text: None,
        used_by: vec![],
        depends_on: vec![],
        shown_paths: vec![("/p/a.ts".to_string(), "src/a.ts".to_string())],
    }
}

#[test]
fn feature_envy_section() {
    let s = smell(SmellType::FeatureEnvy { most_envied_module: "/p/b.ts".into() }, &["/p/a.ts"], vec![]);
    let mut f = facts(4);
    f.ratio_text = Some("2.5".to_string());
    let out = envy::generate(&[s], &[f]);
    assert_eq!(
        out,
        format!(
            "## Feature Envy (1 files)\n\n{}| File | Envied Module | Ratio | pts |\n|------|---------------|-------|-----|\n| `src/a.ts` | `/p/b.ts` | 2.5x | 4 pts |\n\n",
            EXPLAINED
        )
    );
    assert_eq!(envy::generate(&[], &[]), "");
}

#[test]
fn shotgun_surgery_section() {
    let locations = vec![
        LocationDetail::new("/p/a.ts".to_string(), 0, "self".to_string()),
        LocationDetail::new("/p/./a.ts".to_string(), 0, "same file".to_string()),
        LocationDetail::new("/p/c.ts".to_string(), 0, "3 times".to_string()),
        LocationDetail::new("/p/d.ts".to_string(), 0, String::new()),
    ];
    let s = smell(SmellType::ShotgunSurgery, &["/p/a.ts"], locations);
    let out = surgery::generate(&[s], &[facts(7)]);
    assert_eq!(
        out,
        format!(
            "## Shotgun Surgery (1 files)\n\n{}| File | Avg Co-changes | Related Files (Top 5) | pts |\n|------|----------------|-----------------------|-----|\n| `src/a.ts` | 0.0 | `/p/c.ts` (3 times), `/p/d.ts` | 7 pts |\n\n",
            EXPLAINED
        )
    );
}

#[test]
fn god_modules_section() {
    let s = smell(SmellType::GodModule, &["/p/a.ts"], vec![]);
    let mut f = facts(9);
    f.fan_in = Some(20);
    f.churn = Some(3);
    f.used_by = vec!["z.ts".to_string(), "b.ts".to_string()];
    f.depends_on = (0..17).map(|i| format!("d{:02}.ts", 16 - i)).collect();
    let out = god_modules::generate(&[s], &[f]);
    let mut deps = String::new();
    for i in 0..15 {
        deps.push_str(&format!("- `d{:02}.ts`\n", i));
    }
    assert_eq!(
        out,
        format!(
            "## God Modules\n\n### src/a.ts (9 pts)\n\n**Metrics:**\n- Fan-in: 20\n- Churn: 3 commits\n\n**Used by:**\n- `b.ts`\n- `z.ts`\n\n**Depends on:**\n{}- ... and 2 more\n\n{}",
            deps, EXPLAINED
        )
    );
    let unknown = smell(SmellType::GodModule, &[], vec![]);
    assert!(god_modules::generate(&[unknown], &[facts(1)]).starts_with("## God Modules\n\n### Unknown (1 pts)\n\n**Metrics:**\n\n"));
}

#[test]
fn cycles_section_with_clusters() {
    let mut c = smell(SmellType::CyclicDependencyCluster, &["/p/a.ts", "/p/b.ts"], vec![]);
    c.0.cluster = Some(CycleCluster {
        files: vec!["/p/a.ts".to_string(), "/p/b.ts".to_string()],
        hotspots: vec![HotspotInfo { file: "/p/a.ts".to_string(), in_degree: 1, out_degree: 2 }],
        critical_edges: vec![CriticalEdge {
            from: "/p/a.ts".to_string(),
            to: "/p/b.ts".to_string(),
            line: 3,
            range: Some(CodeRange { start_line: 3, start_column: 5, end_line: 3, end_column: 9 }),
            impact: "high".to_string(),
        }],
        internal_edges: vec![LocationDetail::new("/p/b.ts".to_string(), 4, "import a".to_string())],
    });
    let cycles_list = vec![c.clone()];
    let out = cycles::generate(&cycles_list, &[c], &[facts(5)], &[facts(5)]);
    let expected = format!(
        "## Cyclic Dependencies (1 clusters, 2 files)\n\n{}---\n\n### Cluster 1: 2 files (5 pts)\n\n**Hotspots (most connections):**\n\n| File | Imports | Imported by |\n|------|---------|-------------|\n| `src/a.ts` | 2 | 1 |\n\n**Critical edges to break:**\n\n| From (location) | To | Impact |\n|-----------------|-----|--------|\n| `src/a.ts:3:5` | `/p/b.ts` | high |\n\n<details>\n<summary>All 2 files in cluster</summary>\n\n- `src/a.ts`\n- `/p/b.ts`\n\n</details>\n\n<details>\n<summary>All edges (1 imports)</summary>\n\n| Location | Import |\n|----------|--------|\n| `/p/b.ts:4 (import a)` | import a |\n\n</details>\n\n",
        EXPLAINED
    );
    assert_eq!(out, expected);
}

#[test]
fn cycles_section_without_clusters() {
    let a = smell(SmellType::CyclicDependency, &["/p/a.ts", "/p/b.ts"], vec![]);
    let b = smell(SmellType::CyclicDependency, &["/p/c.ts"], vec![LocationDetail::new("/p/c.ts".to_string(), 2, "x".to_string())]);
    let out = cycles::generate(&[a, b], &[], &[facts(1), facts(1)], &[]);
    let expected = format!(
        "## Cyclic Dependencies\n\n### Cycle 1\n\n**Path:** `src/a.ts` \u{2192} `/p/b.ts`\n\n{}### Cycle 2\n\n**Cycle Details:**\n\n| Location | Import |\n|----------|--------|\n| `/p/c.ts:2 (x)` | x |\n\n{}",
        EXPLAINED, EXPLAINED
    );
    assert_eq!(out, expected);
    assert_eq!(cycles::generate(&[], &[], &[], &[]), "");
}
