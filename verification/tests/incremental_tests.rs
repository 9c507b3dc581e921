use archlint::graph::CodeRange;
use archlint::incremental::affected::ReverseDeps;
use archlint::incremental::state::{ImportRecord, IncrementalState};
use archlint::metrics::ChurnMap;

fn state() -> IncrementalState {
    IncrementalState::new("/".to_string(), "hash".into())
}

#[test]
fn test_get_affected_files_direct() {
    let mut state = state();
    // b imports a
    state.reverse_deps.add_importer("/a.ts", "/b.ts");
    let affected = state.get_affected_files(&["/a.ts".to_string()]);
    assert_eq!(affected.len(), 2);
    assert!(affected.contains(&"/a.ts".to_string()));
    assert!(affected.contains(&"/b.ts".to_string()));
}

#[test]
fn test_get_affected_files_transitive() {
    let mut state = state();
    // b imports a, c imports b
    state.reverse_deps.add_importer("/a.ts", "/b.ts");
    state.reverse_deps.add_importer("/b.ts", "/c.ts");
    let affected = state.get_affected_files(&["/a.ts".to_string()]);
    assert_eq!(affected.len(), 3);
    assert!(affected.contains(&"/a.ts".to_string()));
    assert!(affected.contains(&"/b.ts".to_string()));
    assert!(affected.contains(&"/c.ts".to_string()));
}

#[test]
fn test_get_affected_files_cycle() {
    let mut state = state();
    // a imports b, b imports a
    state.reverse_deps.add_importer("/a.ts", "/b.ts");
    state.reverse_deps.add_importer("/b.ts", "/a.ts");
    let affected = state.get_affected_files(&["/a.ts".to_string()]);
    assert_eq!(affected.len(), 2);
    assert!(affected.contains(&"/a.ts".to_string()));
    assert!(affected.contains(&"/b.ts".to_string()));
}

#[test]
fn affected_files_ignore_unrelated_and_duplicates() {
    let mut deps = ReverseDeps::new();
    deps.add_importer("/a.ts", "/b.ts");
    deps.add_importer("/x.ts", "/y.ts");
    let affected = deps.get_affected_files(&["/a.ts".to_string(), "/a.ts".to_string()]);
    assert_eq!(affected.len(), 2);
    assert!(!affected.contains(&"/y.ts".to_string()));
}

fn import(source: &str, name: &str, line: usize) -> ImportRecord {
    ImportRecord {
        source: source.to_string(),
        name: name.to_string(),
        line,
        range: CodeRange { start_line: line, start_column: 1, end_line: line, end_column: 20 },
    }
}

#[test]
fn recorded_imports_feed_graph_and_index() {
    let mut state = state();
    let imports = vec![import("/src/a.ts", "a", 1), import("react", "React", 2), import("/src/b.ts", "b", 3)];
    state.record_imports("/src/main.ts", &imports, &[true, false, true]);
    assert_eq!(state.graph.node_count(), 3);
    assert_eq!(state.graph.edge_count(), 2);
    let affected = state.get_affected_files(&["/src/b.ts".to_string()]);
    assert_eq!(affected.len(), 2);
    assert!(affected.contains(&"/src/main.ts".to_string()));
}

#[test]
fn outgoing_edges_and_files_are_forgotten() {
    let mut state = state();
    state.record_imports("/m.ts", &vec![import("/a.ts", "a", 1)], &[true]);
    state.record_imports("/a.ts", &vec![import("/b.ts", "b", 1)], &[true]);
    state.remove_outgoing_edges("/m.ts");
    assert_eq!(state.graph.edge_count(), 1);
    assert_eq!(state.get_affected_files(&["/a.ts".to_string()]).len(), 1);
    assert_eq!(state.get_affected_files(&["/b.ts".to_string()]).len(), 2);
    state.remove_file("/b.ts");
    assert_eq!(state.graph.edge_count(), 0);
    assert_eq!(state.graph.node_count(), 2);
    assert!(state.graph.get_node("/b.ts").is_none());
    assert_eq!(state.get_affected_files(&["/b.ts".to_string()]).len(), 1);
    state.remove_outgoing_edges("/nowhere.ts");
    assert_eq!(state.graph.node_count(), 2);
    state.clear();
    assert_eq!(state.graph.node_count(), 0);
    assert_eq!(state.project_root, "/");
}

#[test]
fn platform_absolute_sources_are_recorded() {
    let mut state = state();
    state.update_graph_dependencies("/m.ts", &vec![import("/abs.ts", "x", 1), import("lodash", "_", 2)]);
    assert_eq!(state.graph.edge_count(), 1);
}

#[test]
fn churn_counts_tracked_files_only() {
    let files = vec!["/p/a.ts".to_string(), "/p/b.ts".to_string(), "/p/a.ts".to_string()];
    let mut churn = ChurnMap::new(&files);
    assert_eq!(churn.counts.len(), 2);
    churn.record_change("/p/a.ts");
    churn.record_change("/p/a.ts");
    churn.record_change("/p/zzz.ts");
    churn.record_change("/p/b.ts");
    assert_eq!(churn.churn_of("/p/a.ts"), Some(2));
    assert_eq!(churn.churn_of("/p/b.ts"), Some(1));
    assert_eq!(churn.churn_of("/p/zzz.ts"), None);
}
