use archlint::graph::{CodeRange, DependencyGraph, EdgeData};

#[test]
fn test_add_file() {
    let mut graph = DependencyGraph::new();
    let n1 = graph.add_file("src/a.ts");
    let n2 = graph.add_file("src/a.ts");

    assert_eq!(n1, n2);
    assert_eq!(graph.node_count(), 1);
    assert_eq!(graph.get_file_path(n1), Some(&"src/a.ts".to_string()));
}

#[test]
fn test_add_dependency() {
    let mut graph = DependencyGraph::new();
    let n1 = graph.add_file("src/a.ts");
    let n2 = graph.add_file("src/b.ts");

    let edge_data = EdgeData::with_symbols(10, vec!["foo".to_string()]);
    graph.add_dependency(n1, n2, edge_data);

    assert_eq!(graph.edge_count(), 1);
    assert_eq!(graph.fan_out(n1), 1);
    assert_eq!(graph.fan_in(n2), 1);

    let data = graph.get_edge_data(n1, n2).unwrap();
    assert_eq!(data.imported_symbols, vec!["foo"]);
}

#[test]
fn test_duplicate_edge_merges_symbols() {
    let mut graph = DependencyGraph::new();
    let n1 = graph.add_file("src/a.ts");
    let n2 = graph.add_file("src/b.ts");

    graph.add_dependency(n1, n2, EdgeData::with_symbols(10, vec!["foo".to_string()]));
    graph.add_dependency(n1, n2, EdgeData::with_symbols(20, vec!["bar".to_string()]));

    assert_eq!(graph.edge_count(), 1);
    let data = graph.get_edge_data(n1, n2).unwrap();
    assert_eq!(data.imported_symbols, vec!["foo", "bar"]);
}

#[test]
fn test_edge_data_variants() {
    let range = CodeRange {
        start_line: 1,
        start_column: 1,
        end_line: 1,
        end_column: 10,
    };

    let d1 = EdgeData::new(1);
    assert_eq!(d1.import_line, 1);
    assert!(d1.import_range.is_none());

    let d2 = EdgeData::with_range(2, range);
    assert_eq!(d2.import_line, 2);
    assert!(d2.import_range.is_some());

    let d3 = EdgeData::with_all(3, range, vec!["x".into()]);
    assert_eq!(d3.imported_symbols.len(), 1);
}

#[test]
fn test_iterators() {
    let mut graph = DependencyGraph::new();
    let n1 = graph.add_file("a.ts");
    let n2 = graph.add_file("b.ts");
    graph.add_dependency(n1, n2, EdgeData::new(1));

    assert_eq!(graph.nodes().len(), 2);
    assert_eq!(graph.edges().len(), 1);
    assert_eq!(graph.dependencies(n1).len(), 1);
}

#[test]
fn graph_remove_file_drops_its_edges() {
    let mut graph = DependencyGraph::new();
    let a = graph.add_file("a.ts");
    let b = graph.add_file("b.ts");
    let c = graph.add_file("c.ts");
    graph.add_dependency(a, b, EdgeData::new(1));
    graph.add_dependency(b, c, EdgeData::new(2));
    graph.add_dependency(c, a, EdgeData::new(3));
    graph.remove_file("b.ts");
    assert_eq!(graph.node_count(), 2);
    assert_eq!(graph.edge_count(), 1);
    assert_eq!(graph.get_node("b.ts"), None);
    let c2 = graph.get_node("c.ts").unwrap();
    let a2 = graph.get_node("a.ts").unwrap();
    assert!(graph.get_edge_data(c2, a2).is_some());
}

#[test]
fn graph_remove_outgoing_edges_keeps_incoming() {
    let mut graph = DependencyGraph::new();
    let a = graph.add_file("a.ts");
    let b = graph.add_file("b.ts");
    graph.add_dependency(a, b, EdgeData::new(1));
    graph.add_dependency(b, a, EdgeData::new(2));
    graph.remove_outgoing_edges(a);
    assert_eq!(graph.fan_out(a), 0);
    assert_eq!(graph.fan_in(a), 1);
    assert_eq!(graph.edge_count(), 1);
}

#[test]
fn graph_unknown_node_has_no_edges() {
    let graph = DependencyGraph::new();
    assert_eq!(graph.fan_in(7), 0);
    assert_eq!(graph.fan_out(7), 0);
    assert!(graph.get_file_path(7).is_none());
}
