//! Dependency graph between source files, stored in a `petgraph` directed graph.
//!
//! Nodes are numbered `0..node_count()`; each holds the path of one file and no
//! path occurs twice. Edges go from an importing file to an imported one and
//! carry the import line, range and imported symbols.

use petgraph::graph::{DiGraph, EdgeIndex, Graph, NodeIndex};
use petgraph::visit::EdgeRef;
use petgraph::Direction;
use petgraph::Directed;
use crate::text::chars_eq;
use vstd::prelude::*;

verus! {

broadcast use vstd::seq_lib::group_seq_properties, vstd::multiset::group_multiset_axioms;

#[verifier::external_type_specification]
#[verifier::external_body]
#[verifier::reject_recursive_types(N)]
#[verifier::reject_recursive_types(E)]
#[verifier::reject_recursive_types(Ty)]
#[verifier::reject_recursive_types(Ix)]
pub struct ExGraph<N, E, Ty, Ix>(Graph<N, E, Ty, Ix>);

#[verifier::external_type_specification]
#[verifier::external_body]
pub struct ExDirected(Directed);

/// A source range, 1-based lines and columns.
#[derive(Debug, Clone, Copy, PartialEq, Eq, Structural)]
pub struct CodeRange {
    pub start_line: usize,
    pub start_column: usize,
    pub end_line: usize,
    pub end_column: usize,
}

/// A node of the dependency graph: one source file.
#[derive(Debug, Clone)]
pub struct FileNode {
    pub path: String,
}

/// Data associated with a dependency edge in the graph.
#[derive(Debug, Clone)]
pub struct EdgeData {
    /// Line number where the import occurs.
    pub import_line: usize,
    /// Exact code range of the import statement.
    pub import_range: Option<CodeRange>,
    /// Symbols imported through this dependency.
    pub imported_symbols: Vec<String>,
}

impl EdgeData {
    /// Edge data with only the line number.
    pub fn new(import_line: usize) -> (r: Self)
        ensures
            r.import_line == import_line,
            r.import_range.is_none(),
            r.imported_symbols@.len() == 0,
    {
        EdgeData { import_line, import_range: None, imported_symbols: Vec::new() }
    }

    /// Edge data with line number and range.
    pub fn with_range(import_line: usize, range: CodeRange) -> (r: Self)
        ensures
            r.import_line == import_line,
            r.import_range == Some(range),
            r.imported_symbols@.len() == 0,
    {
        EdgeData { import_line, import_range: Some(range), imported_symbols: Vec::new() }
    }

    /// Edge data with line number and imported symbols.
    pub fn with_symbols(import_line: usize, imported_symbols: Vec<String>) -> (r: Self)
        ensures
            r.import_line == import_line,
            r.import_range.is_none(),
            r.imported_symbols == imported_symbols,
    {
        EdgeData { import_line, import_range: None, imported_symbols }
    }

    /// Edge data with all available information.
    pub fn with_all(import_line: usize, range: CodeRange, imported_symbols: Vec<String>) -> (r: Self)
        ensures
            r.import_line == import_line,
            r.import_range == Some(range),
            r.imported_symbols == imported_symbols,
    {
        EdgeData { import_line, import_range: Some(range), imported_symbols }
    }
}

/// What an edge carries, as plain values.
pub struct EdgeView {
    pub line: usize,
    pub range: Option<CodeRange>,
    pub symbols: Seq<Seq<char>>,
}

impl View for EdgeData {
    type V = EdgeView;

    open spec fn view(&self) -> EdgeView {
        EdgeView {
            line: self.import_line,
            range: self.import_range,
            symbols: self.imported_symbols@.map_values(|s: String| s@),
        }
    }
}

/// The paths held by the nodes of a petgraph file graph, by node index.
pub uninterp spec fn petgraph_nodes(g: Graph<FileNode, EdgeData, Directed, u32>) -> Seq<Seq<char>>;

/// The edges of a petgraph file graph, by edge index: source, target and weight.
pub uninterp spec fn petgraph_edges(g: Graph<FileNode, EdgeData, Directed, u32>) -> Seq<(usize, usize, EdgeView)>;

/// `s` after `Vec::swap_remove(i)`: the last element takes position `i`.
pub open spec fn swap_removed<T>(s: Seq<T>, i: int) -> Seq<T> {
    s.update(i, s.last()).drop_last()
}

/// Selects the edges that leave `a`.
pub open spec fn leaves(a: usize) -> spec_fn((usize, usize, EdgeView)) -> bool {
    |e: (usize, usize, EdgeView)| e.0 == a
}

/// Selects the edges that enter `a`.
pub open spec fn enters(a: usize) -> spec_fn((usize, usize, EdgeView)) -> bool {
    |e: (usize, usize, EdgeView)| e.1 == a
}

/// Selects the edges that do not leave `a`.
pub open spec fn not_leaving(a: usize) -> spec_fn((usize, usize, EdgeView)) -> bool {
    |e: (usize, usize, EdgeView)| e.0 != a
}

/// Selects the edges that do not touch `a`.
pub open spec fn avoids(a: usize) -> spec_fn((usize, usize, EdgeView)) -> bool {
    |e: (usize, usize, EdgeView)| e.0 != a && e.1 != a
}

/// Targets of the edges leaving `a`, one per edge.
pub open spec fn out_targets(edges: Seq<(usize, usize, EdgeView)>, a: usize) -> Seq<usize> {
    edges.filter(leaves(a)).map_values(|e: (usize, usize, EdgeView)| e.1)
}

/// Sources of the edges entering `a`, one per edge.
pub open spec fn in_sources(edges: Seq<(usize, usize, EdgeView)>, a: usize) -> Seq<usize> {
    edges.filter(enters(a)).map_values(|e: (usize, usize, EdgeView)| e.0)
}

/// Node index `x` after node `a` was removed and the last node `last` took its index.
pub open spec fn renumbered(x: usize, a: usize, last: usize) -> usize {
    if x == last { a } else { x }
}

/// An edge with both endpoints renumbered.
pub open spec fn renumber_edge(a: usize, last: usize) -> spec_fn((usize, usize, EdgeView)) -> (usize, usize, EdgeView) {
    |e: (usize, usize, EdgeView)| (renumbered(e.0, a, last), renumbered(e.1, a, last), e.2)
}

/// The edges that survive the removal of node `a`, renumbered.
pub open spec fn edges_after_node_removal(edges: Seq<(usize, usize, EdgeView)>, a: usize, last: usize) -> Seq<(usize, usize, EdgeView)> {
    edges.filter(avoids(a)).map_values(renumber_edge(a, last))
}

/// Wraps `Graph::new`: an empty graph.
#[verifier::external_body]
fn petgraph_new() -> (g: DiGraph<FileNode, EdgeData>)
    ensures
        petgraph_nodes(g) == Seq::<Seq<char>>::empty(),
        petgraph_edges(g) == Seq::<(usize, usize, EdgeView)>::empty(),
{
    DiGraph::new()
}

/// Wraps `Graph::node_count`.
#[verifier::external_body]
fn petgraph_node_count(g: &DiGraph<FileNode, EdgeData>) -> (n: usize)
    ensures
        n == petgraph_nodes(*g).len(),
{
    g.node_count()
}

/// Wraps `Graph::edge_count`.
#[verifier::external_body]
fn petgraph_edge_count(g: &DiGraph<FileNode, EdgeData>) -> (n: usize)
    ensures
        n == petgraph_edges(*g).len(),
{
    g.edge_count()
}

/// Wraps `Graph::add_node`: the node is appended and its index returned.
/// The crate's source panics at `u32::MAX` nodes, which `requires` rules out.
#[verifier::external_body]
fn petgraph_add_node(g: &mut DiGraph<FileNode, EdgeData>, w: FileNode) -> (i: usize)
    requires
        petgraph_nodes(*old(g)).len() < u32::MAX,
    ensures
        petgraph_nodes(*final(g)) == petgraph_nodes(*old(g)).push(w.path@),
        petgraph_edges(*final(g)) == petgraph_edges(*old(g)),
        i == petgraph_nodes(*old(g)).len(),
{
    g.add_node(w).index()
}

/// Wraps `Graph::node_weight`, picking the path of the node.
#[verifier::external_body]
fn petgraph_node_path(g: &DiGraph<FileNode, EdgeData>, i: usize) -> (r: &String)
    requires
        i < petgraph_nodes(*g).len(),
    ensures
        r@ == petgraph_nodes(*g)[i as int],
{
    &g.node_weight(NodeIndex::new(i)).unwrap().path
}

/// Wraps `Graph::add_edge`: the edge is appended and its index returned.
/// The crate's source panics on unknown nodes and at `u32::MAX` edges, which `requires` rules out.
#[verifier::external_body]
fn petgraph_add_edge(g: &mut DiGraph<FileNode, EdgeData>, a: usize, b: usize, w: EdgeData) -> (e: usize)
    requires
        a < petgraph_nodes(*old(g)).len(),
        b < petgraph_nodes(*old(g)).len(),
        petgraph_edges(*old(g)).len() < u32::MAX,
    ensures
        petgraph_nodes(*final(g)) == petgraph_nodes(*old(g)),
        petgraph_edges(*final(g)) == petgraph_edges(*old(g)).push((a, b, w@)),
        e == petgraph_edges(*old(g)).len(),
{
    g.add_edge(NodeIndex::new(a), NodeIndex::new(b), w).index()
}

/// Wraps `Graph::find_edge`: an edge from `a` to `b`, if there is one.
#[verifier::external_body]
fn petgraph_find_edge(g: &DiGraph<FileNode, EdgeData>, a: usize, b: usize) -> (r: Option<usize>)
    requires
        a < petgraph_nodes(*g).len(),
        b < petgraph_nodes(*g).len(),
    ensures
        match r {
            Some(e) => e < petgraph_edges(*g).len() && petgraph_edges(*g)[e as int].0 == a
                && petgraph_edges(*g)[e as int].1 == b,
            None => forall|e: int|
                0 <= e < petgraph_edges(*g).len() ==> !(#[trigger] petgraph_edges(*g)[e].0 == a
                    && petgraph_edges(*g)[e].1 == b),
        },
{
    g.find_edge(NodeIndex::new(a), NodeIndex::new(b)).map(|e| e.index())
}

/// Wraps `Graph::edge_weight_mut`: puts `w` in place of the weight of edge `e` and
/// returns the weight that was there.
#[verifier::external_body]
fn petgraph_swap_edge_weight(g: &mut DiGraph<FileNode, EdgeData>, e: usize, w: EdgeData) -> (prev: EdgeData)
    requires
        e < petgraph_edges(*old(g)).len(),
    ensures
        petgraph_nodes(*final(g)) == petgraph_nodes(*old(g)),
        petgraph_edges(*final(g)) == petgraph_edges(*old(g)).update(
            e as int,
            (petgraph_edges(*old(g))[e as int].0, petgraph_edges(*old(g))[e as int].1, w@),
        ),
        prev@ == petgraph_edges(*old(g))[e as int].2,
{
    match g.edge_weight_mut(EdgeIndex::new(e)) {
        Some(slot) => std::mem::replace(slot, w),
        None => w,
    }
}

/// Wraps `Graph::edge_weight`.
#[verifier::external_body]
fn petgraph_edge_weight(g: &DiGraph<FileNode, EdgeData>, e: usize) -> (r: &EdgeData)
    requires
        e < petgraph_edges(*g).len(),
    ensures
        r@ == petgraph_edges(*g)[e as int].2,
{
    g.edge_weight(EdgeIndex::new(e)).unwrap()
}

/// Wraps `Graph::edge_endpoints`.
#[verifier::external_body]
fn petgraph_edge_endpoints(g: &DiGraph<FileNode, EdgeData>, e: usize) -> (r: (usize, usize))
    requires
        e < petgraph_edges(*g).len(),
    ensures
        r.0 == petgraph_edges(*g)[e as int].0,
        r.1 == petgraph_edges(*g)[e as int].1,
{
    let (a, b) = g.edge_endpoints(EdgeIndex::new(e)).unwrap();
    (a.index(), b.index())
}

/// Wraps `Graph::neighbors_directed`: the other endpoint of each edge leaving
/// (`outgoing`) or entering `a`, one entry per edge, in the crate's list order.
#[verifier::external_body]
fn petgraph_neighbors(g: &DiGraph<FileNode, EdgeData>, a: usize, outgoing: bool) -> (r: Vec<usize>)
    requires
        a < petgraph_nodes(*g).len(),
    ensures
        outgoing ==> r@.to_multiset() == out_targets(petgraph_edges(*g), a).to_multiset(),
        !outgoing ==> r@.to_multiset() == in_sources(petgraph_edges(*g), a).to_multiset(),
{
    let dir = if outgoing { Direction::Outgoing } else { Direction::Incoming };
    g.neighbors_directed(NodeIndex::new(a), dir).map(|n| n.index()).collect()
}

/// Wraps `Graph::edges_directed`: the index of one edge leaving `a`, if any.
#[verifier::external_body]
fn petgraph_first_out_edge(g: &DiGraph<FileNode, EdgeData>, a: usize) -> (r: Option<usize>)
    requires
        a < petgraph_nodes(*g).len(),
    ensures
        match r {
            Some(e) => e < petgraph_edges(*g).len() && petgraph_edges(*g)[e as int].0 == a,
            None => forall|e: int|
                0 <= e < petgraph_edges(*g).len() ==> #[trigger] petgraph_edges(*g)[e].0 != a,
        },
{
    g.edges_directed(NodeIndex::new(a), Direction::Outgoing).next().map(|e| e.id().index())
}

/// Wraps `Graph::remove_edge`: the last edge takes the index of the removed one.
#[verifier::external_body]
fn petgraph_remove_edge(g: &mut DiGraph<FileNode, EdgeData>, e: usize) -> (r: Option<EdgeData>)
    requires
        e < petgraph_edges(*old(g)).len(),
    ensures
        petgraph_nodes(*final(g)) == petgraph_nodes(*old(g)),
        petgraph_edges(*final(g)) == swap_removed(petgraph_edges(*old(g)), e as int),
        r matches Some(w) && w@ == petgraph_edges(*old(g))[e as int].2,
{
    g.remove_edge(EdgeIndex::new(e))
}

/// Wraps `Graph::remove_node`: the edges touching `a` go, the last node takes
/// index `a`, and the surviving edges are renumbered. The crate's source leaves
/// the order of the surviving edges to its edge lists, so only their multiset is stated.
#[verifier::external_body]
fn petgraph_remove_node(g: &mut DiGraph<FileNode, EdgeData>, a: usize) -> (r: Option<FileNode>)
    requires
        a < petgraph_nodes(*old(g)).len(),
    ensures
        petgraph_nodes(*final(g)) == swap_removed(petgraph_nodes(*old(g)), a as int),
        petgraph_edges(*final(g)).to_multiset() == edges_after_node_removal(
            petgraph_edges(*old(g)),
            a,
            (petgraph_nodes(*old(g)).len() - 1) as usize,
        ).to_multiset(),
        r matches Some(w) && w.path@ == petgraph_nodes(*old(g))[a as int],
{
    g.remove_node(NodeIndex::new(a))
}

/// The abstract content of a `DependencyGraph`: node paths and edges, by index.
pub struct GraphView {
    pub nodes: Seq<Seq<char>>,
    pub edges: Seq<(usize, usize, EdgeView)>,
}

/// Well-formedness: no path occurs twice, every edge joins existing nodes,
/// and both counts stay below the index limit of the underlying graph.
pub open spec fn graph_wf(g: GraphView) -> bool {
    &&& g.nodes.len() < u32::MAX
    &&& g.edges.len() < u32::MAX
    &&& g.nodes.no_duplicates()
    &&& forall|e: int|
        0 <= e < g.edges.len() ==> (#[trigger] g.edges[e]).0 < g.nodes.len() && g.edges[e].1
            < g.nodes.len()
}

/// Whether some edge goes from `a` to `b`.
pub open spec fn has_edge(edges: Seq<(usize, usize, EdgeView)>, a: usize, b: usize) -> bool {
    exists|e: int| 0 <= e < edges.len() && #[trigger] edges[e].0 == a && edges[e].1 == b
}

/// Edge weight `w` with `more` appended to its imported symbols.
pub open spec fn merged_edge(w: EdgeView, more: Seq<Seq<char>>) -> EdgeView {
    EdgeView { line: w.line, range: w.range, symbols: w.symbols + more }
}

/// The edges that do not leave `a`.
pub open spec fn edges_not_from(edges: Seq<(usize, usize, EdgeView)>, a: usize) -> Seq<(usize, usize, EdgeView)> {
    edges.filter(not_leaving(a))
}

/// Filtering keeps everything when every element is selected, and nothing
/// when none is.
pub proof fn lemma_filter_all<T>(s: Seq<T>, p: spec_fn(T) -> bool)
    ensures
        (forall|i: int| 0 <= i < s.len() ==> p(#[trigger] s[i])) ==> s.filter(p) == s,
        (forall|i: int| 0 <= i < s.len() ==> !p(#[trigger] s[i])) ==> s.filter(p).len() == 0,
    decreases s.len(),
{
    reveal(Seq::filter);
    if s.len() > 0 {
        let t = s.drop_last();
        lemma_filter_all(t, p);
        if forall|i: int| 0 <= i < s.len() ==> p(#[trigger] s[i]) {
            assert forall|i: int| 0 <= i < t.len() implies p(#[trigger] t[i]) by {
                assert(t[i] == s[i]);
            }
            assert(s =~= t.push(s.last()));
        }
        if forall|i: int| 0 <= i < s.len() ==> !p(#[trigger] s[i]) {
            assert forall|i: int| 0 <= i < t.len() implies !p(#[trigger] t[i]) by {
                assert(t[i] == s[i]);
            }
        }
    }
}

/// No edge touches a node index at or past the node count.
pub proof fn lemma_unknown_node_untouched(g: GraphView, node: usize)
    requires
        graph_wf(g),
        node >= g.nodes.len(),
    ensures
        out_targets(g.edges, node).len() == 0,
        in_sources(g.edges, node).len() == 0,
        edges_not_from(g.edges, node) == g.edges,
{
    lemma_filter_all(g.edges, leaves(node));
    lemma_filter_all(g.edges, enters(node));
    lemma_filter_all(g.edges, not_leaving(node));
    assert(forall|i: int| 0 <= i < g.edges.len() ==> !leaves(node)(#[trigger] g.edges[i]));
    assert(forall|i: int| 0 <= i < g.edges.len() ==> !enters(node)(#[trigger] g.edges[i]));
    assert(forall|i: int| 0 <= i < g.edges.len() ==> not_leaving(node)(#[trigger] g.edges[i]));
}

/// Counting the elements of a filtered sequence.
pub proof fn lemma_filter_count<T>(s: Seq<T>, p: spec_fn(T) -> bool, x: T)
    ensures
        s.filter(p).to_multiset().count(x) == if p(x) { s.to_multiset().count(x) } else { 0 },
    decreases s.len(),
{
    broadcast use vstd::multiset::group_multiset_properties;
    reveal(Seq::filter);
    if s.len() == 0 {
        assert(s.filter(p) =~= Seq::<T>::empty());
    } else {
        let t = s.drop_last();
        lemma_filter_count(t, p, x);
        assert(s =~= t.push(s.last()));
    }
}

/// Removing with `swap_remove` removes one occurrence of the element from the multiset.
pub proof fn lemma_swap_removed_multiset<T>(s: Seq<T>, i: int)
    requires
        0 <= i < s.len(),
    ensures
        swap_removed(s, i).to_multiset() =~= s.to_multiset().remove(s[i]),
{
    broadcast use vstd::multiset::group_multiset_properties;
    let last = s.last();
    let u = s.update(i, last);
    let t = u.drop_last();
    assert(u =~= t.push(u.last()));
    assert(u.last() == last);
    vstd::seq_lib::to_multiset_update(s, i, last);
    vstd::seq_lib::to_multiset_build(t, last);
    assert forall|x: T| #[trigger] t.to_multiset().count(x) == s.to_multiset().remove(s[i]).count(x) by {
        assert(u.to_multiset().count(x) == t.to_multiset().count(x) + if x == last { 1int } else { 0int });
        assert(u.to_multiset() == s.to_multiset().insert(last).remove(s[i]));
        if x == s[i] {
            assert(s.to_multiset().count(x) > 0) by {
                assert(s.contains(s[i]));
            }
        }
    }
}

/// `swap_remove` keeps a sequence free of duplicates.
pub proof fn lemma_swap_removed_no_duplicates<T>(s: Seq<T>, i: int)
    requires
        0 <= i < s.len(),
        s.no_duplicates(),
    ensures
        swap_removed(s, i).no_duplicates(),
        forall|x: T| swap_removed(s, i).contains(x) <==> s.contains(x) && x != s[i],
{
    let r = swap_removed(s, i);
    let last = s.len() - 1;
    assert forall|j: int, k: int| 0 <= j < r.len() && 0 <= k < r.len() && j != k implies r[j]
        != r[k] by {
        let pj = if j == i { last } else { j };
        let pk = if k == i { last } else { k };
        assert(r[j] == s[pj]);
        assert(r[k] == s[pk]);
    }
    assert forall|x: T| r.contains(x) <==> s.contains(x) && x != s[i] by {
        if r.contains(x) {
            let j = choose|j: int| 0 <= j < r.len() && r[j] == x;
            let pj = if j == i { last } else { j };
            assert(s[pj] == x);
        }
        if s.contains(x) && x != s[i] {
            let j = choose|j: int| 0 <= j < s.len() && s[j] == x;
            if j == last {
                assert(r[i] == x);
            } else {
                assert(r[j] == x);
            }
        }
    }
}

/// A directed graph of dependencies between files.
pub struct DependencyGraph {
    graph: DiGraph<FileNode, EdgeData>,
}

impl View for DependencyGraph {
    type V = GraphView;

    closed spec fn view(&self) -> GraphView {
        GraphView { nodes: petgraph_nodes(self.graph), edges: petgraph_edges(self.graph) }
    }
}

impl DependencyGraph {
    /// Whether the graph is well formed (see `graph_wf`).
    pub open spec fn wf(&self) -> bool {
        graph_wf(self@)
    }

    /// A new empty dependency graph.
    pub fn new() -> (g: Self)
        ensures
            g.wf(),
            g@.nodes.len() == 0,
            g@.edges.len() == 0,
    {
        DependencyGraph { graph: petgraph_new() }
    }

    /// The node holding `path`, if any.
    pub fn get_node(&self, path: &str) -> (r: Option<usize>)
        requires
            self.wf(),
        ensures
            match r {
                Some(i) => i < self@.nodes.len() && self@.nodes[i as int] == path@,
                None => !self@.nodes.contains(path@),
            },
    {
        let n = petgraph_node_count(&self.graph);
        let target: Vec<char> = crate::text::chars_of(path);
        let mut i: usize = 0;
        while i < n
            invariant
                n == self@.nodes.len(),
                i <= n,
                target@ == path@,
                forall|j: int| 0 <= j < i ==> self@.nodes[j] != path@,
            decreases n - i,
        {
            let p = petgraph_node_path(&self.graph, i);
            let pc: Vec<char> = crate::text::chars_of(p.as_str());
            if chars_eq(pc.as_slice(), target.as_slice()) {
                return Some(i);
            }
            i = i + 1;
        }
        None
    }

    /// Adds a file to the graph and returns its node; a path already present
    /// keeps its node and leaves the graph unchanged.
    pub fn add_file(&mut self, path: &str) -> (r: usize)
        requires
            old(self).wf(),
            old(self)@.nodes.len() + 1 < u32::MAX,
        ensures
            final(self).wf(),
            final(self)@.edges == old(self)@.edges,
            r < final(self)@.nodes.len(),
            final(self)@.nodes[r as int] == path@,
            old(self)@.nodes.contains(path@) ==> final(self)@ == old(self)@,
            !old(self)@.nodes.contains(path@) ==> final(self)@.nodes == old(self)@.nodes.push(path@)
                && r == old(self)@.nodes.len(),
            final(self)@ == with_file(old(self)@, path@),
    {
        match self.get_node(path) {
            Some(i) => i,
            None => {
                let node = FileNode { path: String::from_str(path) };
                let ghost before = self@;
                let i = petgraph_add_node(&mut self.graph, node);
                proof {
                    let after = self@;
                    assert(after.nodes == before.nodes.push(path@));
                    assert forall|j: int, k: int|
                        0 <= j < after.nodes.len() && 0 <= k < after.nodes.len() && j != k
                        implies after.nodes[j] != after.nodes[k] by {
                        if j == before.nodes.len() {
                            assert(before.nodes[k] == after.nodes[k]);
                        } else if k == before.nodes.len() {
                            assert(before.nodes[j] == after.nodes[j]);
                        }
                    }
                    assert forall|e: int| 0 <= e < after.edges.len() implies (
                    #[trigger] after.edges[e]).0 < after.nodes.len() && after.edges[e].1
                        < after.nodes.len() by {
                        assert(after.edges[e] == before.edges[e]);
                    }
                }
                i
            },
        }
    }

    /// Adds a dependency from `from` to `to`. When an edge between them already
    /// exists, the new symbols are appended to it and its index is returned;
    /// otherwise a new edge carrying `edge_data` is added.
    pub fn add_dependency(&mut self, from: usize, to: usize, edge_data: EdgeData) -> (r: usize)
        requires
            old(self).wf(),
            from < old(self)@.nodes.len(),
            to < old(self)@.nodes.len(),
            old(self)@.edges.len() + 1 < u32::MAX,
        ensures
            final(self).wf(),
            final(self)@.nodes == old(self)@.nodes,
            has_edge(old(self)@.edges, from, to) ==> {
                &&& r < old(self)@.edges.len()
                &&& old(self)@.edges[r as int].0 == from
                &&& old(self)@.edges[r as int].1 == to
                &&& final(self)@.edges == old(self)@.edges.update(
                    r as int,
                    (from, to, merged_edge(old(self)@.edges[r as int].2, edge_data@.symbols)),
                )
            },
            !has_edge(old(self)@.edges, from, to) ==> {
                &&& r == old(self)@.edges.len()
                &&& final(self)@.edges == old(self)@.edges.push((from, to, edge_data@))
            },
            dependency_added(old(self)@, from, to, edge_data@, final(self)@),
    {
        let ghost before = self@;
        match petgraph_find_edge(&self.graph, from, to) {
            Some(e) => {
                let mut w = petgraph_swap_edge_weight(&mut self.graph, e, EdgeData::new(0));
                let ghost prev = w@;
                let mut more = edge_data.imported_symbols;
                let ghost more_view = more@;
                w.imported_symbols.append(&mut more);
                let ghost mid = self@;
                let _ = petgraph_swap_edge_weight(&mut self.graph, e, w);
                proof {
                    assert(w.imported_symbols@.map_values(|s: String| s@) =~= prev.symbols
                        + more_view.map_values(|s: String| s@));
                    assert(w@ == merged_edge(prev, edge_data@.symbols));
                    assert(self@.edges =~= before.edges.update(
                        e as int,
                        (from, to, merged_edge(prev, edge_data@.symbols)),
                    ));
                    assert forall|k: int| 0 <= k < self@.edges.len() implies (
                    #[trigger] self@.edges[k]).0 < self@.nodes.len() && self@.edges[k].1
                        < self@.nodes.len() by {
                        assert(self@.edges[k].0 == before.edges[k].0);
                        assert(self@.edges[k].1 == before.edges[k].1);
                    }
                }
                e
            },
            None => {
                let e = petgraph_add_edge(&mut self.graph, from, to, edge_data);
                proof {
                    assert forall|k: int| 0 <= k < self@.edges.len() implies (
                    #[trigger] self@.edges[k]).0 < self@.nodes.len() && self@.edges[k].1
                        < self@.nodes.len() by {
                        if k < before.edges.len() {
                            assert(self@.edges[k] == before.edges[k]);
                        }
                    }
                }
                e
            },
        }
    }

    /// The data of an edge from `from` to `to`, if there is one.
    pub fn get_edge_data(&self, from: usize, to: usize) -> (r: Option<&EdgeData>)
        requires
            self.wf(),
        ensures
            match r {
                Some(d) => exists|e: int|
                    0 <= e < self@.edges.len() && #[trigger] self@.edges[e].0 == from
                        && self@.edges[e].1 == to && self@.edges[e].2 == d@,
                None => !has_edge(self@.edges, from, to),
            },
    {
        let n = petgraph_node_count(&self.graph);
        if from >= n || to >= n {
            return None;
        }
        match petgraph_find_edge(&self.graph, from, to) {
            Some(e) => Some(petgraph_edge_weight(&self.graph, e)),
            None => None,
        }
    }

    /// Number of nodes.
    pub fn node_count(&self) -> (n: usize)
        ensures
            n == self@.nodes.len(),
    {
        petgraph_node_count(&self.graph)
    }

    /// Number of edges.
    pub fn edge_count(&self) -> (n: usize)
        ensures
            n == self@.edges.len(),
    {
        petgraph_edge_count(&self.graph)
    }

    /// Number of edges entering `node` (0 for an unknown node).
    pub fn fan_in(&self, node: usize) -> (r: usize)
        requires
            self.wf(),
        ensures
            r == in_sources(self@.edges, node).len(),
    {
        if node >= petgraph_node_count(&self.graph) {
            proof {
                lemma_unknown_node_untouched(self@, node);
            }
            return 0;
        }
        let v = petgraph_neighbors(&self.graph, node, false);
        proof {
            vstd::seq_lib::to_multiset_len(v@);
            vstd::seq_lib::to_multiset_len(in_sources(self@.edges, node));
        }
        v.len()
    }

    /// Number of edges leaving `node` (0 for an unknown node).
    pub fn fan_out(&self, node: usize) -> (r: usize)
        requires
            self.wf(),
        ensures
            r == out_targets(self@.edges, node).len(),
    {
        if node >= petgraph_node_count(&self.graph) {
            proof {
                lemma_unknown_node_untouched(self@, node);
            }
            return 0;
        }
        let v = petgraph_neighbors(&self.graph, node, true);
        proof {
            vstd::seq_lib::to_multiset_len(v@);
            vstd::seq_lib::to_multiset_len(out_targets(self@.edges, node));
        }
        v.len()
    }

    /// The path of `node`, if it exists.
    pub fn get_file_path(&self, node: usize) -> (r: Option<&String>)
        ensures
            match r {
                Some(p) => node < self@.nodes.len() && p@ == self@.nodes[node as int],
                None => node >= self@.nodes.len(),
            },
    {
        if node < petgraph_node_count(&self.graph) {
            Some(petgraph_node_path(&self.graph, node))
        } else {
            None
        }
    }

    /// All node indices, in order.
    pub fn nodes(&self) -> (r: Vec<usize>)
        ensures
            r@.len() == self@.nodes.len(),
            forall|i: int| 0 <= i < r@.len() ==> r@[i] == i,
    {
        let n = petgraph_node_count(&self.graph);
        let mut r: Vec<usize> = Vec::new();
        let mut i: usize = 0;
        while i < n
            invariant
                i <= n,
                r@.len() == i,
                forall|j: int| 0 <= j < i ==> r@[j] == j,
            decreases n - i,
        {
            r.push(i);
            i = i + 1;
        }
        r
    }

    /// The endpoints of all edges, by edge index.
    pub fn edges(&self) -> (r: Vec<(usize, usize)>)
        ensures
            r@.len() == self@.edges.len(),
            forall|e: int|
                0 <= e < r@.len() ==> r@[e].0 == self@.edges[e].0 && r@[e].1 == self@.edges[e].1,
    {
        let m = petgraph_edge_count(&self.graph);
        let mut r: Vec<(usize, usize)> = Vec::new();
        let mut e: usize = 0;
        while e < m
            invariant
                m == self@.edges.len(),
                e <= m,
                r@.len() == e,
                forall|k: int|
                    0 <= k < e ==> r@[k].0 == self@.edges[k].0 && r@[k].1 == self@.edges[k].1,
            decreases m - e,
        {
            r.push(petgraph_edge_endpoints(&self.graph, e));
            e = e + 1;
        }
        r
    }

    /// The targets of the edges leaving `node`, one per edge (empty for an unknown node).
    pub fn dependencies(&self, node: usize) -> (r: Vec<usize>)
        requires
            self.wf(),
        ensures
            r@.to_multiset() == out_targets(self@.edges, node).to_multiset(),
    {
        if node >= petgraph_node_count(&self.graph) {
            proof {
                lemma_unknown_node_untouched(self@, node);
                assert(out_targets(self@.edges, node) =~= Seq::<usize>::empty());
            }
            let r: Vec<usize> = Vec::new();
            proof {
                assert(r@ =~= Seq::<usize>::empty());
            }
            return r;
        }
        petgraph_neighbors(&self.graph, node, true)
    }

    /// Removes every edge leaving `node`; all other edges stay.
    pub fn remove_outgoing_edges(&mut self, node: usize)
        requires
            old(self).wf(),
        ensures
            final(self).wf(),
            final(self)@.nodes == old(self)@.nodes,
            final(self)@.edges.to_multiset() == edges_not_from(old(self)@.edges, node).to_multiset(),
            forall|e: int| 0 <= e < final(self)@.edges.len() ==> (#[trigger] final(self)@.edges[e]).0 != node,
    {
        let ghost orig = self@;
        let ghost keep = not_leaving(node);
        if node >= petgraph_node_count(&self.graph) {
            proof {
                lemma_unknown_node_untouched(self@, node);
                assert forall|e: int| 0 <= e < orig.edges.len() implies (#[trigger] orig.edges[e]).0 != node by {
                    assert(orig.edges[e].0 < orig.nodes.len());
                }
            }
            return;
        }
        loop
            invariant_except_break
                self.wf(),
                self@.nodes == orig.nodes,
                node < self@.nodes.len(),
                edges_not_from(self@.edges, node).to_multiset() == edges_not_from(orig.edges, node).to_multiset(),
            ensures
                self.wf(),
                self@.nodes == orig.nodes,
                edges_not_from(self@.edges, node).to_multiset() == edges_not_from(orig.edges, node).to_multiset(),
                forall|e: int| 0 <= e < self@.edges.len() ==> (#[trigger] self@.edges[e]).0 != node,
            decreases self@.edges.len(),
        {
            match petgraph_first_out_edge(&self.graph, node) {
                None => break,
                Some(e) => {
                    let ghost cur = self@;
                    let _ = petgraph_remove_edge(&mut self.graph, e);
                    proof {
                        lemma_swap_removed_multiset(cur.edges, e as int);
                        assert forall|x: (usize, usize, EdgeView)| #[trigger] edges_not_from(self@.edges, node).to_multiset().count(x)
                            == edges_not_from(cur.edges, node).to_multiset().count(x) by {
                            lemma_filter_count(self@.edges, not_leaving(node), x);
                            lemma_filter_count(cur.edges, not_leaving(node), x);
                            if not_leaving(node)(x) {
                                assert(x != cur.edges[e as int]);
                                assert(self@.edges.to_multiset().count(x) == cur.edges.to_multiset().count(x));
                            }
                        }
                        assert(edges_not_from(self@.edges, node).to_multiset() =~= edges_not_from(cur.edges, node).to_multiset());
                        assert forall|k: int| 0 <= k < self@.edges.len() implies (
                        #[trigger] self@.edges[k]).0 < self@.nodes.len() && self@.edges[k].1
                            < self@.nodes.len() by {
                            let pk = if k == e { cur.edges.len() - 1 } else { k };
                            assert(self@.edges[k] == cur.edges[pk]);
                        }
                    }
                },
            }
        }
        proof {
            assert forall|x: (usize, usize, EdgeView)| #[trigger] self@.edges.to_multiset().count(x)
                == edges_not_from(self@.edges, node).to_multiset().count(x) by {
                lemma_filter_count(self@.edges, keep, x);
                if !keep(x) && self@.edges.contains(x) {
                    let k = choose|k: int| 0 <= k < self@.edges.len() && self@.edges[k] == x;
                    assert(self@.edges[k].0 != node);
                }
            }
            assert(self@.edges.to_multiset() =~= edges_not_from(self@.edges, node).to_multiset());
        }
    }

    /// Removes the node of `path`, if any, with every edge touching it. The last
    /// node takes the index of the removed one and the other edges follow it.
    pub fn remove_file(&mut self, path: &str)
        requires
            old(self).wf(),
        ensures
            final(self).wf(),
            !old(self)@.nodes.contains(path@) ==> final(self)@ == old(self)@,
            old(self)@.nodes.contains(path@) ==> exists|a: int| {
                &&& 0 <= a < old(self)@.nodes.len()
                &&& #[trigger] old(self)@.nodes[a] == path@
                &&& final(self)@.nodes == swap_removed(old(self)@.nodes, a)
                &&& final(self)@.edges.to_multiset() == edges_after_node_removal(
                    old(self)@.edges,
                    a as usize,
                    (old(self)@.nodes.len() - 1) as usize,
                ).to_multiset()
            },
            !final(self)@.nodes.contains(path@),
    {
        match self.get_node(path) {
            None => {},
            Some(a) => {
                let ghost before = self@;
                let _ = petgraph_remove_node(&mut self.graph, a);
                proof {
                    let n = before.nodes.len();
                    let last = (n - 1) as usize;
                    lemma_swap_removed_no_duplicates(before.nodes, a as int);
                    let f = before.edges.filter(avoids(a));
                    let m = edges_after_node_removal(before.edges, a, last);
                    before.edges.filter_lemma(avoids(a));
                    assert forall|k: int| 0 <= k < self@.edges.len() implies (
                    #[trigger] self@.edges[k]).0 < self@.nodes.len() && self@.edges[k].1
                        < self@.nodes.len() by {
                        let x = self@.edges[k];
                        assert(self@.edges.contains(x));
                        assert(self@.edges.to_multiset().count(x) > 0);
                        assert(m.contains(x));
                        let j = choose|j: int| 0 <= j < m.len() && m[j] == x;
                        assert(m[j] == renumber_edge(a, last)(f[j]));
                        assert(f.contains(f[j]));
                        before.edges.lemma_filter_contains_rev(avoids(a), f[j]);
                        let i = choose|i: int| 0 <= i < before.edges.len() && before.edges[i] == f[j];
                        assert(before.edges[i].0 < n && before.edges[i].1 < n);
                        assert(avoids(a)(f[j]));
                    }
                    vstd::seq_lib::to_multiset_len(self@.edges);
                    vstd::seq_lib::to_multiset_len(m);
                    assert(self@.edges.len() == m.len());
                    assert(m.len() == f.len());
                    assert(!self@.nodes.contains(path@));
                }
            },
        }
    }
}

impl Default for DependencyGraph {
    fn default() -> (g: Self)
        ensures
            g.wf(),
            g@.nodes.len() == 0,
            g@.edges.len() == 0,
    {
        Self::new()
    }
}

/// The graph that adding the file `p` to `g` gives: `g` itself where it
/// holds `p`, else `g` with `p` as a new last node.
pub open spec fn with_file(g: GraphView, p: Seq<char>) -> GraphView {
    if g.nodes.contains(p) {
        g
    } else {
        GraphView { nodes: g.nodes.push(p), edges: g.edges }
    }
}

/// Adding a file to a well-formed graph: a path already there keeps its node
/// and the graph is unchanged; a new path gets the next node, one more than
/// before, and no edge is added. Either way the path then has one node and
/// the graph stays well formed.
pub proof fn lemma_add_file_law(g: GraphView, p: Seq<char>)
    requires
        graph_wf(g),
        g.nodes.len() + 1 < u32::MAX,
    ensures
        g.nodes.contains(p) ==> with_file(g, p) == g,
        !g.nodes.contains(p) ==> with_file(g, p).nodes.len() == g.nodes.len() + 1 && with_file(g, p).nodes[g.nodes.len() as int]
            == p,
        with_file(g, p).edges == g.edges,
        forall|i: int| 0 <= i < g.nodes.len() ==> with_file(g, p).nodes[i] == g.nodes[i],
        with_file(g, p).nodes.contains(p),
        graph_wf(with_file(g, p)),
        forall|i: int, j: int|
            0 <= i < with_file(g, p).nodes.len() && 0 <= j < with_file(g, p).nodes.len() && with_file(g, p).nodes[i] == p
                && with_file(g, p).nodes[j] == p ==> i == j,
{
    let h = with_file(g, p);
    if !g.nodes.contains(p) {
        assert(h.nodes[g.nodes.len() as int] == p);
        assert forall|i: int, j: int| 0 <= i < j < h.nodes.len() implies h.nodes[i] != h.nodes[j] by {
            if j == g.nodes.len() {
                assert(g.nodes.contains(h.nodes[i]) || h.nodes[i] != p);
            }
        }
    }
}

/// Adding a file that is already there changes nothing: adding a file twice
/// gives the graph that adding it once gives.
pub proof fn lemma_add_file_idempotent(g: GraphView, p: Seq<char>)
    ensures
        with_file(with_file(g, p), p) == with_file(g, p),
        with_file(g, p).nodes.contains(p),
        with_file(g, p).edges == g.edges,
{
    if !g.nodes.contains(p) {
        let n = g.nodes.push(p);
        assert(n[g.nodes.len() as int] == p);
    }
}

/// Whether `g2` is `g` after adding a dependency from `from` to `to` with
/// data `d`: an edge between them already there gets `d`'s symbols appended,
/// otherwise a new edge is added last.
pub open spec fn dependency_added(g: GraphView, from: usize, to: usize, d: EdgeView, g2: GraphView) -> bool {
    &&& g2.nodes == g.nodes
    &&& if has_edge(g.edges, from, to) {
        exists|r: int|
            0 <= r < g.edges.len() && #[trigger] g.edges[r].0 == from && g.edges[r].1 == to
                && g2.edges == g.edges.update(r, (from, to, merged_edge(g.edges[r].2, d.symbols)))
    } else {
        g2.edges == g.edges.push((from, to, d))
    }
}

/// Whether no two edges join the same pair of nodes, in the same direction.
pub open spec fn pairs_unique(edges: Seq<(usize, usize, EdgeView)>) -> bool {
    forall|i: int, j: int|
        0 <= i < j < edges.len() ==> !(#[trigger] edges[i].0 == #[trigger] edges[j].0 && edges[i].1 == edges[j].1)
}

/// Adding dependencies never puts a second edge between the same two files:
/// where each pair has at most one edge, it still has after; the edge count
/// grows by one exactly when the pair had no edge; and the pair has one after.
pub proof fn lemma_dependency_keeps_pairs_unique(g: GraphView, from: usize, to: usize, d: EdgeView, g2: GraphView)
    requires
        pairs_unique(g.edges),
        dependency_added(g, from, to, d, g2),
    ensures
        pairs_unique(g2.edges),
        g2.edges.len() == g.edges.len() + (if has_edge(g.edges, from, to) { 0int } else { 1int }),
        has_edge(g2.edges, from, to),
{
    if has_edge(g.edges, from, to) {
        let r = choose|r: int|
            0 <= r < g.edges.len() && #[trigger] g.edges[r].0 == from && g.edges[r].1 == to
                && g2.edges == g.edges.update(r, (from, to, merged_edge(g.edges[r].2, d.symbols)));
        assert forall|i: int, j: int| 0 <= i < j < g2.edges.len() implies !(#[trigger] g2.edges[i].0 == #[trigger] g2.edges[j].0 && g2.edges[i].1 == g2.edges[j].1) by {
            assert(g2.edges[i].0 == g.edges[i].0 && g2.edges[i].1 == g.edges[i].1);
            assert(g2.edges[j].0 == g.edges[j].0 && g2.edges[j].1 == g.edges[j].1);
            assert(!(g.edges[i].0 == g.edges[j].0 && g.edges[i].1 == g.edges[j].1));
        }
        assert(g2.edges[r].0 == from && g2.edges[r].1 == to);
    } else {
        assert forall|i: int, j: int| 0 <= i < j < g2.edges.len() implies !(#[trigger] g2.edges[i].0 == #[trigger] g2.edges[j].0 && g2.edges[i].1 == g2.edges[j].1) by {
            if j == g.edges.len() {
                assert(g2.edges[i] == g.edges[i]);
                if g.edges[i].0 == from && g.edges[i].1 == to {
                    assert(has_edge(g.edges, from, to));
                }
            } else {
                assert(g2.edges[i] == g.edges[i] && g2.edges[j] == g.edges[j]);
                assert(!(g.edges[i].0 == g.edges[j].0 && g.edges[i].1 == g.edges[j].1));
            }
        }
        assert(g2.edges[g.edges.len() as int].0 == from);
    }
}

} // verus!
