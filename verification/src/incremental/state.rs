//! The state kept between incremental analyses: the dependency graph and,
//! beside it, the index of who imports each file. The index always mirrors
//! the graph.

use vstd::prelude::*;
use crate::graph::{
    avoids, dependency_added, edges_after_node_removal, edges_not_from, graph_wf, lemma_filter_count, not_leaving, renumber_edge,
    renumbered, swap_removed, with_file, CodeRange, DependencyGraph, EdgeData, GraphView,
};
use crate::incremental::affected::{is_affected, lemma_pairs_without, reaches, ReverseDeps};
use crate::metrics::ChurnMap;
use crate::paths::{is_absolute_path, path_is_absolute};
use crate::text::str_views;

verus! {

/// Whether the graph has an import from the file `f` of the file `t`.
pub open spec fn links(g: GraphView, f: Seq<char>, t: Seq<char>) -> bool {
    exists|e: int| 0 <= e < g.edges.len() && g.nodes[(#[trigger] g.edges[e]).0 as int] == f && g.nodes[g.edges[e].1 as int] == t
}

/// Whether the index `rev` of (file, importer) pairs holds exactly the
/// imports of the graph.
pub open spec fn mirrors(g: GraphView, rev: Seq<(Seq<char>, Seq<char>)>) -> bool {
    forall|t: Seq<char>, f: Seq<char>| #![trigger rev.contains((t, f))] #![trigger links(g, f, t)] rev.contains((t, f)) <==> links(g, f, t)
}

/// An import of a file, as the parser found it and the resolver rewrote it:
/// `source` is the resolved path where resolution succeeded.
pub struct ImportRecord {
    pub source: String,
    pub name: String,
    pub line: usize,
    pub range: CodeRange,
}

/// The state kept between incremental analyses.
pub struct IncrementalState {
    pub graph: DependencyGraph,
    /// Who imports whom: (file, importer) pairs.
    pub reverse_deps: ReverseDeps,
    pub project_root: String,
    pub config_hash: String,
    pub churn_map: ChurnMap,
    pub script_entry_points: Vec<String>,
    pub dynamic_load_patterns: Vec<String>,
}

proof fn lemma_with_file_links(g: GraphView, p: Seq<char>, f: Seq<char>, t: Seq<char>)
    requires
        graph_wf(g),
    ensures
        links(with_file(g, p), f, t) == links(g, f, t),
{
    let g2 = with_file(g, p);
    if links(g, f, t) {
        let e = choose|e: int| 0 <= e < g.edges.len() && g.nodes[(#[trigger] g.edges[e]).0 as int] == f && g.nodes[g.edges[e].1 as int] == t;
        assert(g2.edges[e] == g.edges[e]);
        assert(g2.nodes[g.edges[e].0 as int] == g.nodes[g.edges[e].0 as int]);
        assert(g2.nodes[g.edges[e].1 as int] == g.nodes[g.edges[e].1 as int]);
    }
    if links(g2, f, t) {
        let e = choose|e: int| 0 <= e < g2.edges.len() && g2.nodes[(#[trigger] g2.edges[e]).0 as int] == f && g2.nodes[g2.edges[e].1 as int] == t;
        assert(g.edges[e] == g2.edges[e]);
        assert(g2.nodes[g.edges[e].0 as int] == g.nodes[g.edges[e].0 as int]);
        assert(g2.nodes[g.edges[e].1 as int] == g.nodes[g.edges[e].1 as int]);
    }
}

proof fn lemma_dependency_links(g: GraphView, from: usize, to: usize, d: crate::graph::EdgeView, g2: GraphView, f: Seq<char>, t: Seq<char>)
    requires
        graph_wf(g),
        from < g.nodes.len(),
        to < g.nodes.len(),
        dependency_added(g, from, to, d, g2),
    ensures
        links(g2, f, t) == (links(g, f, t) || (f == g.nodes[from as int] && t == g.nodes[to as int])),
{
    if crate::graph::has_edge(g.edges, from, to) {
        let r = choose|r: int|
            0 <= r < g.edges.len() && #[trigger] g.edges[r].0 == from && g.edges[r].1 == to
                && g2.edges == g.edges.update(r, (from, to, crate::graph::merged_edge(g.edges[r].2, d.symbols)));
        if links(g, f, t) {
            let e = choose|e: int| 0 <= e < g.edges.len() && g.nodes[(#[trigger] g.edges[e]).0 as int] == f && g.nodes[g.edges[e].1 as int] == t;
            assert(g2.edges[e].0 == g.edges[e].0 && g2.edges[e].1 == g.edges[e].1);
        }
        if f == g.nodes[from as int] && t == g.nodes[to as int] {
            assert(g2.edges[r].0 == from && g2.edges[r].1 == to);
        }
        if links(g2, f, t) {
            let e = choose|e: int| 0 <= e < g2.edges.len() && g2.nodes[(#[trigger] g2.edges[e]).0 as int] == f && g2.nodes[g2.edges[e].1 as int] == t;
            assert(g2.edges[e].0 == g.edges[e].0 && g2.edges[e].1 == g.edges[e].1);
        }
    } else {
        let n = g.edges.len() as int;
        if links(g, f, t) {
            let e = choose|e: int| 0 <= e < g.edges.len() && g.nodes[(#[trigger] g.edges[e]).0 as int] == f && g.nodes[g.edges[e].1 as int] == t;
            assert(g2.edges[e] == g.edges[e]);
        }
        if f == g.nodes[from as int] && t == g.nodes[to as int] {
            assert(g2.edges[n].0 == from && g2.edges[n].1 == to);
        }
        if links(g2, f, t) {
            let e = choose|e: int| 0 <= e < g2.edges.len() && g2.nodes[(#[trigger] g2.edges[e]).0 as int] == f && g2.nodes[g2.edges[e].1 as int] == t;
            if e < n {
                assert(g2.edges[e] == g.edges[e]);
            }
        }
    }
}

proof fn lemma_same_multiset_contains<T>(a: Seq<T>, b: Seq<T>, x: T)
    requires
        a.to_multiset() == b.to_multiset(),
    ensures
        a.contains(x) == b.contains(x),
{
    broadcast use vstd::seq_lib::group_to_multiset_ensures;
    assert(a.contains(x) == (a.to_multiset().count(x) > 0));
    assert(b.contains(x) == (b.to_multiset().count(x) > 0));
}

proof fn lemma_filter_contains_iff<T>(s: Seq<T>, p: spec_fn(T) -> bool, x: T)
    ensures
        s.filter(p).contains(x) == (s.contains(x) && p(x)),
{
    broadcast use vstd::seq_lib::group_to_multiset_ensures;
    lemma_filter_count(s, p, x);
    assert(s.filter(p).contains(x) == (s.filter(p).to_multiset().count(x) > 0));
    assert(s.contains(x) == (s.to_multiset().count(x) > 0));
}

proof fn lemma_outgoing_removed_links(g: GraphView, g2: GraphView, node: usize, file: Seq<char>, f: Seq<char>, t: Seq<char>)
    requires
        graph_wf(g),
        node < g.nodes.len(),
        g.nodes[node as int] == file,
        g2.nodes == g.nodes,
        g2.edges.to_multiset() == edges_not_from(g.edges, node).to_multiset(),
    ensures
        links(g2, f, t) == (links(g, f, t) && f != file),
{
    if links(g2, f, t) {
        let e = choose|e: int| 0 <= e < g2.edges.len() && g2.nodes[(#[trigger] g2.edges[e]).0 as int] == f && g2.nodes[g2.edges[e].1 as int] == t;
        let x = g2.edges[e];
        assert(g2.edges.contains(x));
        lemma_same_multiset_contains(g2.edges, edges_not_from(g.edges, node), x);
        lemma_filter_contains_iff(g.edges, not_leaving(node), x);
        let k = choose|k: int| 0 <= k < g.edges.len() && g.edges[k] == x;
        assert(g.edges[k].0 != node);
        assert(f != file) by {
            if f == file {
                assert(g.nodes[x.0 as int] == g.nodes[node as int]);
            }
        }
    }
    if links(g, f, t) && f != file {
        let e = choose|e: int| 0 <= e < g.edges.len() && g.nodes[(#[trigger] g.edges[e]).0 as int] == f && g.nodes[g.edges[e].1 as int] == t;
        let x = g.edges[e];
        assert(g.edges.contains(x));
        assert(x.0 != node);
        lemma_filter_contains_iff(g.edges, not_leaving(node), x);
        lemma_same_multiset_contains(g2.edges, edges_not_from(g.edges, node), x);
        let k = choose|k: int| 0 <= k < g2.edges.len() && g2.edges[k] == x;
        assert(g2.nodes[g2.edges[k].0 as int] == f);
    }
}

proof fn lemma_node_removed_links(g: GraphView, g3: GraphView, a: usize, path: Seq<char>, f: Seq<char>, t: Seq<char>)
    requires
        graph_wf(g),
        a < g.nodes.len(),
        g.nodes[a as int] == path,
        g3.nodes == swap_removed(g.nodes, a as int),
        g3.edges.to_multiset() == edges_after_node_removal(g.edges, a, (g.nodes.len() - 1) as usize).to_multiset(),
    ensures
        links(g3, f, t) == (links(g, f, t) && f != path && t != path),
{
    let last = (g.nodes.len() - 1) as usize;
    let fl = g.edges.filter(avoids(a));
    let m = edges_after_node_removal(g.edges, a, last);
    assert forall|x: usize| x < g.nodes.len() && x != a implies renumbered(x, a, last) < g3.nodes.len()
        && g3.nodes[renumbered(x, a, last) as int] == g.nodes[x as int] by {
        if x == last {
            assert(g3.nodes[a as int] == g.nodes[last as int]);
        } else {
            assert(g3.nodes[x as int] == g.nodes[x as int]);
        }
    }
    if links(g3, f, t) {
        let e = choose|e: int| 0 <= e < g3.edges.len() && g3.nodes[(#[trigger] g3.edges[e]).0 as int] == f && g3.nodes[g3.edges[e].1 as int] == t;
        let y = g3.edges[e];
        assert(g3.edges.contains(y));
        lemma_same_multiset_contains(g3.edges, m, y);
        let j = choose|j: int| 0 <= j < m.len() && m[j] == y;
        let x = fl[j];
        assert(m[j] == renumber_edge(a, last)(x));
        assert(fl.contains(x));
        lemma_filter_contains_iff(g.edges, avoids(a), x);
        let k = choose|k: int| 0 <= k < g.edges.len() && g.edges[k] == x;
        assert(x.0 < g.nodes.len() && x.1 < g.nodes.len());
        assert(x.0 != a && x.1 != a);
        assert(g.nodes[x.0 as int] == f);
        assert(g.nodes[x.1 as int] == t);
        assert(f != path) by {
            if f == path {
                assert(g.nodes[x.0 as int] == g.nodes[a as int]);
            }
        }
        assert(t != path) by {
            if t == path {
                assert(g.nodes[x.1 as int] == g.nodes[a as int]);
            }
        }
    }
    if links(g, f, t) && f != path && t != path {
        let e = choose|e: int| 0 <= e < g.edges.len() && g.nodes[(#[trigger] g.edges[e]).0 as int] == f && g.nodes[g.edges[e].1 as int] == t;
        let x = g.edges[e];
        assert(g.edges.contains(x));
        assert(x.0 != a && x.1 != a);
        lemma_filter_contains_iff(g.edges, avoids(a), x);
        let j = choose|j: int| 0 <= j < fl.len() && fl[j] == x;
        let y = m[j];
        assert(y == renumber_edge(a, last)(x));
        assert(m.contains(y));
        lemma_same_multiset_contains(g3.edges, m, y);
        let k = choose|k: int| 0 <= k < g3.edges.len() && g3.edges[k] == y;
        assert(g3.nodes[g3.edges[k].0 as int] == f);
        assert(g3.nodes[g3.edges[k].1 as int] == t);
    }
}

/// Whether one of the first `n` imports, with its flag in `absolute` set,
/// has the source `t`.
pub open spec fn gained_before(imports: Seq<ImportRecord>, absolute: Seq<bool>, n: int, t: Seq<char>) -> bool {
    exists|k: int| 0 <= k < n && absolute[k] && #[trigger] imports[k].source@ == t
}

/// For each import, whether `Path::is_absolute` calls its source absolute.
pub open spec fn absolute_flags(imports: Seq<ImportRecord>) -> Seq<bool> {
    imports.map_values(|r: ImportRecord| path_is_absolute(r.source@))
}

/// Whether the graph `g1` and index `r1` are `g0` and `r0` with the imports
/// of `file` recorded, those of `imports` whose flag in `absolute` is set.
pub open spec fn recorded(
    g0: GraphView,
    r0: Seq<(Seq<char>, Seq<char>)>,
    g1: GraphView,
    r1: Seq<(Seq<char>, Seq<char>)>,
    file: Seq<char>,
    imports: Seq<ImportRecord>,
    absolute: Seq<bool>,
) -> bool {
    &&& absolute.len() == imports.len()
    &&& forall|f: Seq<char>, t: Seq<char>| #[trigger] links(g1, f, t) == (links(g0, f, t) || (f == file && gained_before(imports, absolute, imports.len() as int, t)))
    &&& forall|p: (Seq<char>, Seq<char>)| #[trigger] r1.contains(p) == (r0.contains(p) || (p.1 == file && gained_before(imports, absolute, imports.len() as int, p.0)))
}

/// Whether `x` reaches a file of `from` in at most `n` imports of the graph.
pub open spec fn imports_reach(g: GraphView, from: Seq<Seq<char>>, x: Seq<char>, n: nat) -> bool
    decreases n,
{
    if n == 0 {
        from.contains(x)
    } else {
        imports_reach(g, from, x, (n - 1) as nat) || exists|t: Seq<char>| #[trigger] links(g, x, t) && imports_reach(g, from, t, (n - 1) as nat)
    }
}

proof fn lemma_reach_agrees(g: GraphView, rev: Seq<(Seq<char>, Seq<char>)>, from: Seq<Seq<char>>, x: Seq<char>, n: nat)
    requires
        mirrors(g, rev),
    ensures
        reaches(rev, from, x, n) == imports_reach(g, from, x, n),
    decreases n,
{
    if n > 0 {
        let m = (n - 1) as nat;
        lemma_reach_agrees(g, rev, from, x, m);
        if exists|k: int| 0 <= k < rev.len() && (#[trigger] rev[k]).1 == x && reaches(rev, from, rev[k].0, m) {
            let k = choose|k: int| 0 <= k < rev.len() && (#[trigger] rev[k]).1 == x && reaches(rev, from, rev[k].0, m);
            let t = rev[k].0;
            assert(rev.contains((t, x)));
            assert(links(g, x, t));
            lemma_reach_agrees(g, rev, from, t, m);
        }
        if exists|t: Seq<char>| #[trigger] links(g, x, t) && imports_reach(g, from, t, m) {
            let t = choose|t: Seq<char>| #[trigger] links(g, x, t) && imports_reach(g, from, t, m);
            assert(rev.contains((t, x)));
            let k = choose|k: int| 0 <= k < rev.len() && rev[k] == (t, x);
            lemma_reach_agrees(g, rev, from, t, m);
            assert(rev[k].1 == x && reaches(rev, from, rev[k].0, m));
        }
    }
}

/// Where the index of importers mirrors the graph, the files affected by a
/// change are exactly those from which a changed file is reached by
/// following imports in the graph.
pub proof fn lemma_affected_follows_imports(g: GraphView, rev: Seq<(Seq<char>, Seq<char>)>, from: Seq<Seq<char>>, x: Seq<char>)
    requires
        mirrors(g, rev),
    ensures
        is_affected(rev, from, x) == exists|n: nat| #[trigger] imports_reach(g, from, x, n),
{
    if is_affected(rev, from, x) {
        let n = choose|n: nat| #[trigger] reaches(rev, from, x, n);
        lemma_reach_agrees(g, rev, from, x, n);
    }
    if exists|n: nat| #[trigger] imports_reach(g, from, x, n) {
        let n = choose|n: nat| #[trigger] imports_reach(g, from, x, n);
        lemma_reach_agrees(g, rev, from, x, n);
    }
}

impl IncrementalState {
    /// The graph is well formed and the index of importers mirrors it.
    pub open spec fn wf(&self) -> bool {
        &&& self.graph.wf()
        &&& mirrors(self.graph@, self.reverse_deps.edges_view())
    }

    /// An empty state for the project at `project_root`, analysed under the
    /// configuration with hash `config_hash`.
    pub fn new(project_root: String, config_hash: String) -> (r: Self)
        ensures
            r.wf(),
            r.graph@.nodes.len() == 0,
            r.graph@.edges.len() == 0,
            r.reverse_deps.edges_view().len() == 0,
            r.project_root == project_root,
            r.config_hash == config_hash,
            r.churn_map.counts@.len() == 0,
            r.script_entry_points@.len() == 0,
            r.dynamic_load_patterns@.len() == 0,
    {
        let r = IncrementalState {
            graph: DependencyGraph::new(),
            reverse_deps: ReverseDeps::new(),
            project_root,
            config_hash,
            churn_map: ChurnMap { counts: Vec::new() },
            script_entry_points: Vec::new(),
            dynamic_load_patterns: Vec::new(),
        };
        assert forall|t: Seq<char>, f: Seq<char>| #![trigger r.reverse_deps.edges_view().contains((t, f))] #![trigger links(r.graph@, f, t)]
            r.reverse_deps.edges_view().contains((t, f)) <==> links(r.graph@, f, t) by {}
        r
    }

    /// Forgets everything learned about the project; its root and the
    /// configuration hash stay.
    pub fn clear(&mut self)
        ensures
            final(self).wf(),
            final(self).graph@.nodes.len() == 0,
            final(self).graph@.edges.len() == 0,
            final(self).reverse_deps.edges_view().len() == 0,
            final(self).project_root == old(self).project_root,
            final(self).config_hash == old(self).config_hash,
            final(self).churn_map.counts@.len() == 0,
            final(self).script_entry_points@.len() == 0,
            final(self).dynamic_load_patterns@.len() == 0,
    {
        self.graph = DependencyGraph::new();
        self.reverse_deps = ReverseDeps::new();
        self.churn_map = ChurnMap { counts: Vec::new() };
        self.script_entry_points = Vec::new();
        self.dynamic_load_patterns = Vec::new();
        assert forall|t: Seq<char>, f: Seq<char>| #![trigger self.reverse_deps.edges_view().contains((t, f))] #![trigger links(self.graph@, f, t)]
            self.reverse_deps.edges_view().contains((t, f)) <==> links(self.graph@, f, t) by {}
    }

    /// Forgets the imports made by `file`: its edges leave the graph and it
    /// leaves the importers of every file.
    pub fn remove_outgoing_edges(&mut self, file: &str)
        requires
            old(self).wf(),
        ensures
            final(self).wf(),
            final(self).graph@.nodes == old(self).graph@.nodes,
            forall|f: Seq<char>, t: Seq<char>| #[trigger] links(final(self).graph@, f, t) == (links(old(self).graph@, f, t) && f != file@),
            forall|p: (Seq<char>, Seq<char>)| #[trigger] final(self).reverse_deps.edges_view().contains(p) == (
                old(self).reverse_deps.edges_view().contains(p) && p.1 != file@),
            final(self).project_root == old(self).project_root,
            final(self).config_hash == old(self).config_hash,
            final(self).churn_map == old(self).churn_map,
            final(self).script_entry_points == old(self).script_entry_points,
            final(self).dynamic_load_patterns == old(self).dynamic_load_patterns,
    {
        let ghost g0 = self.graph@;
        let ghost r0 = self.reverse_deps.edges_view();
        match self.graph.get_node(file) {
            Some(node) => {
                self.graph.remove_outgoing_edges(node);
                self.reverse_deps.remove_pairs(file, true);
                proof {
                    let g1 = self.graph@;
                    let r1 = self.reverse_deps.edges_view();
                    assert forall|f: Seq<char>, t: Seq<char>| #[trigger] links(g1, f, t) == (links(g0, f, t) && f != file@) by {
                        lemma_outgoing_removed_links(g0, g1, node, file@, f, t);
                    }
                    assert forall|p: (Seq<char>, Seq<char>)| #[trigger] r1.contains(p) == (r0.contains(p) && p.1 != file@) by {
                        lemma_pairs_without(r0, file@, true, p);
                    }
                    assert forall|t: Seq<char>, f: Seq<char>| #![trigger r1.contains((t, f))] #![trigger links(g1, f, t)]
                        r1.contains((t, f)) <==> links(g1, f, t) by {
                        lemma_outgoing_removed_links(g0, g1, node, file@, f, t);
                        lemma_pairs_without(r0, file@, true, (t, f));
                        assert(r0.contains((t, f)) == links(g0, f, t));
                    }
                }
            },
            None => {
                proof {
                    assert forall|f: Seq<char>, t: Seq<char>| #[trigger] links(g0, f, t) implies f != file@ by {
                        let e = choose|e: int| 0 <= e < g0.edges.len() && g0.nodes[(#[trigger] g0.edges[e]).0 as int] == f && g0.nodes[g0.edges[e].1 as int] == t;
                        assert(g0.edges[e].0 < g0.nodes.len());
                        assert(g0.nodes.contains(f));
                    }
                    assert forall|p: (Seq<char>, Seq<char>)| #[trigger] r0.contains(p) implies p.1 != file@ by {
                        assert(r0.contains((p.0, p.1)) == links(g0, p.1, p.0));
                    }
                }
            },
        }
    }

    /// Records the imports of `file` whose flag in `absolute` is set (those
    /// whose source was resolved to a path): each source becomes a node, the
    /// graph gains an import from `file` of it, and `file` joins its importers.
    pub fn record_imports(&mut self, file: &str, imports: &Vec<ImportRecord>, absolute: &[bool])
        requires
            old(self).wf(),
            absolute@.len() == imports@.len(),
            old(self).graph@.nodes.len() + imports@.len() + 1 < u32::MAX,
            old(self).graph@.edges.len() + imports@.len() + 1 < u32::MAX,
        ensures
            final(self).wf(),
            final(self).graph@.nodes.contains(file@),
            forall|x: Seq<char>| old(self).graph@.nodes.contains(x) ==> #[trigger] final(self).graph@.nodes.contains(x),
            forall|f: Seq<char>, t: Seq<char>| #[trigger] links(final(self).graph@, f, t) == (links(old(self).graph@, f, t) || (
                f == file@ && gained_before(imports@, absolute@, imports@.len() as int, t))),
            forall|p: (Seq<char>, Seq<char>)| #[trigger] final(self).reverse_deps.edges_view().contains(p) == (
                old(self).reverse_deps.edges_view().contains(p) || (p.1 == file@ && gained_before(imports@, absolute@, imports@.len() as int, p.0))),
            final(self).project_root == old(self).project_root,
            final(self).config_hash == old(self).config_hash,
            final(self).churn_map == old(self).churn_map,
            final(self).script_entry_points == old(self).script_entry_points,
            final(self).dynamic_load_patterns == old(self).dynamic_load_patterns,
    {
        let ghost g0 = self.graph@;
        let ghost r0 = self.reverse_deps.edges_view();
        let from = self.graph.add_file(file);
        proof {
            assert forall|f: Seq<char>, t: Seq<char>| #[trigger] links(self.graph@, f, t) == links(g0, f, t) by {
                lemma_with_file_links(g0, file@, f, t);
            }
            assert forall|x: Seq<char>| g0.nodes.contains(x) implies #[trigger] self.graph@.nodes.contains(x) by {
                if !g0.nodes.contains(file@) {
                    crate::text::lemma_push_contains(g0.nodes, file@, x);
                }
            }
        }
        let mut i: usize = 0;
        while i < imports.len()
            invariant
                i <= imports@.len(),
                absolute@.len() == imports@.len(),
                self.graph.wf(),
                from < self.graph@.nodes.len(),
                self.graph@.nodes[from as int] == file@,
                self.graph@.nodes.len() <= g0.nodes.len() + 1 + i,
                self.graph@.edges.len() <= g0.edges.len() + i,
                g0.nodes.len() + imports@.len() + 1 < u32::MAX,
                g0.edges.len() + imports@.len() + 1 < u32::MAX,
                forall|x: Seq<char>| g0.nodes.contains(x) ==> #[trigger] self.graph@.nodes.contains(x),
                forall|f: Seq<char>, t: Seq<char>| #[trigger] links(self.graph@, f, t) == (links(g0, f, t) || (f == file@
                    && gained_before(imports@, absolute@, i as int, t))),
                forall|p: (Seq<char>, Seq<char>)| #[trigger] self.reverse_deps.edges_view().contains(p) == (r0.contains(p) || (p.1
                    == file@ && gained_before(imports@, absolute@, i as int, p.0))),
                self.project_root == old(self).project_root,
                self.config_hash == old(self).config_hash,
                self.churn_map == old(self).churn_map,
                self.script_entry_points == old(self).script_entry_points,
                self.dynamic_load_patterns == old(self).dynamic_load_patterns,
            decreases imports@.len() - i,
        {
            let ghost gb = self.graph@;
            let ghost rb = self.reverse_deps.edges_view();
            let ghost src = imports@[i as int].source@;
            if absolute[i] {
                let import = &imports[i];
                let to = self.graph.add_file(import.source.as_str());
                let ghost gm = self.graph@;
                proof {
                    assert forall|f: Seq<char>, t: Seq<char>| #[trigger] links(gm, f, t) == links(gb, f, t) by {
                        lemma_with_file_links(gb, src, f, t);
                    }
                    assert forall|x: Seq<char>| g0.nodes.contains(x) implies #[trigger] gm.nodes.contains(x) by {
                        assert(gb.nodes.contains(x));
                        if !gb.nodes.contains(src) {
                            crate::text::lemma_push_contains(gb.nodes, src, x);
                        }
                    }
                    assert(gm.nodes[from as int] == file@);
                }
                let mut symbols: Vec<String> = Vec::new();
                symbols.push(import.name.clone());
                let edge = EdgeData::with_all(import.line, import.range, symbols);
                self.graph.add_dependency(from, to, edge);
                self.reverse_deps.add_importer(import.source.as_str(), file);
                proof {
                    let g2 = self.graph@;
                    let r2 = self.reverse_deps.edges_view();
                    assert forall|f: Seq<char>, t: Seq<char>| #[trigger] links(g2, f, t) == (links(g0, f, t) || (f == file@
                        && gained_before(imports@, absolute@, i + 1, t))) by {
                        lemma_dependency_links(gm, from, to, edge@, g2, f, t);
                        if gained_before(imports@, absolute@, i + 1, t) && !gained_before(imports@, absolute@, i as int, t) {
                            let k = choose|k: int| 0 <= k < i + 1 && absolute@[k] && #[trigger] imports@[k].source@ == t;
                            assert(k == i);
                        }
                        if t == src {
                            assert(imports@[i as int].source@ == t);
                        }
                    }
                    assert forall|p: (Seq<char>, Seq<char>)| #[trigger] r2.contains(p) == (r0.contains(p) || (p.1 == file@
                        && gained_before(imports@, absolute@, i + 1, p.0))) by {
                        crate::text::lemma_push_contains(rb, (src, file@), p);
                        if gained_before(imports@, absolute@, i + 1, p.0) && !gained_before(imports@, absolute@, i as int, p.0) {
                            let k = choose|k: int| 0 <= k < i + 1 && absolute@[k] && #[trigger] imports@[k].source@ == p.0;
                            assert(k == i);
                        }
                        if p == (src, file@) {
                            assert(imports@[i as int].source@ == p.0);
                        }
                    }
                }
            } else {
                proof {
                    assert forall|t: Seq<char>| #[trigger] gained_before(imports@, absolute@, i + 1, t) == gained_before(imports@, absolute@, i as int, t) by {
                        if gained_before(imports@, absolute@, i + 1, t) {
                            let k = choose|k: int| 0 <= k < i + 1 && absolute@[k] && #[trigger] imports@[k].source@ == t;
                            assert(k != i);
                        }
                    }
                }
            }
            i = i + 1;
        }
        proof {
            let g1 = self.graph@;
            let r1 = self.reverse_deps.edges_view();
            assert forall|t: Seq<char>, f: Seq<char>| #![trigger r1.contains((t, f))] #![trigger links(g1, f, t)]
                r1.contains((t, f)) <==> links(g1, f, t) by {
                assert(r0.contains((t, f)) == links(g0, f, t));
                assert(r1.contains((t, f)) == (r0.contains((t, f)) || (f == file@ && gained_before(imports@, absolute@, imports@.len() as int, t))));
            }
        }
    }

    /// Forgets the file `path`: its node leaves the graph with every import
    /// from or of it, and it leaves the index of importers on both sides.
    pub fn remove_file(&mut self, path: &str)
        requires
            old(self).wf(),
        ensures
            final(self).wf(),
            !final(self).graph@.nodes.contains(path@),
            forall|f: Seq<char>, t: Seq<char>| #[trigger] links(final(self).graph@, f, t) == (links(old(self).graph@, f, t) && f
                != path@ && t != path@),
            forall|p: (Seq<char>, Seq<char>)| #[trigger] final(self).reverse_deps.edges_view().contains(p) == (
                old(self).reverse_deps.edges_view().contains(p) && p.0 != path@ && p.1 != path@),
            final(self).project_root == old(self).project_root,
            final(self).config_hash == old(self).config_hash,
            final(self).churn_map == old(self).churn_map,
            final(self).script_entry_points == old(self).script_entry_points,
            final(self).dynamic_load_patterns == old(self).dynamic_load_patterns,
    {
        let ghost g0 = self.graph@;
        let ghost r0 = self.reverse_deps.edges_view();
        self.remove_outgoing_edges(path);
        let ghost g1 = self.graph@;
        let ghost r1 = self.reverse_deps.edges_view();
        self.graph.remove_file(path);
        self.reverse_deps.remove_pairs(path, false);
        proof {
            let g2 = self.graph@;
            let r2 = self.reverse_deps.edges_view();
            assert forall|f: Seq<char>, t: Seq<char>| #[trigger] links(g2, f, t) == (links(g1, f, t) && f != path@ && t != path@) by {
                if g1.nodes.contains(path@) {
                    let a = choose|a: int| {
                        &&& 0 <= a < g1.nodes.len()
                        &&& #[trigger] g1.nodes[a] == path@
                        &&& g2.nodes == swap_removed(g1.nodes, a)
                        &&& g2.edges.to_multiset() == edges_after_node_removal(g1.edges, a as usize, (g1.nodes.len() - 1) as usize).to_multiset()
                    };
                    lemma_node_removed_links(g1, g2, a as usize, path@, f, t);
                } else {
                    if links(g1, f, t) {
                        let e = choose|e: int| 0 <= e < g1.edges.len() && g1.nodes[(#[trigger] g1.edges[e]).0 as int] == f && g1.nodes[g1.edges[e].1 as int] == t;
                        assert(g1.edges[e].0 < g1.nodes.len() && g1.edges[e].1 < g1.nodes.len());
                        assert(g1.nodes.contains(f) && g1.nodes.contains(t));
                    }
                }
            }
            assert forall|p: (Seq<char>, Seq<char>)| #[trigger] r2.contains(p) == (r1.contains(p) && p.0 != path@) by {
                lemma_pairs_without(r1, path@, false, p);
            }
            assert forall|f: Seq<char>, t: Seq<char>| #[trigger] links(g2, f, t) == (links(g0, f, t) && f != path@ && t != path@) by {
                assert(links(g1, f, t) == (links(g0, f, t) && f != path@));
            }
            assert forall|p: (Seq<char>, Seq<char>)| #[trigger] r2.contains(p) == (r0.contains(p) && p.0 != path@ && p.1 != path@) by {
                assert(r1.contains(p) == (r0.contains(p) && p.1 != path@));
            }
            assert forall|t: Seq<char>, f: Seq<char>| #![trigger r2.contains((t, f))] #![trigger links(g2, f, t)]
                r2.contains((t, f)) <==> links(g2, f, t) by {
                assert(r1.contains((t, f)) == links(g1, f, t));
                assert(r2.contains((t, f)) == (r1.contains((t, f)) && t != path@));
                assert(links(g2, f, t) == (links(g1, f, t) && f != path@ && t != path@));
                assert(links(g1, f, t) ==> f != path@);
            }
        }
    }

    /// Records the imports of `file` that were resolved to a path, those
    /// whose source `Path::is_absolute` calls absolute: `file` becomes a node,
    /// each such source a node too, the graph gains an import from `file` of
    /// it, and `file` joins its importers; see `record_imports`.
    pub fn update_graph_dependencies(&mut self, file: &str, imports: &Vec<ImportRecord>)
        requires
            old(self).wf(),
            old(self).graph@.nodes.len() + imports@.len() + 1 < u32::MAX,
            old(self).graph@.edges.len() + imports@.len() + 1 < u32::MAX,
        ensures
            final(self).wf(),
            final(self).graph@.nodes.contains(file@),
            forall|x: Seq<char>| old(self).graph@.nodes.contains(x) ==> #[trigger] final(self).graph@.nodes.contains(x),
            recorded(
                old(self).graph@,
                old(self).reverse_deps.edges_view(),
                final(self).graph@,
                final(self).reverse_deps.edges_view(),
                file@,
                imports@,
                absolute_flags(imports@),
            ),
            final(self).project_root == old(self).project_root,
            final(self).config_hash == old(self).config_hash,
            final(self).churn_map == old(self).churn_map,
            final(self).script_entry_points == old(self).script_entry_points,
            final(self).dynamic_load_patterns == old(self).dynamic_load_patterns,
    {
        let mut absolute: Vec<bool> = Vec::new();
        let mut i: usize = 0;
        while i < imports.len()
            invariant
                i <= imports@.len(),
                absolute@ == absolute_flags(imports@.take(i as int)),
            decreases imports@.len() - i,
        {
            absolute.push(is_absolute_path(imports[i].source.as_str()));
            assert(absolute_flags(imports@.take(i + 1)) =~= absolute_flags(imports@.take(i as int)).push(
                path_is_absolute(imports@[i as int].source@),
            ));
            i = i + 1;
        }
        assert(imports@.take(imports@.len() as int) =~= imports@);
        let ghost g0 = self.graph@;
        let ghost r0 = self.reverse_deps.edges_view();
        self.record_imports(file, imports, absolute.as_slice());
        assert(recorded(g0, r0, self.graph@, self.reverse_deps.edges_view(), file@, imports@, absolute@));
    }

    /// Every file affected by a change of `changed`, each once: the changed
    /// files and, transitively, the files that import an affected file.
    pub fn get_affected_files(&self, changed: &[String]) -> (r: Vec<String>)
        ensures
            forall|x: Seq<char>| #[trigger] str_views(r@).contains(x) <==> is_affected(
                self.reverse_deps.edges_view(),
                str_views(changed@),
                x,
            ),
            forall|i: int, j: int| 0 <= i < j < r@.len() ==> r@[i]@ != r@[j]@,
    {
        self.reverse_deps.get_affected_files(changed)
    }
}

} // verus!
