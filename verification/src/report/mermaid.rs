//! A Mermaid flowchart of the files that have smells and the imports
//! between them.

use vstd::prelude::*;
use crate::detectors::{ArchSmell, Explanation, SmellType};
use crate::graph::{DependencyGraph, GraphView, graph_wf, out_targets};
use crate::paths::{file_name_of, path_file_name};
use crate::text::{append_str, chars_of, decimal, push_char, push_decimal, str_eq, str_views, string_of};

verus! {

/// Draws the dependency graph of the files that have smells.
pub struct MermaidGenerator;

/// The style class that marks files with a smell of kind `t`, if any.
pub open spec fn css_class(t: SmellType) -> Option<Seq<char>> {
    match t {
        SmellType::DeadCode => Some("deadCode"@),
        SmellType::GodModule => Some("godModule"@),
        SmellType::CyclicDependency => Some("cycle"@),
        SmellType::CyclicDependencyCluster => Some("cycle"@),
        SmellType::DeadSymbol { .. } => Some("deadSymbol"@),
        SmellType::HighComplexity { .. } => Some("complexity"@),
        SmellType::LargeFile => Some("largeFile"@),
        SmellType::UnstableInterface => Some("unstableInterface"@),
        SmellType::FeatureEnvy { .. } => Some("featureEnvy"@),
        SmellType::ShotgunSurgery => Some("shotgunSurgery"@),
        SmellType::HubDependency { .. } => Some("hubDependency"@),
        SmellType::TestLeakage { .. } => Some("testLeakage"@),
        SmellType::LayerViolation { .. } => Some("layerViolation"@),
        SmellType::SdpViolation => Some("sdpViolation"@),
        _ => None,
    }
}

/// The class of the first of `ts` that has one, or empty.
pub open spec fn first_class(ts: Seq<SmellType>) -> Seq<char>
    decreases ts.len(),
{
    if ts.len() == 0 {
        Seq::empty()
    } else {
        let f = first_class(ts.drop_last());
        if f.len() > 0 {
            f
        } else {
            match css_class(ts.last()) {
                Some(c) => c,
                None => Seq::empty(),
            }
        }
    }
}

/// Each file of each smell, with the kind of that smell, in order.
pub open spec fn occurrences(smells: Seq<(ArchSmell, Explanation)>) -> Seq<(Seq<char>, SmellType)>
    decreases smells.len(),
{
    if smells.len() == 0 {
        Seq::empty()
    } else {
        let s = smells.last().0;
        occurrences(smells.drop_last()) + str_views(s.files@).map_values(|f: Seq<char>| (f, s.smell_type))
    }
}

/// The distinct files of `occ`, in the order they first occur.
pub open spec fn distinct_files(occ: Seq<(Seq<char>, SmellType)>) -> Seq<Seq<char>>
    decreases occ.len(),
{
    if occ.len() == 0 {
        Seq::empty()
    } else {
        let prev = distinct_files(occ.drop_last());
        if prev.contains(occ.last().0) { prev } else { prev.push(occ.last().0) }
    }
}

/// The kinds of smells that `f` has in `occ`, in order.
pub open spec fn kinds_of(occ: Seq<(Seq<char>, SmellType)>, f: Seq<char>) -> Seq<SmellType>
    decreases occ.len(),
{
    if occ.len() == 0 {
        Seq::empty()
    } else {
        let prev = kinds_of(occ.drop_last(), f);
        if occ.last().0 == f { prev.push(occ.last().1) } else { prev }
    }
}

/// The name shown for `path`: its file name (or `unknown`) with `.`, `-` and
/// spaces turned into `_`.
pub open spec fn short_name(path: Seq<char>) -> Seq<char> {
    let name = match path_file_name(path) {
        Some(n) => n,
        None => "unknown"@,
    };
    name.map_values(|c: char| if c == '.' || c == '-' || c == ' ' { '_' } else { c })
}

/// The node line of file `i`.
pub open spec fn node_line(i: nat, file: Seq<char>, class: Seq<char>) -> Seq<char> {
    "    file"@ + decimal(i) + seq!['['] + short_name(file) + seq![']'] + (if class.len() > 0 {
        ":::"@ + class
    } else {
        Seq::empty()
    }) + seq!['\n']
}

/// The node lines of `files`, numbered from 0.
pub open spec fn node_lines(files: Seq<Seq<char>>, classes: Seq<Seq<char>>) -> Seq<char>
    decreases files.len(),
{
    if files.len() == 0 {
        Seq::empty()
    } else {
        node_lines(files.drop_last(), classes) + node_line(
            (files.len() - 1) as nat,
            files.last(),
            classes[files.len() - 1],
        )
    }
}

/// The edge lines of `pairs`.
pub open spec fn edge_lines(pairs: Seq<(nat, nat)>) -> Seq<char>
    decreases pairs.len(),
{
    if pairs.len() == 0 {
        Seq::empty()
    } else {
        edge_lines(pairs.drop_last()) + "    file"@ + decimal(pairs.last().0) + " --> file"@ + decimal(
            pairs.last().1,
        ) + seq!['\n']
    }
}

/// Whether the graph has an import from file `files[i]` to file `files[j]`.
pub open spec fn imports_between(g: GraphView, files: Seq<Seq<char>>, i: nat, j: nat) -> bool {
    &&& i < files.len()
    &&& j < files.len()
    &&& exists|e: int|
        0 <= e < g.edges.len() && g.nodes[(#[trigger] g.edges[e]).0 as int] == files[i as int] && g.nodes[g.edges[e].1 as int]
            == files[j as int]
}

/// The style class definitions that close the chart.
pub open spec fn class_definitions() -> Seq<char> {
    "\n    classDef deadCode fill:#e0e0e0,stroke:#999,stroke-dasharray:5\n"@
        + "    classDef deadSymbol fill:#f0f0f0,stroke:#bbb,stroke-dasharray:3\n"@
        + "    classDef godModule fill:#ffcccc,stroke:#cc0000\n"@
        + "    classDef cycle fill:#ffffcc,stroke:#cccc00\n"@
        + "    classDef complexity fill:#f9f,stroke:#333\n"@
        + "    classDef unstableInterface fill:#ff9966,stroke:#993300\n"@
        + "    classDef featureEnvy fill:#99ccff,stroke:#003366\n"@
        + "    classDef shotgunSurgery fill:#ff6666,stroke:#660000\n"@
        + "    classDef hubDependency fill:#cc99ff,stroke:#330066\n"@
        + "    classDef testLeakage fill:#ff6666,stroke:#cc0000,stroke-width:2px\n"@
        + "    classDef layerViolation fill:#ff3333,stroke:#990000,stroke-width:3px\n"@
        + "    classDef sdpViolation fill:#ffcc99,stroke:#ff6600\n"@
}

/// The whole chart: header, node lines, a blank line, edge lines, class
/// definitions and the closing fence.
pub open spec fn mermaid_chart(files: Seq<Seq<char>>, classes: Seq<Seq<char>>, pairs: Seq<(nat, nat)>) -> Seq<char> {
    "```mermaid\nflowchart LR\n"@ + node_lines(files, classes) + seq!['\n'] + edge_lines(pairs) + class_definitions() + "```\n"@
}

/// The class for kind `t`, if any.
fn class_for(t: &SmellType) -> (r: Option<&'static str>)
    ensures
        match r {
            Some(c) => css_class(*t) == Some(c@) && c@.len() > 0,
            None => css_class(*t) is None,
        },
{
    proof {
        reveal_strlit("deadCode");
        reveal_strlit("godModule");
        reveal_strlit("cycle");
        reveal_strlit("deadSymbol");
        reveal_strlit("complexity");
        reveal_strlit("largeFile");
        reveal_strlit("unstableInterface");
        reveal_strlit("featureEnvy");
        reveal_strlit("shotgunSurgery");
        reveal_strlit("hubDependency");
        reveal_strlit("testLeakage");
        reveal_strlit("layerViolation");
        reveal_strlit("sdpViolation");
    }
    match t {
        SmellType::DeadCode => Some("deadCode"),
        SmellType::GodModule => Some("godModule"),
        SmellType::CyclicDependency => Some("cycle"),
        SmellType::CyclicDependencyCluster => Some("cycle"),
        SmellType::DeadSymbol { .. } => Some("deadSymbol"),
        SmellType::HighComplexity { .. } => Some("complexity"),
        SmellType::LargeFile => Some("largeFile"),
        SmellType::UnstableInterface => Some("unstableInterface"),
        SmellType::FeatureEnvy { .. } => Some("featureEnvy"),
        SmellType::ShotgunSurgery => Some("shotgunSurgery"),
        SmellType::HubDependency { .. } => Some("hubDependency"),
        SmellType::TestLeakage { .. } => Some("testLeakage"),
        SmellType::LayerViolation { .. } => Some("layerViolation"),
        SmellType::SdpViolation => Some("sdpViolation"),
        _ => None,
    }
}

impl MermaidGenerator {
    /// The class of the first of `smell_types` that has one, or empty.
    pub fn get_css_classes(smell_types: &[SmellType]) -> (r: String)
        ensures
            r@ == first_class(smell_types@),
    {
        let mut i: usize = 0;
        let mut found: Option<&'static str> = None;
        while i < smell_types.len()
            invariant
                i <= smell_types@.len(),
                match found {
                    Some(c) => first_class(smell_types@.take(i as int)) == c@ && c@.len() > 0,
                    None => first_class(smell_types@.take(i as int)).len() == 0,
                },
            decreases smell_types@.len() - i,
        {
            proof {
                assert(smell_types@.take(i + 1).drop_last() =~= smell_types@.take(i as int));
            }
            if found.is_none() {
                found = class_for(&smell_types[i]);
            }
            i = i + 1;
        }
        assert(smell_types@.take(smell_types@.len() as int) =~= smell_types@);
        match found {
            Some(c) => c.to_owned(),
            None => {
                let r = String::new();
                assert(r@ =~= first_class(smell_types@));
                r
            },
        }
    }

    /// The name shown for `path`.
    pub fn get_short_name(path: &str) -> (r: String)
        ensures
            r@ == short_name(path@),
    {
        let name = match file_name_of(path) {
            Some(n) => n,
            None => "unknown".to_owned(),
        };
        let cs = chars_of(name.as_str());
        let mut out: Vec<char> = Vec::new();
        let mut i: usize = 0;
        while i < cs.len()
            invariant
                i <= cs@.len(),
                out@ == cs@.take(i as int).map_values(|c: char| if c == '.' || c == '-' || c == ' ' { '_' } else { c }),
            decreases cs@.len() - i,
        {
            let c = cs[i];
            let d = if c == '.' || c == '-' || c == ' ' { '_' } else { c };
            out.push(d);
            proof {
                assert(cs@.take(i + 1) =~= cs@.take(i as int).push(c));
                assert(out@ =~= cs@.take(i + 1).map_values(|c: char| if c == '.' || c == '-' || c == ' ' { '_' } else { c }));
            }
            i = i + 1;
        }
        assert(cs@.take(cs@.len() as int) =~= cs@);
        string_of(out.as_slice())
    }

    /// The files that have smells, each once in the order they first appear,
    /// and for each the class of its first smell that has one.
    pub fn collect_problem_data(smells: &[(ArchSmell, Explanation)]) -> (r: (Vec<String>, Vec<String>))
        ensures
            str_views(r.0@) == distinct_files(occurrences(smells@)),
            r.1@.len() == r.0@.len(),
            forall|i: int| 0 <= i < r.0@.len() ==> #[trigger] r.1@[i]@ == first_class(kinds_of(occurrences(smells@), r.0@[i]@)),
    {
        let mut files: Vec<String> = Vec::new();
        let mut classes: Vec<String> = Vec::new();
        let mut s: usize = 0;
        while s < smells.len()
            invariant
                s <= smells@.len(),
                str_views(files@) == distinct_files(occurrences(smells@.take(s as int))),
                classes@.len() == files@.len(),
                forall|i: int| 0 <= i < files@.len() ==> #[trigger] classes@[i]@ == first_class(kinds_of(occurrences(smells@.take(s as int)), files@[i]@)),
            decreases smells@.len() - s,
        {
            let smell = &smells[s].0;
            let ghost base = occurrences(smells@.take(s as int));
            let ghost fv = str_views(smell.files@);
            proof {
                assert(smells@.take(s + 1).drop_last() =~= smells@.take(s as int));
                assert(occurrences(smells@.take(s + 1)) == base + fv.map_values(|f: Seq<char>| (f, smell.smell_type)));
            }
            let mut k: usize = 0;
            while k < smell.files.len()
                invariant
                    k <= smell.files@.len(),
                    fv == str_views(smell.files@),
                    str_views(files@) == distinct_files(base + fv.take(k as int).map_values(|f: Seq<char>| (f, smell.smell_type))),
                    classes@.len() == files@.len(),
                    forall|i: int| 0 <= i < files@.len() ==> #[trigger] classes@[i]@ == first_class(kinds_of(base + fv.take(k as int).map_values(|f: Seq<char>| (f, smell.smell_type)), files@[i]@)),
                decreases smell.files@.len() - k,
            {
                let ghost pre = base + fv.take(k as int).map_values(|f: Seq<char>| (f, smell.smell_type));
                let ghost nxt = base + fv.take(k + 1).map_values(|f: Seq<char>| (f, smell.smell_type));
                let g = &smell.files[k];
                proof {
                    assert(nxt =~= pre.push((g@, smell.smell_type)));
                    assert(nxt.drop_last() =~= pre);
                }
                let ghost fl0 = str_views(files@);
                let mut idx: usize = 0;
                while idx < files.len() && !str_eq(files[idx].as_str(), g.as_str())
                    invariant
                        idx <= files@.len(),
                        forall|j: int| 0 <= j < idx ==> files@[j]@ != g@,
                    decreases files@.len() - idx,
                {
                    idx = idx + 1;
                }
                let cls = class_for(&smell.smell_type);
                if idx == files.len() {
                    proof {
                        assert(!fl0.contains(g@)) by {
                            if fl0.contains(g@) {
                                let j = choose|j: int| 0 <= j < fl0.len() && fl0[j] == g@;
                                assert(files@[j]@ == g@);
                            }
                        }
                        lemma_kinds_absent(pre, g@, fl0);
                    }
                    let c = match cls {
                        Some(c) => c.to_owned(),
                        None => String::new(),
                    };
                    let ghost files0 = files@;
                    let ghost cl0 = classes@;
                    let ghost cv = c@;
                    proof {
                        assert(cv == first_class(seq![smell.smell_type])) by {
                            assert(seq![smell.smell_type].drop_last() =~= Seq::<SmellType>::empty());
                            assert(first_class(Seq::<SmellType>::empty()).len() == 0);
                            assert(seq![smell.smell_type].last() == smell.smell_type);
                            match cls {
                                Some(x) => assert(cv == x@),
                                None => assert(cv =~= Seq::<char>::empty()),
                            }
                        }
                    }
                    files.push(g.clone());
                    classes.push(c);
                    proof {
                        assert(str_views(files@) =~= fl0.push(g@));
                        assert forall|i: int| 0 <= i < files@.len() implies #[trigger] classes@[i]@ == first_class(kinds_of(nxt, files@[i]@)) by {
                            if i < fl0.len() {
                                assert(files@[i] == files0[i]);
                                assert(classes@[i] == cl0[i]);
                                assert(files@[i]@ != g@) by {
                                    assert(fl0[i] == files@[i]@);
                                }
                                assert(kinds_of(nxt, files@[i]@) == kinds_of(pre, files@[i]@));
                                assert(cl0[i]@ == first_class(kinds_of(pre, files0[i]@)));
                            } else {
                                assert(kinds_of(nxt, g@) =~= seq![smell.smell_type]);
                                assert(classes@[i]@ == cv);
                                assert(files@[i]@ == g@);
                            }
                        }
                    }
                } else {
                    proof {
                        assert(fl0[idx as int] == g@);
                        assert(fl0.contains(g@));
                    }
                    if classes[idx].unicode_len() == 0 {
                        let c = match cls {
                            Some(c) => c.to_owned(),
                            None => String::new(),
                        };
                        classes.set(idx, c);
                    }
                    proof {
                        assert forall|i: int| 0 <= i < files@.len() implies #[trigger] classes@[i]@ == first_class(kinds_of(nxt, files@[i]@)) by {
                            if files@[i]@ == g@ {
                                assert(i == idx) by {
                                    if i != idx {
                                        lemma_distinct_files_unique(pre);
                                        assert(fl0[i] == fl0[idx as int]);
                                    }
                                }
                                assert(kinds_of(nxt, g@) == kinds_of(pre, g@).push(smell.smell_type));
                                assert(kinds_of(nxt, g@).drop_last() =~= kinds_of(pre, g@));
                            }
                        }
                    }
                }
                k = k + 1;
            }
            proof {
                assert(fv.take(smell.files@.len() as int) =~= fv);
            }
            s = s + 1;
        }
        assert(smells@.take(smells@.len() as int) =~= smells@);
        (files, classes)
    }

    /// Appends the node lines of `files`.
    pub fn generate_nodes(output: &mut String, files: &Vec<String>, classes: &Vec<String>)
        requires
            classes@.len() == files@.len(),
        ensures
            final(output)@ == old(output)@ + node_lines(str_views(files@), str_views(classes@)),
    {
        let ghost fv = str_views(files@);
        let ghost cv = str_views(classes@);
        let mut i: usize = 0;
        assert(old(output)@ + node_lines(fv.take(0), cv) =~= old(output)@);
        while i < files.len()
            invariant
                i <= files@.len(),
                classes@.len() == files@.len(),
                fv == str_views(files@),
                cv == str_views(classes@),
                output@ == old(output)@ + node_lines(fv.take(i as int), cv),
            decreases files@.len() - i,
        {
            let ghost before = output@;
            let name = Self::get_short_name(files[i].as_str());
            append_str(output, "    file");
            push_decimal(output, i);
            push_char(output, '[');
            append_str(output, name.as_str());
            push_char(output, ']');
            if classes[i].unicode_len() > 0 {
                append_str(output, ":::");
                append_str(output, classes[i].as_str());
            }
            push_char(output, '\n');
            proof {
                assert(fv.take(i + 1).drop_last() =~= fv.take(i as int));
                assert(fv.take(i + 1).last() == files@[i as int]@);
                assert(output@ =~= before + node_line(i as nat, files@[i as int]@, cv[i as int]));
                assert(output@ =~= old(output)@ + node_lines(fv.take(i + 1), cv));
            }
            i = i + 1;
        }
        assert(fv.take(files@.len() as int) =~= fv);
    }

    /// Appends one line per pair of files with an import from the first to
    /// the second, each pair once.
    pub fn generate_edges(output: &mut String, files: &Vec<String>, graph: &DependencyGraph)
        requires
            graph.wf(),
            forall|k: int, l: int| 0 <= k < l < files@.len() ==> files@[k]@ != files@[l]@,
        ensures
            exists|pairs: Seq<(nat, nat)>|
                final(output)@ == old(output)@ + #[trigger] edge_lines(pairs) && pairs.no_duplicates()
                    && forall|i: nat, j: nat| pairs.contains((i, j)) <==> imports_between(graph@, str_views(files@), i, j),
    {
        let ghost fv = str_views(files@);
        let ghost g = graph@;
        let ghost mut pairs: Seq<(nat, nat)> = Seq::empty();
        let mut added: Vec<(usize, usize)> = Vec::new();
        let mut i: usize = 0;
        assert(old(output)@ + edge_lines(pairs) =~= old(output)@);
        assert forall|k: int, l: int| 0 <= k < l < fv.len() implies fv[k] != fv[l] by {
            assert(files@[k]@ != files@[l]@);
        }
        assert(pairs_done(pairs, g, fv, 0));
        while i < files.len()
            invariant
                i <= files@.len(),
                graph.wf(),
                g == graph@,
                fv == str_views(files@),
                forall|k: int, l: int| 0 <= k < l < fv.len() ==> fv[k] != fv[l],
                output@ == old(output)@ + edge_lines(pairs),
                pairs.no_duplicates(),
                pairs == added@.map_values(|p: (usize, usize)| (p.0 as nat, p.1 as nat)),
                pairs_done(pairs, g, fv, i as nat),
            decreases files@.len() - i,
        {
            match graph.get_node(files[i].as_str()) {
                None => {
                    proof {
                        assert forall|b: nat| !imports_between(g, fv, i as nat, b) by {
                            if imports_between(g, fv, i as nat, b) {
                                let e = choose|e: int| 0 <= e < g.edges.len() && g.nodes[(#[trigger] g.edges[e]).0 as int] == fv[i as int] && g.nodes[g.edges[e].1 as int] == fv[b as int];
                                assert(g.nodes.contains(fv[i as int]));
                            }
                        }
                        lemma_done_without_imports(pairs, g, fv, i as nat);
                    }
                },
                Some(node) => {
                    let targets = graph.dependencies(node);
                    let ghost tv = targets@;
                    proof {
                        lemma_out_targets_are_edges(g, node, tv);
                        lemma_start_targets(pairs, g, fv, i as nat, tv);
                    }
                    let mut t: usize = 0;
                    while t < targets.len()
                        invariant
                            t <= targets@.len(),
                            graph.wf(),
                            g == graph@,
                            fv == str_views(files@),
                            forall|k: int, l: int| 0 <= k < l < fv.len() ==> fv[k] != fv[l],
                            i < files@.len(),
                            tv == targets@,
                            output@ == old(output)@ + edge_lines(pairs),
                            pairs.no_duplicates(),
                            pairs == added@.map_values(|p: (usize, usize)| (p.0 as nat, p.1 as nat)),
                            pairs_so_far(pairs, g, fv, i as nat, tv, t as int),
                        decreases targets@.len() - t,
                    {
                        let target = targets[t];
                        let ghost prev_pairs = pairs;
                        match graph.get_file_path(target) {
                            None => {
                                proof {
                                    assert forall|b: nat| !#[trigger] imports_target(g, fv, target, b) by {}
                                    lemma_step_none(pairs, g, fv, i as nat, tv, t as int);
                                }
                            },
                            Some(path) => {
                                let mut j: usize = 0;
                                while j < files.len() && !str_eq(files[j].as_str(), path.as_str())
                                    invariant
                                        j <= files@.len(),
                                        forall|k: int| 0 <= k < j ==> files@[k]@ != path@,
                                    decreases files@.len() - j,
                                {
                                    j = j + 1;
                                }
                                if j == files.len() {
                                    proof {
                                        assert forall|b: nat| !#[trigger] imports_target(g, fv, target, b) by {
                                            if b < fv.len() && target < g.nodes.len() && g.nodes[target as int] == fv[b as int] {
                                                assert(files@[b as int]@ == path@);
                                            }
                                        }
                                        lemma_step_none(pairs, g, fv, i as nat, tv, t as int);
                                    }
                                } else {
                                    let mut seen = false;
                                    let mut q: usize = 0;
                                    while q < added.len()
                                        invariant
                                            q <= added@.len(),
                                            seen == exists|k: int| 0 <= k < q && added@[k] == (i, j),
                                        decreases added@.len() - q,
                                    {
                                        if added[q].0 == i && added[q].1 == j {
                                            seen = true;
                                        }
                                        q = q + 1;
                                    }
                                    proof {
                                        assert(fv[j as int] == path@);
                                        assert(imports_target(g, fv, target, j as nat));
                                        assert forall|b: nat| #[trigger] imports_target(g, fv, target, b) implies b == j by {
                                            lemma_distinct_names(g, fv, target, b, j as nat);
                                        }
                                        if seen {
                                            let k = choose|k: int| 0 <= k < added@.len() && added@[k] == (i, j);
                                            assert(pairs[k] == (i as nat, j as nat));
                                        }
                                        if pairs.contains((i as nat, j as nat)) {
                                            let k = choose|k: int| 0 <= k < pairs.len() && pairs[k] == (i as nat, j as nat);
                                            assert(added@[k].0 as nat == i && added@[k].1 as nat == j);
                                        }
                                    }
                                    if !seen {
                                        added.push((i, j));
                                        append_str(output, "    file");
                                        push_decimal(output, i);
                                        append_str(output, " --> file");
                                        push_decimal(output, j);
                                        push_char(output, '\n');
                                        proof {
                                            pairs = pairs.push((i as nat, j as nat));
                                            assert(pairs.drop_last() =~= prev_pairs);
                                            assert(output@ =~= old(output)@ + edge_lines(pairs));
                                            assert(pairs =~= added@.map_values(|p: (usize, usize)| (p.0 as nat, p.1 as nat)));
                                            assert forall|x: int, y: int| 0 <= x < y < pairs.len() implies pairs[x] != pairs[y] by {
                                                if y == pairs.len() - 1 {
                                                    assert(prev_pairs.contains(prev_pairs[x]));
                                                }
                                            }
                                            lemma_step_add(prev_pairs, g, fv, i as nat, tv, t as int, j as nat);
                                        }
                                    } else {
                                        proof {
                                            lemma_step_seen(pairs, g, fv, i as nat, tv, t as int, j as nat);
                                        }
                                    }
                                }
                            },
                        }
                        t = t + 1;
                    }
                    proof {
                        assert forall|b: nat| imports_between(g, fv, i as nat, b) <==> edge_targets(g, fv, tv, tv.len() as int, b) by {
                            if imports_between(g, fv, i as nat, b) {
                                let e = choose|e: int| 0 <= e < g.edges.len() && g.nodes[(#[trigger] g.edges[e]).0 as int] == fv[i as int] && g.nodes[g.edges[e].1 as int] == fv[b as int];
                                assert(g.edges[e].0 == node) by {
                                    assert(g.nodes[g.edges[e].0 as int] == g.nodes[node as int]);
                                }
                                assert(has_out_edge(g, node, g.edges[e].1));
                                assert(tv.contains(g.edges[e].1));
                                let k = choose|k: int| 0 <= k < tv.len() && tv[k] == g.edges[e].1;
                                assert(imports_target(g, fv, tv[k], b));
                            }
                            if edge_targets(g, fv, tv, tv.len() as int, b) {
                                let k = choose|k: int| 0 <= k < tv.len() && #[trigger] imports_target(g, fv, tv[k], b);
                                assert(tv.contains(tv[k]));
                                assert(has_out_edge(g, node, tv[k]));
                                let e = choose|e: int| 0 <= e < g.edges.len() && (#[trigger] g.edges[e]).0 == node && g.edges[e].1 == tv[k];
                                assert(imports_between(g, fv, i as nat, b));
                            }
                        }
                        lemma_end_targets(pairs, g, fv, i as nat, tv);
                    }
                },
            }
            i = i + 1;
        }
    }

    /// Appends the style class definitions.
    pub fn append_class_definitions(output: &mut String)
        ensures
            final(output)@ == old(output)@ + class_definitions(),
    {
        append_str(output, "\n    classDef deadCode fill:#e0e0e0,stroke:#999,stroke-dasharray:5\n");
        append_str(output, "    classDef deadSymbol fill:#f0f0f0,stroke:#bbb,stroke-dasharray:3\n");
        append_str(output, "    classDef godModule fill:#ffcccc,stroke:#cc0000\n");
        append_str(output, "    classDef cycle fill:#ffffcc,stroke:#cccc00\n");
        append_str(output, "    classDef complexity fill:#f9f,stroke:#333\n");
        append_str(output, "    classDef unstableInterface fill:#ff9966,stroke:#993300\n");
        append_str(output, "    classDef featureEnvy fill:#99ccff,stroke:#003366\n");
        append_str(output, "    classDef shotgunSurgery fill:#ff6666,stroke:#660000\n");
        append_str(output, "    classDef hubDependency fill:#cc99ff,stroke:#330066\n");
        append_str(output, "    classDef testLeakage fill:#ff6666,stroke:#cc0000,stroke-width:2px\n");
        append_str(output, "    classDef layerViolation fill:#ff3333,stroke:#990000,stroke-width:3px\n");
        append_str(output, "    classDef sdpViolation fill:#ffcc99,stroke:#ff6600\n");
        assert(output@ =~= old(output)@ + class_definitions());
    }

    /// The chart of the files with smells in `smells` and the imports between
    /// them; empty where no smell names a file.
    pub fn generate(smells: &[(ArchSmell, Explanation)], graph: &DependencyGraph) -> (r: String)
        requires
            graph.wf(),
        ensures
            distinct_files(occurrences(smells@)).len() == 0 ==> r@.len() == 0,
            distinct_files(occurrences(smells@)).len() > 0 ==> exists|classes: Seq<Seq<char>>, pairs: Seq<(nat, nat)>|
                r@ == #[trigger] mermaid_chart(distinct_files(occurrences(smells@)), classes, pairs)
                    && classes.len() == distinct_files(occurrences(smells@)).len()
                    && (forall|i: int| 0 <= i < classes.len() ==> #[trigger] classes[i] == first_class(kinds_of(occurrences(smells@), distinct_files(occurrences(smells@))[i])))
                    && pairs.no_duplicates()
                    && (forall|i: nat, j: nat| pairs.contains((i, j)) <==> imports_between(graph@, distinct_files(occurrences(smells@)), i, j)),
    {
        let (files, classes) = Self::collect_problem_data(smells);
        if files.len() == 0 {
            let r = String::new();
            return r;
        }
        proof {
            lemma_distinct_files_unique(occurrences(smells@));
            assert forall|k: int, l: int| 0 <= k < l < files@.len() implies files@[k]@ != files@[l]@ by {
                assert(str_views(files@)[k] == files@[k]@);
                assert(str_views(files@)[l] == files@[l]@);
            }
        }
        let mut output = "```mermaid\nflowchart LR\n".to_owned();
        Self::generate_nodes(&mut output, &files, &classes);
        push_char(&mut output, '\n');
        let ghost mid = output@;
        Self::generate_edges(&mut output, &files, graph);
        let ghost after_edges = output@;
        Self::append_class_definitions(&mut output);
        append_str(&mut output, "```\n");
        proof {
            let pairs = choose|pairs: Seq<(nat, nat)>|
                after_edges == mid + #[trigger] edge_lines(pairs) && pairs.no_duplicates()
                    && forall|i: nat, j: nat| pairs.contains((i, j)) <==> imports_between(graph@, str_views(files@), i, j);
            let cv = str_views(classes@);
            assert forall|i: int| 0 <= i < str_views(files@).len() implies #[trigger] cv[i] == first_class(kinds_of(occurrences(smells@), str_views(files@)[i])) by {
                assert(classes@[i]@ == first_class(kinds_of(occurrences(smells@), files@[i]@)));
            }
            assert(output@ =~= mermaid_chart(str_views(files@), cv, pairs));
        }
        output
    }
}

/// Whether node `x` of the graph is the file `files[b]`.
pub open spec fn imports_target(g: GraphView, files: Seq<Seq<char>>, x: usize, b: nat) -> bool {
    b < files.len() && x < g.nodes.len() && g.nodes[x as int] == files[b as int]
}

proof fn lemma_distinct_names(g: GraphView, files: Seq<Seq<char>>, x: usize, b: nat, j: nat)
    requires
        imports_target(g, files, x, b),
        imports_target(g, files, x, j),
        forall|k: int, l: int| 0 <= k < l < files.len() ==> files[k] != files[l],
    ensures
        b == j,
{
    if b < j {
        assert(files[b as int] != files[j as int]);
    } else if j < b {
        assert(files[j as int] != files[b as int]);
    }
}

/// Whether the graph has an edge from `node` to `x`.
pub open spec fn has_out_edge(g: GraphView, node: usize, x: usize) -> bool {
    exists|e: int| 0 <= e < g.edges.len() && (#[trigger] g.edges[e]).0 == node && g.edges[e].1 == x
}

/// Whether one of the first `t` targets is the file `files[b]`.
pub open spec fn edge_targets(g: GraphView, fv: Seq<Seq<char>>, tv: Seq<usize>, t: int, b: nat) -> bool {
    exists|k: int| 0 <= k < t && #[trigger] imports_target(g, fv, tv[k], b)
}

/// The pairs found once the files before `i` are done.
pub open spec fn pairs_done(pairs: Seq<(nat, nat)>, g: GraphView, fv: Seq<Seq<char>>, i: nat) -> bool {
    forall|a: nat, b: nat| #[trigger] pairs.contains((a, b)) <==> (a < i && imports_between(g, fv, a, b))
}

/// The pairs found once the files before `i`, and the first `t` targets of file `i`, are done.
pub open spec fn pairs_so_far(pairs: Seq<(nat, nat)>, g: GraphView, fv: Seq<Seq<char>>, i: nat, tv: Seq<usize>, t: int) -> bool {
    forall|a: nat, b: nat| #[trigger] pairs.contains((a, b)) <==> ((a < i && imports_between(g, fv, a, b)) || (a == i && edge_targets(g, fv, tv, t, b)))
}

proof fn lemma_out_targets_are_edges(g: GraphView, node: usize, tv: Seq<usize>)
    requires
        tv.to_multiset() == out_targets(g.edges, node).to_multiset(),
    ensures
        forall|x: usize| #[trigger] tv.contains(x) <==> has_out_edge(g, node, x),
{
    broadcast use vstd::seq_lib::group_to_multiset_ensures;
    let f = g.edges.filter(crate::graph::leaves(node));
    let ot = out_targets(g.edges, node);
    g.edges.filter_lemma(crate::graph::leaves(node));
    assert forall|x: usize| #[trigger] tv.contains(x) <==> has_out_edge(g, node, x) by {
        assert(tv.contains(x) == (tv.to_multiset().count(x) > 0));
        assert(ot.contains(x) == (ot.to_multiset().count(x) > 0));
        if ot.contains(x) {
            let k = choose|k: int| 0 <= k < ot.len() && ot[k] == x;
            assert(ot[k] == f[k].1);
            crate::graph::lemma_filter_count(g.edges, crate::graph::leaves(node), f[k]);
            assert(f.contains(f[k]));
            assert(f.to_multiset().count(f[k]) > 0);
            assert(g.edges.to_multiset().count(f[k]) > 0);
            assert(g.edges.contains(f[k]));
            let e = choose|e: int| 0 <= e < g.edges.len() && g.edges[e] == f[k];
            assert(crate::graph::leaves(node)(f[k]));
            assert(g.edges[e].0 == node && g.edges[e].1 == x);
        }
        if has_out_edge(g, node, x) {
            let e = choose|e: int| 0 <= e < g.edges.len() && (#[trigger] g.edges[e]).0 == node && g.edges[e].1 == x;
            assert(crate::graph::leaves(node)(g.edges[e]));
            assert(f.contains(g.edges[e]));
            let k = choose|k: int| 0 <= k < f.len() && f[k] == g.edges[e];
            assert(ot[k] == x);
        }
    }
}

proof fn lemma_done_without_imports(pairs: Seq<(nat, nat)>, g: GraphView, fv: Seq<Seq<char>>, i: nat)
    requires
        pairs_done(pairs, g, fv, i),
        forall|b: nat| !imports_between(g, fv, i, b),
    ensures
        pairs_done(pairs, g, fv, i + 1),
{
    assert forall|a: nat, b: nat| #[trigger] pairs.contains((a, b)) <==> (a < i + 1 && imports_between(g, fv, a, b)) by {
        if a == i {
            assert(!imports_between(g, fv, i, b));
        }
    }
}

proof fn lemma_start_targets(pairs: Seq<(nat, nat)>, g: GraphView, fv: Seq<Seq<char>>, i: nat, tv: Seq<usize>)
    requires
        pairs_done(pairs, g, fv, i),
    ensures
        pairs_so_far(pairs, g, fv, i, tv, 0),
{
    assert forall|a: nat, b: nat| #[trigger] pairs.contains((a, b)) <==> ((a < i && imports_between(g, fv, a, b)) || (a == i && edge_targets(g, fv, tv, 0, b))) by {
        assert(!edge_targets(g, fv, tv, 0, b));
    }
}

proof fn lemma_end_targets(pairs: Seq<(nat, nat)>, g: GraphView, fv: Seq<Seq<char>>, i: nat, tv: Seq<usize>)
    requires
        pairs_so_far(pairs, g, fv, i, tv, tv.len() as int),
        forall|b: nat| imports_between(g, fv, i, b) <==> edge_targets(g, fv, tv, tv.len() as int, b),
    ensures
        pairs_done(pairs, g, fv, i + 1),
{
    assert forall|a: nat, b: nat| #[trigger] pairs.contains((a, b)) <==> (a < i + 1 && imports_between(g, fv, a, b)) by {
        if a == i {
            assert(imports_between(g, fv, i, b) <==> edge_targets(g, fv, tv, tv.len() as int, b));
        }
    }
}

proof fn lemma_step_none(pairs: Seq<(nat, nat)>, g: GraphView, fv: Seq<Seq<char>>, i: nat, tv: Seq<usize>, t: int)
    requires
        0 <= t < tv.len(),
        forall|b: nat| !#[trigger] imports_target(g, fv, tv[t], b),
        pairs_so_far(pairs, g, fv, i, tv, t),
    ensures
        pairs_so_far(pairs, g, fv, i, tv, t + 1),
{
    assert forall|a: nat, b: nat| #[trigger] pairs.contains((a, b)) <==> ((a < i && imports_between(g, fv, a, b)) || (a == i && edge_targets(g, fv, tv, t + 1, b))) by {
        if edge_targets(g, fv, tv, t + 1, b) {
            let k = choose|k: int| 0 <= k < t + 1 && #[trigger] imports_target(g, fv, tv[k], b);
            assert(k != t);
            assert(edge_targets(g, fv, tv, t, b));
        }
        if edge_targets(g, fv, tv, t, b) {
            let k = choose|k: int| 0 <= k < t && #[trigger] imports_target(g, fv, tv[k], b);
            assert(edge_targets(g, fv, tv, t + 1, b));
        }
    }
}

proof fn lemma_step_add(prev: Seq<(nat, nat)>, g: GraphView, fv: Seq<Seq<char>>, i: nat, tv: Seq<usize>, t: int, j: nat)
    requires
        0 <= t < tv.len(),
        imports_target(g, fv, tv[t], j),
        forall|b: nat| #[trigger] imports_target(g, fv, tv[t], b) ==> b == j,
        pairs_so_far(prev, g, fv, i, tv, t),
    ensures
        pairs_so_far(prev.push((i, j)), g, fv, i, tv, t + 1),
{
    let next = prev.push((i, j));
    assert forall|a: nat, b: nat| #[trigger] next.contains((a, b)) <==> ((a < i && imports_between(g, fv, a, b)) || (a == i && edge_targets(g, fv, tv, t + 1, b))) by {
        crate::text::lemma_push_contains(prev, (i, j), (a, b));
        if a == i && b == j {
            assert(edge_targets(g, fv, tv, t + 1, b));
        }
        if edge_targets(g, fv, tv, t + 1, b) {
            let k = choose|k: int| 0 <= k < t + 1 && #[trigger] imports_target(g, fv, tv[k], b);
            if k == t {
                assert(b == j);
            } else {
                assert(edge_targets(g, fv, tv, t, b));
            }
        }
        if edge_targets(g, fv, tv, t, b) {
            let k = choose|k: int| 0 <= k < t && #[trigger] imports_target(g, fv, tv[k], b);
            assert(edge_targets(g, fv, tv, t + 1, b));
        }
        if prev.contains((a, b)) {
            assert(prev.contains((a, b)));
        }
    }
}

proof fn lemma_step_seen(pairs: Seq<(nat, nat)>, g: GraphView, fv: Seq<Seq<char>>, i: nat, tv: Seq<usize>, t: int, j: nat)
    requires
        0 <= t < tv.len(),
        pairs.contains((i, j)),
        forall|b: nat| #[trigger] imports_target(g, fv, tv[t], b) ==> b == j,
        pairs_so_far(pairs, g, fv, i, tv, t),
    ensures
        pairs_so_far(pairs, g, fv, i, tv, t + 1),
{
    assert forall|a: nat, b: nat| #[trigger] pairs.contains((a, b)) <==> ((a < i && imports_between(g, fv, a, b)) || (a == i && edge_targets(g, fv, tv, t + 1, b))) by {
        if edge_targets(g, fv, tv, t + 1, b) {
            let k = choose|k: int| 0 <= k < t + 1 && #[trigger] imports_target(g, fv, tv[k], b);
            if k == t {
                assert(b == j);
            } else {
                assert(edge_targets(g, fv, tv, t, b));
            }
        }
        if edge_targets(g, fv, tv, t, b) {
            let k = choose|k: int| 0 <= k < t && #[trigger] imports_target(g, fv, tv[k], b);
            assert(edge_targets(g, fv, tv, t + 1, b));
        }
    }
}

/// A file not among `files` has no smells in `occ`... where `files` are the
/// distinct files of `occ`.
proof fn lemma_kinds_absent(occ: Seq<(Seq<char>, SmellType)>, f: Seq<char>, files: Seq<Seq<char>>)
    requires
        files == distinct_files(occ),
        !files.contains(f),
    ensures
        kinds_of(occ, f) == Seq::<SmellType>::empty(),
    decreases occ.len(),
{
    if occ.len() > 0 {
        let prev = distinct_files(occ.drop_last());
        assert(!prev.contains(f)) by {
            if prev.contains(f) {
                let j = choose|j: int| 0 <= j < prev.len() && prev[j] == f;
                if !prev.contains(occ.last().0) {
                    assert(prev.push(occ.last().0)[j] == f);
                }
            }
        }
        lemma_kinds_absent(occ.drop_last(), f, prev);
        if occ.last().0 == f {
            assert(files.contains(f)) by {
                if !prev.contains(f) {
                    assert(prev.push(f)[prev.len() as int] == f);
                }
            }
        }
    }
}

/// The distinct files are distinct.
proof fn lemma_distinct_files_unique(occ: Seq<(Seq<char>, SmellType)>)
    ensures
        forall|k: int, l: int| 0 <= k < l < distinct_files(occ).len() ==> distinct_files(occ)[k] != distinct_files(occ)[l],
    decreases occ.len(),
{
    if occ.len() > 0 {
        lemma_distinct_files_unique(occ.drop_last());
        let prev = distinct_files(occ.drop_last());
        if !prev.contains(occ.last().0) {
            let d = prev.push(occ.last().0);
            assert forall|k: int, l: int| 0 <= k < l < d.len() implies d[k] != d[l] by {
                if l == prev.len() {
                    assert(d[k] == prev[k]);
                }
            }
        }
    }
}

} // verus!
