//! The cyclic dependencies section: each cluster of files in cycles with its
//! hotspots, critical imports, files and imports; or, where no cluster was
//! found, each cycle on its own.

use vstd::prelude::*;
use crate::detectors::{ArchSmell, CriticalEdge, CycleCluster, Explanation, HotspotInfo, LocationDetail};
use crate::report::facts::{show, shown, SmellFacts};
use crate::report::location::{format_location, format_location_detail, location_text, simple_location_text};
use crate::report::markdown::common::{append_explanation, explanation_markdown};
use crate::report::markdown::god_modules::path_items;
use crate::text::{append_str, decimal, join, join_strings, push_char, push_decimal, str_views};

verus! {

/// The row of a hotspot: its file, the files it imports and that import it.
pub open spec fn hotspot_row(h: HotspotInfo, f: SmellFacts) -> Seq<char> {
    "| `"@ + shown(f, h.file@) + "` | "@ + decimal(h.out_degree as nat) + " | "@ + decimal(h.in_degree as nat) + " |\n"@
}

/// The rows of `hs`, in order.
pub open spec fn hotspot_rows(hs: Seq<HotspotInfo>, f: SmellFacts) -> Seq<char>
    decreases hs.len(),
{
    if hs.len() == 0 {
        Seq::empty()
    } else {
        hotspot_rows(hs.drop_last(), f) + hotspot_row(hs.last(), f)
    }
}

/// The hotspots of a cluster: a table of the first ten; nothing where there
/// is none.
pub open spec fn hotspots_block(hs: Seq<HotspotInfo>, f: SmellFacts) -> Seq<char> {
    if hs.len() == 0 {
        Seq::empty()
    } else {
        "**Hotspots (most connections):**\n\n"@ + "| File | Imports | Imported by |\n"@ + "|------|---------|-------------|\n"@
            + hotspot_rows(if hs.len() > 10 { hs.take(10) } else { hs }, f) + seq!['\n']
    }
}

/// The column where an import starts, where its range is known.
pub open spec fn start_column(r: Option<crate::graph::CodeRange>) -> Option<usize> {
    match r {
        Some(c) => Some(c.start_column),
        None => None,
    }
}

/// The row of a critical import: where it is, the file it imports, its impact.
pub open spec fn edge_row(e: CriticalEdge, f: SmellFacts) -> Seq<char> {
    "| `"@ + simple_location_text(shown(f, e.from@), e.line as nat, start_column(e.range)) + "` | `"@ + shown(f, e.to@)
        + "` | "@ + e.impact@ + " |\n"@
}

/// The rows of `es`, in order.
pub open spec fn edge_rows(es: Seq<CriticalEdge>, f: SmellFacts) -> Seq<char>
    decreases es.len(),
{
    if es.len() == 0 {
        Seq::empty()
    } else {
        edge_rows(es.drop_last(), f) + edge_row(es.last(), f)
    }
}

/// The critical imports of a cluster: a table; nothing where there is none.
pub open spec fn edges_block(es: Seq<CriticalEdge>, f: SmellFacts) -> Seq<char> {
    if es.len() == 0 {
        Seq::empty()
    } else {
        "**Critical edges to break:**\n\n"@ + "| From (location) | To | Impact |\n"@ + "|-----------------|-----|--------|\n"@
            + edge_rows(es, f) + seq!['\n']
    }
}

/// The paths of `files` as the report writes them.
pub open spec fn shown_all(files: Seq<Seq<char>>, f: SmellFacts) -> Seq<Seq<char>> {
    files.map_values(|p: Seq<char>| shown(f, p))
}

/// The files of a cluster, in a folded block.
pub open spec fn files_block(files: Seq<Seq<char>>, f: SmellFacts) -> Seq<char> {
    "<details>\n"@ + "<summary>All "@ + decimal(files.len()) + " files in cluster</summary>\n\n"@ + path_items(
        shown_all(files, f),
    ) + "\n</details>\n\n"@
}

/// The row of an import: its place and its description.
pub open spec fn place_row(l: LocationDetail, f: SmellFacts) -> Seq<char> {
    "| `"@ + location_text(shown(f, l.file@), l.line as nat, l.column, l.range, l.description@) + "` | "@
        + l.description@ + " |\n"@
}

/// The rows of `ls`, in order.
pub open spec fn place_rows(ls: Seq<LocationDetail>, f: SmellFacts) -> Seq<char>
    decreases ls.len(),
{
    if ls.len() == 0 {
        Seq::empty()
    } else {
        place_rows(ls.drop_last(), f) + place_row(ls.last(), f)
    }
}

/// The imports inside a cluster, in a folded table; nothing where there is
/// none.
pub open spec fn imports_block(ls: Seq<LocationDetail>, f: SmellFacts) -> Seq<char> {
    if ls.len() == 0 {
        Seq::empty()
    } else {
        "<details>\n"@ + "<summary>All edges ("@ + decimal(ls.len()) + " imports)</summary>\n\n"@
            + "| Location | Import |\n"@ + "|----------|--------|\n"@ + place_rows(ls, f) + "\n</details>\n\n"@
    }
}

/// The part of the `k`-th cluster: a heading with its size and points, its
/// hotspots, critical imports, files and imports.
pub open spec fn cluster_block(k: nat, c: CycleCluster, f: SmellFacts) -> Seq<char> {
    "### Cluster "@ + decimal(k) + ": "@ + decimal(c.files@.len()) + " files ("@ + decimal(f.score as nat) + " pts)\n\n"@
        + hotspots_block(c.hotspots@, f) + edges_block(c.critical_edges@, f) + files_block(str_views(c.files@), f)
        + imports_block(c.internal_edges@, f)
}

/// The parts of the clusters of `smells`, numbered from 1 by their place; a
/// smell without a cluster has none.
pub open spec fn cluster_blocks(smells: Seq<(ArchSmell, Explanation)>, facts: Seq<SmellFacts>) -> Seq<char>
    decreases smells.len(),
{
    if smells.len() == 0 {
        Seq::empty()
    } else {
        cluster_blocks(smells.drop_last(), facts) + match smells.last().0.cluster {
            Some(c) => cluster_block(smells.len(), c, facts[smells.len() - 1]),
            None => Seq::empty(),
        }
    }
}

/// The part of the `k`-th cycle: a heading, the table of its imports where
/// it has places, else the path of its files, then its explanation.
pub open spec fn cycle_block(k: nat, s: ArchSmell, e: Explanation, f: SmellFacts) -> Seq<char> {
    "### Cycle "@ + decimal(k) + "\n\n"@ + (if s.locations@.len() > 0 {
        "**Cycle Details:**\n\n"@ + "| Location | Import |\n"@ + "|----------|--------|\n"@ + place_rows(s.locations@, f)
            + seq!['\n']
    } else {
        "**Path:** "@ + join(shown_all(str_views(s.files@), f).map_values(|p: Seq<char>| "`"@ + p + "`"@), " \u{2192} "@)
            + "\n\n"@
    }) + explanation_markdown(e)
}

/// The parts of the cycles of `smells`, numbered from 1.
pub open spec fn cycle_blocks(smells: Seq<(ArchSmell, Explanation)>, facts: Seq<SmellFacts>) -> Seq<char>
    decreases smells.len(),
{
    if smells.len() == 0 {
        Seq::empty()
    } else {
        cycle_blocks(smells.drop_last(), facts) + cycle_block(
            smells.len(),
            smells.last().0,
            smells.last().1,
            facts[smells.len() - 1],
        )
    }
}

/// The number of files in the clusters of `smells`, together.
pub open spec fn files_in_clusters(smells: Seq<(ArchSmell, Explanation)>) -> nat
    decreases smells.len(),
{
    if smells.len() == 0 {
        0
    } else {
        files_in_clusters(smells.drop_last()) + smells.last().0.files@.len()
    }
}

/// The cyclic dependencies section of `cycles`, of which `clusters` are the
/// cycle clusters: empty where there is no cycle; else, where there are
/// clusters, a heading with their number and files, the explanation of the
/// first, and each cluster; else each cycle.
pub open spec fn cycles_section(
    cycles: Seq<(ArchSmell, Explanation)>,
    clusters: Seq<(ArchSmell, Explanation)>,
    cycle_facts: Seq<SmellFacts>,
    cluster_facts: Seq<SmellFacts>,
) -> Seq<char> {
    if cycles.len() == 0 {
        Seq::empty()
    } else if clusters.len() > 0 {
        "## Cyclic Dependencies ("@ + decimal(clusters.len()) + " clusters, "@ + decimal(files_in_clusters(clusters))
            + " files)\n\n"@ + explanation_markdown(clusters[0].1) + "---\n\n"@ + cluster_blocks(clusters, cluster_facts)
    } else {
        "## Cyclic Dependencies\n\n"@ + cycle_blocks(cycles, cycle_facts)
    }
}

fn push_hotspots(out: &mut String, hs: &Vec<HotspotInfo>, f: &SmellFacts)
    ensures
        final(out)@ == old(out)@ + hotspots_block(hs@, *f),
{
    if hs.len() == 0 {
        assert(out@ =~= old(out)@ + hotspots_block(hs@, *f));
        return;
    }
    append_str(out, "**Hotspots (most connections):**\n\n");
    append_str(out, "| File | Imports | Imported by |\n");
    append_str(out, "|------|---------|-------------|\n");
    let ghost head = out@;
    let ghost shown_hs = if hs@.len() > 10 { hs@.take(10) } else { hs@ };
    let n: usize = if hs.len() > 10 { 10 } else { hs.len() };
    let mut k: usize = 0;
    while k < n
        invariant
            k <= n,
            n == shown_hs.len(),
            n <= hs@.len(),
            shown_hs == if hs@.len() > 10 { hs@.take(10) } else { hs@ },
            out@ == head + hotspot_rows(shown_hs.take(k as int), *f),
        decreases n - k,
    {
        let h = &hs[k];
        let p = show(f, h.file.as_str());
        append_str(out, "| `");
        append_str(out, p.as_str());
        append_str(out, "` | ");
        push_decimal(out, h.out_degree);
        append_str(out, " | ");
        push_decimal(out, h.in_degree);
        append_str(out, " |\n");
        proof {
            assert(shown_hs[k as int] == hs@[k as int]);
            assert(shown_hs.take(k + 1).drop_last() =~= shown_hs.take(k as int));
            assert(out@ =~= head + hotspot_rows(shown_hs.take(k + 1), *f));
        }
        k = k + 1;
    }
    assert(shown_hs.take(n as int) =~= shown_hs);
    push_char(out, '\n');
    assert(out@ =~= old(out)@ + hotspots_block(hs@, *f));
}

fn push_edges(out: &mut String, es: &Vec<CriticalEdge>, f: &SmellFacts)
    ensures
        final(out)@ == old(out)@ + edges_block(es@, *f),
{
    if es.len() == 0 {
        assert(out@ =~= old(out)@ + edges_block(es@, *f));
        return;
    }
    append_str(out, "**Critical edges to break:**\n\n");
    append_str(out, "| From (location) | To | Impact |\n");
    append_str(out, "|-----------------|-----|--------|\n");
    let ghost head = out@;
    let mut k: usize = 0;
    while k < es.len()
        invariant
            k <= es@.len(),
            out@ == head + edge_rows(es@.take(k as int), *f),
        decreases es@.len() - k,
    {
        let e = &es[k];
        let col = match e.range {
            Some(c) => Some(c.start_column),
            None => None,
        };
        let from = show(f, e.from.as_str());
        let from_loc = format_location(from.as_str(), e.line, col);
        let to = show(f, e.to.as_str());
        append_str(out, "| `");
        append_str(out, from_loc.as_str());
        append_str(out, "` | `");
        append_str(out, to.as_str());
        append_str(out, "` | ");
        append_str(out, e.impact.as_str());
        append_str(out, " |\n");
        proof {
            assert(es@.take(k + 1).drop_last() =~= es@.take(k as int));
            assert(out@ =~= head + edge_rows(es@.take(k + 1), *f));
        }
        k = k + 1;
    }
    assert(es@.take(es@.len() as int) =~= es@);
    push_char(out, '\n');
    assert(out@ =~= old(out)@ + edges_block(es@, *f));
}

fn push_place_rows(out: &mut String, ls: &Vec<LocationDetail>, f: &SmellFacts)
    ensures
        final(out)@ == old(out)@ + place_rows(ls@, *f),
{
    let ghost head = out@;
    let mut k: usize = 0;
    assert(head + place_rows(ls@.take(0), *f) =~= head);
    while k < ls.len()
        invariant
            k <= ls@.len(),
            out@ == head + place_rows(ls@.take(k as int), *f),
        decreases ls@.len() - k,
    {
        let l = &ls[k];
        let p = show(f, l.file.as_str());
        let loc = format_location_detail(l, p.as_str());
        append_str(out, "| `");
        append_str(out, loc.as_str());
        append_str(out, "` | ");
        append_str(out, l.description.as_str());
        append_str(out, " |\n");
        proof {
            assert(ls@.take(k + 1).drop_last() =~= ls@.take(k as int));
            assert(out@ =~= head + place_rows(ls@.take(k + 1), *f));
        }
        k = k + 1;
    }
    assert(ls@.take(ls@.len() as int) =~= ls@);
}

fn push_files_block(out: &mut String, files: &Vec<String>, f: &SmellFacts)
    ensures
        final(out)@ == old(out)@ + files_block(str_views(files@), *f),
{
    let ghost fv = str_views(files@);
    append_str(out, "<details>\n");
    append_str(out, "<summary>All ");
    push_decimal(out, files.len());
    append_str(out, " files in cluster</summary>\n\n");
    let ghost head = out@;
    let mut k: usize = 0;
    assert(head + path_items(shown_all(fv.take(0), *f)) =~= head);
    while k < files.len()
        invariant
            k <= files@.len(),
            fv == str_views(files@),
            out@ == head + path_items(shown_all(fv.take(k as int), *f)),
        decreases files@.len() - k,
    {
        let p = show(f, files[k].as_str());
        append_str(out, "- `");
        append_str(out, p.as_str());
        append_str(out, "`\n");
        proof {
            assert(shown_all(fv.take(k + 1), *f).drop_last() =~= shown_all(fv.take(k as int), *f));
            assert(shown_all(fv.take(k + 1), *f).last() == p@);
            assert(out@ =~= head + path_items(shown_all(fv.take(k + 1), *f)));
        }
        k = k + 1;
    }
    assert(fv.take(files@.len() as int) =~= fv);
    append_str(out, "\n</details>\n\n");
    assert(out@ =~= old(out)@ + files_block(fv, *f));
}

fn push_imports_block(out: &mut String, ls: &Vec<LocationDetail>, f: &SmellFacts)
    ensures
        final(out)@ == old(out)@ + imports_block(ls@, *f),
{
    if ls.len() == 0 {
        assert(out@ =~= old(out)@ + imports_block(ls@, *f));
        return;
    }
    append_str(out, "<details>\n");
    append_str(out, "<summary>All edges (");
    push_decimal(out, ls.len());
    append_str(out, " imports)</summary>\n\n");
    append_str(out, "| Location | Import |\n");
    append_str(out, "|----------|--------|\n");
    push_place_rows(out, ls, f);
    append_str(out, "\n</details>\n\n");
    assert(out@ =~= old(out)@ + imports_block(ls@, *f));
}

fn push_cluster(out: &mut String, k: usize, c: &CycleCluster, f: &SmellFacts)
    ensures
        final(out)@ == old(out)@ + cluster_block(k as nat, *c, *f),
{
    append_str(out, "### Cluster ");
    push_decimal(out, k);
    append_str(out, ": ");
    push_decimal(out, c.files.len());
    append_str(out, " files (");
    push_decimal(out, f.score);
    append_str(out, " pts)\n\n");
    push_hotspots(out, &c.hotspots, f);
    push_edges(out, &c.critical_edges, f);
    push_files_block(out, &c.files, f);
    push_imports_block(out, &c.internal_edges, f);
    assert(out@ =~= old(out)@ + cluster_block(k as nat, *c, *f));
}

fn push_cycle(out: &mut String, k: usize, s: &ArchSmell, e: &Explanation, f: &SmellFacts)
    ensures
        final(out)@ == old(out)@ + cycle_block(k as nat, *s, *e, *f),
{
    append_str(out, "### Cycle ");
    push_decimal(out, k);
    append_str(out, "\n\n");
    if s.locations.len() > 0 {
        append_str(out, "**Cycle Details:**\n\n");
        append_str(out, "| Location | Import |\n");
        append_str(out, "|----------|--------|\n");
        push_place_rows(out, &s.locations, f);
        push_char(out, '\n');
    } else {
        let ghost fv = str_views(s.files@);
        let mut parts: Vec<String> = Vec::new();
        let mut i: usize = 0;
        while i < s.files.len()
            invariant
                i <= s.files@.len(),
                fv == str_views(s.files@),
                str_views(parts@) == shown_all(fv.take(i as int), *f).map_values(|p: Seq<char>| "`"@ + p + "`"@),
            decreases s.files@.len() - i,
        {
            let p = show(f, s.files[i].as_str());
            let mut q = "`".to_owned();
            append_str(&mut q, p.as_str());
            append_str(&mut q, "`");
            let ghost before = str_views(parts@);
            parts.push(q);
            proof {
                assert(str_views(parts@) =~= before.push(q@));
                assert(shown_all(fv.take(i + 1), *f).map_values(|p: Seq<char>| "`"@ + p + "`"@) =~= shown_all(
                    fv.take(i as int),
                    *f,
                ).map_values(|p: Seq<char>| "`"@ + p + "`"@).push("`"@ + p@ + "`"@));
            }
            i = i + 1;
        }
        assert(fv.take(s.files@.len() as int) =~= fv);
        let path = join_strings(&parts, " \u{2192} ");
        append_str(out, "**Path:** ");
        append_str(out, path.as_str());
        append_str(out, "\n\n");
    }
    append_explanation(out, e);
    assert(out@ =~= old(out)@ + cycle_block(k as nat, *s, *e, *f));
}

proof fn lemma_files_in_clusters_prefix(smells: Seq<(ArchSmell, Explanation)>, i: int)
    requires
        0 <= i <= smells.len(),
    ensures
        files_in_clusters(smells.take(i)) <= files_in_clusters(smells),
    decreases smells.len(),
{
    if i < smells.len() {
        assert(smells.drop_last().take(i) =~= smells.take(i));
        lemma_files_in_clusters_prefix(smells.drop_last(), i);
    } else {
        assert(smells.take(i) =~= smells);
    }
}

/// The Markdown section of the cycles `cycles`, of which `cycle_clusters`
/// are the cycle clusters, where `cycle_facts[i]` and `cluster_facts[i]`
/// hold what the report shows of the `i`-th of each.
pub fn generate(
    cycles: &[(ArchSmell, Explanation)],
    cycle_clusters: &[(ArchSmell, Explanation)],
    cycle_facts: &[SmellFacts],
    cluster_facts: &[SmellFacts],
) -> (r: String)
    requires
        cycle_facts@.len() == cycles@.len(),
        cluster_facts@.len() == cycle_clusters@.len(),
        files_in_clusters(cycle_clusters@) <= usize::MAX,
    ensures
        r@ == cycles_section(cycles@, cycle_clusters@, cycle_facts@, cluster_facts@),
{
    if cycles.len() == 0 {
        return String::new();
    }
    let mut output = String::new();
    if cycle_clusters.len() > 0 {
        let ghost cv = cycle_clusters@;
        let mut total: usize = 0;
        let mut i: usize = 0;
        while i < cycle_clusters.len()
            invariant
                i <= cv.len(),
                cv == cycle_clusters@,
                files_in_clusters(cv) <= usize::MAX,
                total == files_in_clusters(cv.take(i as int)),
            decreases cv.len() - i,
        {
            proof {
                assert(cv.take(i + 1).drop_last() =~= cv.take(i as int));
                lemma_files_in_clusters_prefix(cv, i + 1);
            }
            total = total + cycle_clusters[i].0.files.len();
            i = i + 1;
        }
        assert(cv.take(cv.len() as int) =~= cv);
        append_str(&mut output, "## Cyclic Dependencies (");
        push_decimal(&mut output, cycle_clusters.len());
        append_str(&mut output, " clusters, ");
        push_decimal(&mut output, total);
        append_str(&mut output, " files)\n\n");
        append_explanation(&mut output, &cycle_clusters[0].1);
        append_str(&mut output, "---\n\n");
        let ghost head = output@;
        let mut k: usize = 0;
        assert(head + cluster_blocks(cv.take(0), cluster_facts@) =~= head);
        while k < cycle_clusters.len()
            invariant
                k <= cv.len(),
                cv == cycle_clusters@,
                cluster_facts@.len() == cv.len(),
                output@ == head + cluster_blocks(cv.take(k as int), cluster_facts@),
            decreases cv.len() - k,
        {
            proof {
                assert(cv.take(k + 1).drop_last() =~= cv.take(k as int));
            }
            match &cycle_clusters[k].0.cluster {
                Some(c) => push_cluster(&mut output, k + 1, c, &cluster_facts[k]),
                None => {},
            }
            assert(output@ =~= head + cluster_blocks(cv.take(k + 1), cluster_facts@));
            k = k + 1;
        }
        assert(cv.take(cv.len() as int) =~= cv);
    } else {
        let ghost sv = cycles@;
        append_str(&mut output, "## Cyclic Dependencies\n\n");
        let ghost head = output@;
        let mut k: usize = 0;
        assert(head + cycle_blocks(sv.take(0), cycle_facts@) =~= head);
        while k < cycles.len()
            invariant
                k <= sv.len(),
                sv == cycles@,
                cycle_facts@.len() == sv.len(),
                output@ == head + cycle_blocks(sv.take(k as int), cycle_facts@),
            decreases sv.len() - k,
        {
            proof {
                assert(sv.take(k + 1).drop_last() =~= sv.take(k as int));
            }
            push_cycle(&mut output, k + 1, &cycles[k].0, &cycles[k].1, &cycle_facts[k]);
            assert(output@ =~= head + cycle_blocks(sv.take(k + 1), cycle_facts@));
            k = k + 1;
        }
        assert(sv.take(sv.len() as int) =~= sv);
    }
    assert(output@ =~= cycles_section(cycles@, cycle_clusters@, cycle_facts@, cluster_facts@));
    output
}

} // verus!
