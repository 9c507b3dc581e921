//! Pieces shared by the Markdown sections.

use vstd::prelude::*;
use vstd::relations::{sorted_by, total_ordering};
use crate::detectors::{detector_of, ArchSmell, Explanation};
use crate::order::{
    lemma_str_leq_antisymmetric, lemma_str_leq_reflexive, lemma_str_order_total, sort_strings, str_le, str_leq, str_order,
};
use crate::paths::{file_name_of, normal_components, normal_only, parent_of, path_components, path_file_name, path_parent};
use crate::text::{append_str, join, join_strings, str_eq, str_views};

verus! {

/// Each of `items` as a Markdown list item: `- item` and a newline.
pub open spec fn bullet_list(items: Seq<Seq<char>>) -> Seq<char>
    decreases items.len(),
{
    if items.len() == 0 {
        Seq::empty()
    } else {
        bullet_list(items.drop_last()) + "- "@ + items.last() + seq!['\n']
    }
}

/// The Markdown of an explanation: problem, reason, risks and recommendations.
pub open spec fn explanation_markdown(e: Explanation) -> Seq<char> {
    "**Problem:** "@ + e.problem@ + "\n\n"@ + "**Reason:** "@ + e.reason@ + "\n\n"@ + "**Risks:**\n"@
        + bullet_list(str_views(e.risks@)) + seq!['\n'] + "**Recommendations:**\n"@ + bullet_list(
        str_views(e.recommendations@),
    ) + seq!['\n']
}

/// Appends each of `items` as a list item.
fn append_bullets(output: &mut String, items: &Vec<String>)
    ensures
        final(output)@ == old(output)@ + bullet_list(str_views(items@)),
{
    let ghost iv = str_views(items@);
    let mut i: usize = 0;
    assert(old(output)@ + bullet_list(iv.take(0)) =~= old(output)@);
    while i < items.len()
        invariant
            i <= items@.len(),
            iv == str_views(items@),
            output@ == old(output)@ + bullet_list(iv.take(i as int)),
        decreases items@.len() - i,
    {
        append_str(output, "- ");
        append_str(output, items[i].as_str());
        crate::text::push_char(output, '\n');
        proof {
            assert(iv.take(i + 1).drop_last() =~= iv.take(i as int));
            assert(output@ =~= old(output)@ + bullet_list(iv.take(i + 1)));
        }
        i = i + 1;
    }
    assert(iv.take(items@.len() as int) =~= iv);
}

/// Appends the Markdown of `explanation` to `output`.
pub fn append_explanation(output: &mut String, explanation: &Explanation)
    ensures
        final(output)@ == old(output)@ + explanation_markdown(*explanation),
{
    append_str(output, "**Problem:** ");
    append_str(output, explanation.problem.as_str());
    append_str(output, "\n\n");
    append_str(output, "**Reason:** ");
    append_str(output, explanation.reason.as_str());
    append_str(output, "\n\n");
    append_str(output, "**Risks:**\n");
    append_bullets(output, &explanation.risks);
    crate::text::push_char(output, '\n');
    append_str(output, "**Recommendations:**\n");
    append_bullets(output, &explanation.recommendations);
    crate::text::push_char(output, '\n');
    assert(output@ =~= old(output)@ + explanation_markdown(*explanation));
}

/// The directory shown for `file`: the last three normal components of its
/// parent joined with `/`, or `.` where there are none.
pub open spec fn short_directory(file: Seq<char>) -> Seq<char> {
    match path_parent(file) {
        None => "."@,
        Some(p) => {
            let cs = normal_only(path_components(p));
            let last = if cs.len() > 3 { cs.skip(cs.len() - 3) } else { cs };
            if last.len() == 0 { "."@ } else { join(last, seq!['/']) }
        },
    }
}

/// The name shown for `file`: its file name, or `unknown`.
pub open spec fn short_file_name(file: Seq<char>) -> Seq<char> {
    match path_file_name(file) {
        Some(n) => n,
        None => "unknown"@,
    }
}

/// The directory shown for `file_path`.
pub fn extract_short_directory(file_path: &str) -> (r: String)
    ensures
        r@ == short_directory(file_path@),
{
    let parent = match parent_of(file_path) {
        Some(p) => p,
        None => return ".".to_owned(),
    };
    let cs = normal_components(parent.as_str());
    let n = cs.len();
    let from = if n > 3 { n - 3 } else { 0 };
    let last = vstd::slice::slice_subrange(cs.as_slice(), from, n);
    let mut kept: Vec<String> = Vec::new();
    let mut i: usize = 0;
    while i < last.len()
        invariant
            i <= last@.len(),
            str_views(kept@) == str_views(last@).take(i as int),
        decreases last@.len() - i,
    {
        let ghost before = str_views(kept@);
        kept.push(last[i].clone());
        assert(str_views(kept@) =~= before.push(last@[i as int]@));
        assert(str_views(last@).take(i + 1) =~= str_views(last@).take(i as int).push(last@[i as int]@));
        i = i + 1;
    }
    proof {
        assert(str_views(last@).take(last@.len() as int) =~= str_views(last@));
        let all = str_views(cs@);
        if n > 3 {
            assert(str_views(last@) =~= all.skip(n - 3));
        } else {
            assert(str_views(last@) =~= all);
        }
    }
    if kept.len() == 0 {
        return ".".to_owned();
    }
    proof {
        reveal_strlit("/");
        assert("/"@ =~= seq!['/']);
    }
    join_strings(&kept, "/")
}

/// The name shown for `file_path`.
pub fn extract_filename(file_path: &str) -> (r: String)
    ensures
        r@ == short_file_name(file_path@),
{
    match file_name_of(file_path) {
        Some(n) => n,
        None => "unknown".to_owned(),
    }
}

/// The directory and name of the first file of each smell that has one.
pub open spec fn dir_entries(smells: Seq<(ArchSmell, Explanation)>) -> Seq<(Seq<char>, Seq<char>)>
    decreases smells.len(),
{
    if smells.len() == 0 {
        Seq::empty()
    } else {
        let prev = dir_entries(smells.drop_last());
        let s = smells.last().0;
        if s.files@.len() > 0 {
            prev.push((short_directory(s.files@[0]@), short_file_name(s.files@[0]@)))
        } else {
            prev
        }
    }
}

/// The names of the entries in directory `d`, in order.
pub open spec fn names_in(entries: Seq<(Seq<char>, Seq<char>)>, d: Seq<char>) -> Seq<Seq<char>>
    decreases entries.len(),
{
    if entries.len() == 0 {
        Seq::empty()
    } else {
        let prev = names_in(entries.drop_last(), d);
        if entries.last().0 == d { prev.push(entries.last().1) } else { prev }
    }
}

/// Whether some entry lies in directory `d`.
pub open spec fn has_dir(entries: Seq<(Seq<char>, Seq<char>)>, d: Seq<char>) -> bool {
    exists|i: int| 0 <= i < entries.len() && (#[trigger] entries[i]).0 == d
}

/// Whether some group is for directory `d`.
pub open spec fn has_group(groups: Seq<(Seq<char>, Seq<Seq<char>>)>, d: Seq<char>) -> bool {
    exists|a: int| 0 <= a < groups.len() && (#[trigger] groups[a]).0 == d
}

/// Whether the directories of `groups` strictly increase.
pub open spec fn keys_increase(groups: Seq<(Seq<char>, Seq<Seq<char>>)>) -> bool {
    forall|a: int, b: int| 0 <= a < b < groups.len() ==> str_leq(#[trigger] groups[a].0, #[trigger] groups[b].0) && groups[a].0 != groups[b].0
}

/// Whether every group is for a directory of some entry.
pub open spec fn keys_used(groups: Seq<(Seq<char>, Seq<Seq<char>>)>, entries: Seq<(Seq<char>, Seq<char>)>) -> bool {
    forall|a: int| 0 <= a < groups.len() ==> has_dir(entries, (#[trigger] groups[a]).0)
}

/// Whether every entry's directory has a group.
pub open spec fn keys_cover(groups: Seq<(Seq<char>, Seq<Seq<char>>)>, entries: Seq<(Seq<char>, Seq<char>)>) -> bool {
    forall|k: int| 0 <= k < entries.len() ==> has_group(groups, (#[trigger] entries[k]).0)
}

/// Whether `groups` groups `entries` by directory: one group per directory,
/// in increasing order, each holding the names of its entries sorted.
pub open spec fn grouped_by_directory(
    groups: Seq<(Seq<char>, Seq<Seq<char>>)>,
    entries: Seq<(Seq<char>, Seq<char>)>,
) -> bool {
    &&& keys_increase(groups)
    &&& keys_used(groups, entries)
    &&& keys_cover(groups, entries)
    &&& forall|a: int| 0 <= a < groups.len() ==> (#[trigger] groups[a]).1 == names_in(entries, groups[a].0).sort_by(str_order())
}

/// Whether each group holds the names of its entries, in order.
pub open spec fn names_collected(groups: Seq<(Seq<char>, Seq<Seq<char>>)>, entries: Seq<(Seq<char>, Seq<char>)>) -> bool {
    forall|a: int| 0 <= a < groups.len() ==> (#[trigger] groups[a]).1 == names_in(entries, groups[a].0)
}

/// The groups as plain values.
pub open spec fn groups_view(g: Seq<(String, Vec<String>)>) -> Seq<(Seq<char>, Seq<Seq<char>>)> {
    g.map_values(|e: (String, Vec<String>)| (e.0@, str_views(e.1@)))
}

/// Adds entry `(d, n)` to the group of `d`, which is at `pos`.
proof fn lemma_add_to_group(
    g0: Seq<(Seq<char>, Seq<Seq<char>>)>,
    pe: Seq<(Seq<char>, Seq<char>)>,
    pos: int,
    d: Seq<char>,
    n: Seq<char>,
)
    requires
        0 <= pos < g0.len(),
        g0[pos].0 == d,
        keys_increase(g0),
        keys_used(g0, pe),
        keys_cover(g0, pe),
        names_collected(g0, pe),
    ensures
        ({
            let g = g0.update(pos, (d, g0[pos].1.push(n)));
            let ne = pe.push((d, n));
            keys_increase(g) && keys_used(g, ne) && keys_cover(g, ne) && names_collected(g, ne)
        }),
{
    let g = g0.update(pos, (d, g0[pos].1.push(n)));
    let ne = pe.push((d, n));
    assert(ne.drop_last() =~= pe);
    assert forall|a: int, b: int| 0 <= a < b < g.len() implies str_leq(#[trigger] g[a].0, #[trigger] g[b].0) && g[a].0 != g[b].0 by {
        assert(g[a].0 == g0[a].0 && g[b].0 == g0[b].0);
        assert(str_leq(g0[a].0, g0[b].0));
    }
    assert forall|a: int| 0 <= a < g.len() implies has_dir(ne, (#[trigger] g[a]).0) by {
        assert(g[a].0 == g0[a].0);
        assert(has_dir(pe, g0[a].0));
        let j = choose|j: int| 0 <= j < pe.len() && (#[trigger] pe[j]).0 == g0[a].0;
        assert(ne[j] == pe[j]);
    }
    assert forall|k: int| 0 <= k < ne.len() implies has_group(g, (#[trigger] ne[k]).0) by {
        if k < pe.len() {
            assert(ne[k] == pe[k]);
            assert(has_group(g0, pe[k].0));
            let a = choose|a: int| 0 <= a < g0.len() && (#[trigger] g0[a]).0 == pe[k].0;
            assert(g[a].0 == g0[a].0);
        } else {
            assert(g[pos].0 == d);
        }
    }
    assert forall|a: int| 0 <= a < g.len() implies (#[trigger] g[a]).1 == names_in(ne, g[a].0) by {
        assert(g0[a].1 == names_in(pe, g0[a].0));
        if a != pos {
            if a < pos {
                assert(g0[a].0 != g0[pos].0);
            } else {
                assert(g0[pos].0 != g0[a].0);
            }
        }
    }
}

/// Adds a new group for `d`, with entry `(d, n)`, at `pos`.
proof fn lemma_new_group(
    g0: Seq<(Seq<char>, Seq<Seq<char>>)>,
    pe: Seq<(Seq<char>, Seq<char>)>,
    pos: int,
    d: Seq<char>,
    n: Seq<char>,
)
    requires
        0 <= pos <= g0.len(),
        forall|x: int| 0 <= x < pos ==> str_leq(#[trigger] g0[x].0, d) && g0[x].0 != d,
        pos < g0.len() ==> !str_leq(g0[pos].0, d),
        keys_increase(g0),
        keys_used(g0, pe),
        keys_cover(g0, pe),
        names_collected(g0, pe),
    ensures
        ({
            let g = g0.insert(pos, (d, seq![n]));
            let ne = pe.push((d, n));
            keys_increase(g) && keys_used(g, ne) && keys_cover(g, ne) && names_collected(g, ne)
        }),
{
    let g = g0.insert(pos, (d, seq![n]));
    let ne = pe.push((d, n));
    assert(ne.drop_last() =~= pe);
    assert forall|x: int, y: int| 0 <= x < y < g0.len() implies str_leq(g0[x].0, g0[y].0) && g0[x].0 != g0[y].0 by {
        assert(str_leq(g0[x].0, g0[y].0) && g0[x].0 != g0[y].0);
    }
    assert forall|a: int, b: int| 0 <= a < b < g.len() implies str_leq(#[trigger] g[a].0, #[trigger] g[b].0) && g[a].0 != g[b].0 by {
        lemma_insert_key_sorted(g0, pos, d, a, b);
    }
    assert(!has_dir(pe, d)) by {
        if has_dir(pe, d) {
            let j = choose|j: int| 0 <= j < pe.len() && (#[trigger] pe[j]).0 == d;
            assert(has_group(g0, pe[j].0));
            let a = choose|a: int| 0 <= a < g0.len() && (#[trigger] g0[a]).0 == pe[j].0;
            if a >= pos {
                crate::order::lemma_str_leq_total(g0[pos].0, d);
                if a > pos {
                    assert(str_leq(g0[pos].0, g0[a].0));
                }
                crate::order::lemma_str_leq_reflexive(d);
            }
        }
    }
    lemma_names_absent(pe, d);
    assert forall|a: int| 0 <= a < g.len() implies has_dir(ne, (#[trigger] g[a]).0) by {
        if a == pos {
            assert(ne[pe.len() as int].0 == d);
        } else {
            let a0 = if a < pos { a } else { a - 1 };
            assert(g[a] == g0[a0]);
            assert(has_dir(pe, g0[a0].0));
            let j = choose|j: int| 0 <= j < pe.len() && (#[trigger] pe[j]).0 == g0[a0].0;
            assert(ne[j] == pe[j]);
        }
    }
    assert forall|k: int| 0 <= k < ne.len() implies has_group(g, (#[trigger] ne[k]).0) by {
        if k < pe.len() {
            assert(ne[k] == pe[k]);
            assert(has_group(g0, pe[k].0));
            let a = choose|a: int| 0 <= a < g0.len() && (#[trigger] g0[a]).0 == pe[k].0;
            let a1 = if a < pos { a } else { a + 1 };
            assert(g[a1] == g0[a]);
        } else {
            assert(g[pos].0 == d);
        }
    }
    assert forall|a: int| 0 <= a < g.len() implies (#[trigger] g[a]).1 == names_in(ne, g[a].0) by {
        if a == pos {
            assert(names_in(ne, d) =~= seq![n]);
        } else {
            let a0 = if a < pos { a } else { a - 1 };
            assert(g[a] == g0[a0]);
            assert(g0[a0].1 == names_in(pe, g0[a0].0));
            assert(g0[a0].0 != d) by {
                if g0[a0].0 == d {
                    assert(has_dir(pe, g0[a0].0));
                }
            }
        }
    }
}

/// The first files of `dead_smells`, grouped by their short directory; the
/// groups come in the order of their directories, each with its names sorted.
pub fn group_files_by_directory(dead_smells: &[(ArchSmell, Explanation)]) -> (r: Vec<(String, Vec<String>)>)
    ensures
        grouped_by_directory(groups_view(r@), dir_entries(dead_smells@)),
{
    let ghost es = dir_entries(dead_smells@);
    let mut groups: Vec<(String, Vec<String>)> = Vec::new();
    let mut i: usize = 0;
    proof {
        lemma_str_order_total();
        assert(groups_view(groups@) =~= Seq::<(Seq<char>, Seq<Seq<char>>)>::empty());
    }
    while i < dead_smells.len()
        invariant
            i <= dead_smells@.len(),
            total_ordering(str_order()),
            keys_increase(groups_view(groups@)),
            keys_used(groups_view(groups@), dir_entries(dead_smells@.take(i as int))),
            keys_cover(groups_view(groups@), dir_entries(dead_smells@.take(i as int))),
            names_collected(groups_view(groups@), dir_entries(dead_smells@.take(i as int))),
        decreases dead_smells@.len() - i,
    {
        let ghost pe = dir_entries(dead_smells@.take(i as int));
        let ghost gv0 = groups_view(groups@);
        proof {
            assert(dead_smells@.take(i + 1).drop_last() =~= dead_smells@.take(i as int));
        }
        let smell = &dead_smells[i].0;
        if smell.files.len() > 0 {
            let dir = extract_short_directory(smell.files[0].as_str());
            let name = extract_filename(smell.files[0].as_str());
            proof {
                assert(dir_entries(dead_smells@.take(i + 1)) == pe.push((dir@, name@)));
            }
            let mut pos: usize = 0;
            while pos < groups.len() && str_le(groups[pos].0.as_str(), dir.as_str()) && !str_eq(groups[pos].0.as_str(), dir.as_str())
                invariant
                    pos <= groups@.len(),
                    groups_view(groups@) == gv0,
                    forall|a: int| 0 <= a < pos ==> str_leq(#[trigger] gv0[a].0, dir@) && gv0[a].0 != dir@,
                decreases groups@.len() - pos,
            {
                pos = pos + 1;
            }
            if pos < groups.len() && str_eq(groups[pos].0.as_str(), dir.as_str()) {
                let mut entry = groups.remove(pos);
                let ghost old_names = str_views(entry.1@);
                entry.1.push(name);
                assert(str_views(entry.1@) =~= old_names.push(name@));
                groups.insert(pos, entry);
                proof {
                    assert(gv0[pos as int].0 == dir@);
                    assert(gv0[pos as int].1 == old_names);
                    assert(groups_view(groups@) =~= gv0.update(pos as int, (dir@, gv0[pos as int].1.push(name@))));
                    lemma_add_to_group(gv0, pe, pos as int, dir@, name@);
                }
            } else {
                let mut names: Vec<String> = Vec::new();
                names.push(name);
                let ghost nv = str_views(names@);
                groups.insert(pos, (dir, names));
                proof {
                    assert(nv =~= seq![name@]);
                    assert(groups_view(groups@) =~= gv0.insert(pos as int, (dir@, seq![name@])));
                    if pos < gv0.len() {
                        assert(gv0[pos as int].0 != dir@);
                    }
                    lemma_new_group(gv0, pe, pos as int, dir@, name@);
                }
            }
        } else {
            proof {
                assert(dir_entries(dead_smells@.take(i + 1)) == pe);
            }
        }
        i = i + 1;
    }
    proof {
        assert(dead_smells@.take(dead_smells@.len() as int) =~= dead_smells@);
    }
    let ghost gv1 = groups_view(groups@);
    let mut out: Vec<(String, Vec<String>)> = Vec::new();
    let mut j: usize = 0;
    while j < groups.len()
        invariant
            j <= groups@.len(),
            gv1 == groups_view(groups@),
            out@.len() == j,
            forall|a: int| 0 <= a < j ==> (#[trigger] groups_view(out@)[a]).0 == gv1[a].0 && groups_view(out@)[a].1 == gv1[a].1.sort_by(str_order()),
        decreases groups@.len() - j,
    {
        let sorted = sort_strings(&groups[j].1);
        let ghost before = out@;
        out.push((groups[j].0.clone(), sorted));
        proof {
            assert(out@ =~= before.push(out@[j as int]));
            assert forall|a: int| 0 <= a < j + 1 implies (#[trigger] groups_view(out@)[a]).0 == gv1[a].0 && groups_view(out@)[a].1 == gv1[a].1.sort_by(str_order()) by {
                if a < j {
                    assert(out@[a] == before[a]);
                    assert(groups_view(out@)[a] == groups_view(before)[a]);
                } else {
                    assert(groups_view(out@)[a].1 == str_views(sorted@));
                }
            }
        }
        j = j + 1;
    }
    proof {
        let ov = groups_view(out@);
        assert forall|a: int| 0 <= a < ov.len() implies ov[a].0 == gv1[a].0 && ov[a].1 == gv1[a].1.sort_by(str_order()) by {
            assert(groups_view(out@)[a].0 == gv1[a].0);
        }
        assert forall|a: int, b: int| 0 <= a < b < ov.len() implies str_leq(#[trigger] ov[a].0, #[trigger] ov[b].0) && ov[a].0 != ov[b].0 by {
            assert(ov[a].0 == gv1[a].0 && ov[b].0 == gv1[b].0);
            assert(str_leq(gv1[a].0, gv1[b].0));
        }
        assert forall|a: int| 0 <= a < ov.len() implies has_dir(es, (#[trigger] ov[a]).0) by {
            assert(ov[a].0 == gv1[a].0);
            assert(has_dir(es, gv1[a].0));
        }
        assert forall|k: int| 0 <= k < es.len() implies has_group(ov, (#[trigger] es[k]).0) by {
            assert(has_group(gv1, es[k].0));
            let a = choose|a: int| 0 <= a < gv1.len() && (#[trigger] gv1[a]).0 == es[k].0;
            assert(ov[a].0 == gv1[a].0);
        }
        assert forall|a: int| 0 <= a < ov.len() implies (#[trigger] ov[a]).1 == names_in(es, ov[a].0).sort_by(str_order()) by {
            assert(ov[a].0 == gv1[a].0);
            assert(gv1[a].1 == names_in(es, gv1[a].0));
        }
    }
    out
}

/// Inserting `d` at `pos` into strictly increasing keys keeps them strictly
/// increasing, where the keys before `pos` come before `d` and the key at
/// `pos` does not.
proof fn lemma_insert_key_sorted(g: Seq<(Seq<char>, Seq<Seq<char>>)>, pos: int, d: Seq<char>, a: int, b: int)
    requires
        0 <= pos <= g.len(),
        forall|x: int, y: int| 0 <= x < y < g.len() ==> str_leq(g[x].0, g[y].0) && g[x].0 != g[y].0,
        forall|x: int| 0 <= x < pos ==> str_leq(#[trigger] g[x].0, d) && g[x].0 != d,
        pos < g.len() ==> !str_leq(g[pos].0, d),
        0 <= a < b < g.len() + 1,
    ensures
        ({
            let ka = if a < pos { g[a].0 } else if a == pos { d } else { g[a - 1].0 };
            let kb = if b < pos { g[b].0 } else if b == pos { d } else { g[b - 1].0 };
            str_leq(ka, kb) && ka != kb
        }),
{
    if a == pos && b > pos {
        let gb = g[b - 1].0;
        crate::order::lemma_str_leq_total(g[pos].0, d);
        if b - 1 > pos {
            crate::order::lemma_str_leq_transitive(d, g[pos].0, gb);
            if d == gb {
                crate::order::lemma_str_leq_antisymmetric(g[pos].0, gb);
            }
        }
    } else if a < pos && b > pos {
        let gb = g[b - 1].0;
        if pos < g.len() {
            crate::order::lemma_str_leq_total(g[pos].0, d);
            if b - 1 > pos {
                crate::order::lemma_str_leq_transitive(d, g[pos].0, gb);
            }
            crate::order::lemma_str_leq_transitive(g[a].0, d, gb);
            if g[a].0 == gb {
                crate::order::lemma_str_leq_antisymmetric(g[a].0, d);
            }
        }
    }
}

/// A directory that no entry lies in has no names.
proof fn lemma_names_absent(entries: Seq<(Seq<char>, Seq<char>)>, d: Seq<char>)
    requires
        !has_dir(entries, d),
    ensures
        names_in(entries, d) == Seq::<Seq<char>>::empty(),
    decreases entries.len(),
{
    if entries.len() > 0 {
        let pre = entries.drop_last();
        assert(!has_dir(pre, d)) by {
            if has_dir(pre, d) {
                let j = choose|j: int| 0 <= j < pre.len() && (#[trigger] pre[j]).0 == d;
                assert(entries[j] == pre[j]);
            }
        }
        lemma_names_absent(pre, d);
        assert(entries[entries.len() - 1].0 != d);
    }
}

/// The rows that `row` writes for each smell of `smells` with its facts, in
/// order.
pub open spec fn table_rows(
    smells: Seq<(ArchSmell, Explanation)>,
    facts: Seq<crate::report::facts::SmellFacts>,
    row: spec_fn(ArchSmell, crate::report::facts::SmellFacts) -> Seq<char>,
) -> Seq<char>
    decreases smells.len(),
{
    if smells.len() == 0 {
        Seq::empty()
    } else {
        table_rows(smells.drop_last(), facts, row) + row(smells.last().0, facts[smells.len() - 1])
    }
}

/// Extending the smells by one adds that smell's row.
pub proof fn lemma_table_rows_step(
    smells: Seq<(ArchSmell, Explanation)>,
    facts: Seq<crate::report::facts::SmellFacts>,
    row: spec_fn(ArchSmell, crate::report::facts::SmellFacts) -> Seq<char>,
    i: int,
)
    requires
        0 <= i < smells.len(),
    ensures
        table_rows(smells.take(i + 1), facts, row) == table_rows(smells.take(i), facts, row) + row(smells[i].0, facts[i]),
{
    assert(smells.take(i + 1).drop_last() =~= smells.take(i));
}

proof fn lemma_sorted_keys_unique(k1: Seq<Seq<char>>, k2: Seq<Seq<char>>)
    requires
        forall|a: int, b: int| 0 <= a < b < k1.len() ==> str_leq(#[trigger] k1[a], #[trigger] k1[b]) && k1[a] != k1[b],
        forall|a: int, b: int| 0 <= a < b < k2.len() ==> str_leq(#[trigger] k2[a], #[trigger] k2[b]) && k2[a] != k2[b],
        forall|a: int| 0 <= a < k1.len() ==> k2.contains(#[trigger] k1[a]),
        forall|b: int| 0 <= b < k2.len() ==> k1.contains(#[trigger] k2[b]),
    ensures
        k1 == k2,
    decreases k1.len(),
{
    if k1.len() == 0 {
        if k2.len() > 0 {
            assert(k1.contains(k2[0]));
        }
        assert(k1 =~= k2);
    } else {
        assert(k2.contains(k1[0]));
        let j = choose|j: int| 0 <= j < k2.len() && k2[j] == k1[0];
        assert(k1.contains(k2[0]));
        let i = choose|i: int| 0 <= i < k1.len() && k1[i] == k2[0];
        if j > 0 {
            assert(str_leq(k2[0], k2[j]));
        } else {
            lemma_str_leq_reflexive(k2[0]);
        }
        if i > 0 {
            assert(str_leq(k1[0], k1[i]));
        } else {
            lemma_str_leq_reflexive(k1[0]);
        }
        lemma_str_leq_antisymmetric(k1[0], k2[0]);
        let t1 = k1.drop_first();
        let t2 = k2.drop_first();
        assert forall|a: int| 0 <= a < t1.len() implies t2.contains(#[trigger] t1[a]) by {
            assert(t1[a] == k1[a + 1]);
            assert(k2.contains(k1[a + 1]));
            let w = choose|w: int| 0 <= w < k2.len() && k2[w] == k1[a + 1];
            assert(k1[0] != k1[a + 1]);
            assert(w != 0);
            assert(t2[w - 1] == k2[w]);
        }
        assert forall|b: int| 0 <= b < t2.len() implies t1.contains(#[trigger] t2[b]) by {
            assert(t2[b] == k2[b + 1]);
            assert(k1.contains(k2[b + 1]));
            let w = choose|w: int| 0 <= w < k1.len() && k1[w] == k2[b + 1];
            assert(k2[0] != k2[b + 1]);
            assert(w != 0);
            assert(t1[w - 1] == k1[w]);
        }
        assert forall|a: int, b: int| 0 <= a < b < t1.len() implies str_leq(#[trigger] t1[a], #[trigger] t1[b]) && t1[a] != t1[b] by {
            assert(t1[a] == k1[a + 1] && t1[b] == k1[b + 1]);
        }
        assert forall|a: int, b: int| 0 <= a < b < t2.len() implies str_leq(#[trigger] t2[a], #[trigger] t2[b]) && t2[a] != t2[b] by {
            assert(t2[a] == k2[a + 1] && t2[b] == k2[b + 1]);
        }
        lemma_sorted_keys_unique(t1, t2);
        assert(k1 =~= k2) by {
            assert forall|a: int| 0 <= a < k1.len() implies k1[a] == k2[a] by {
                if a > 0 {
                    assert(k1[a] == t1[a - 1]);
                    assert(k2[a] == t2[a - 1]);
                }
            }
        }
    }
}

/// There is one way only to group entries by directory: two groupings of the
/// same entries are the same.
pub proof fn lemma_grouped_by_directory_unique(
    g1: Seq<(Seq<char>, Seq<Seq<char>>)>,
    g2: Seq<(Seq<char>, Seq<Seq<char>>)>,
    entries: Seq<(Seq<char>, Seq<char>)>,
)
    requires
        grouped_by_directory(g1, entries),
        grouped_by_directory(g2, entries),
    ensures
        g1 == g2,
{
    let k1 = g1.map_values(|g: (Seq<char>, Seq<Seq<char>>)| g.0);
    let k2 = g2.map_values(|g: (Seq<char>, Seq<Seq<char>>)| g.0);
    assert forall|a: int| 0 <= a < k1.len() implies k2.contains(#[trigger] k1[a]) by {
        assert(k1[a] == g1[a].0);
        assert(has_dir(entries, g1[a].0));
        let i = choose|i: int| 0 <= i < entries.len() && (#[trigger] entries[i]).0 == g1[a].0;
        assert(has_group(g2, entries[i].0));
        let b = choose|b: int| 0 <= b < g2.len() && (#[trigger] g2[b]).0 == entries[i].0;
        assert(k2[b] == g2[b].0);
    }
    assert forall|b: int| 0 <= b < k2.len() implies k1.contains(#[trigger] k2[b]) by {
        assert(k2[b] == g2[b].0);
        assert(has_dir(entries, g2[b].0));
        let i = choose|i: int| 0 <= i < entries.len() && (#[trigger] entries[i]).0 == g2[b].0;
        assert(has_group(g1, entries[i].0));
        let a = choose|a: int| 0 <= a < g1.len() && (#[trigger] g1[a]).0 == entries[i].0;
        assert(k1[a] == g1[a].0);
    }
    assert forall|a: int, b: int| 0 <= a < b < k1.len() implies str_leq(#[trigger] k1[a], #[trigger] k1[b]) && k1[a] != k1[b] by {
        assert(k1[a] == g1[a].0 && k1[b] == g1[b].0);
    }
    assert forall|a: int, b: int| 0 <= a < b < k2.len() implies str_leq(#[trigger] k2[a], #[trigger] k2[b]) && k2[a] != k2[b] by {
        assert(k2[a] == g2[a].0 && k2[b] == g2[b].0);
    }
    lemma_sorted_keys_unique(k1, k2);
    assert(g1 =~= g2) by {
        assert(g1.len() == k1.len() && g2.len() == k2.len());
        assert forall|a: int| 0 <= a < g1.len() implies g1[a] == g2[a] by {
            assert(k1[a] == g1[a].0 && k2[a] == g2[a].0);
        }
    }
}

/// The grouping of `entries` by directory.
pub open spec fn directory_groups(entries: Seq<(Seq<char>, Seq<char>)>) -> Seq<(Seq<char>, Seq<Seq<char>>)> {
    choose|g: Seq<(Seq<char>, Seq<Seq<char>>)>| grouped_by_directory(g, entries)
}

/// The distinct keys of `keys`, in the order they first come.
pub open spec fn first_keys(keys: Seq<Seq<char>>) -> Seq<Seq<char>>
    decreases keys.len(),
{
    if keys.len() == 0 {
        Seq::empty()
    } else {
        let prev = first_keys(keys.drop_last());
        if prev.contains(keys.last()) {
            prev
        } else {
            prev.push(keys.last())
        }
    }
}

/// The items of `items` whose key (the key at the same place in `keys`) is
/// `key`, in order.
pub open spec fn select<T>(items: Seq<T>, keys: Seq<Seq<char>>, key: Seq<char>) -> Seq<T>
    decreases items.len(),
{
    if items.len() == 0 {
        Seq::empty()
    } else {
        let prev = select(items.drop_last(), keys.drop_last(), key);
        if keys[items.len() - 1] == key {
            prev.push(items.last())
        } else {
            prev
        }
    }
}

/// Whether `groups` holds, for each distinct key of `keys` in the order it
/// first comes, the items with that key, in order.
pub open spec fn grouped_by_key<T>(groups: Seq<(Seq<char>, Seq<T>)>, items: Seq<T>, keys: Seq<Seq<char>>) -> bool {
    &&& groups.len() == first_keys(keys).len()
    &&& forall|g: int| 0 <= g < groups.len() ==> (#[trigger] groups[g]).0 == first_keys(keys)[g] && groups[g].1 == select(items, keys, groups[g].0)
}

/// The groups as plain values.
pub open spec fn key_groups_view<T>(g: Seq<(String, Vec<T>)>) -> Seq<(Seq<char>, Seq<T>)> {
    g.map_values(|e: (String, Vec<T>)| (e.0@, e.1@))
}

/// The keys that `first_keys` lists are distinct.
pub proof fn lemma_first_keys_distinct(keys: Seq<Seq<char>>)
    ensures
        forall|a: int, b: int| 0 <= a < b < first_keys(keys).len() ==> first_keys(keys)[a] != first_keys(keys)[b],
        forall|k: int| 0 <= k < keys.len() ==> first_keys(keys).contains(#[trigger] keys[k]),
        forall|a: int| 0 <= a < first_keys(keys).len() ==> keys.contains(#[trigger] first_keys(keys)[a]),
    decreases keys.len(),
{
    if keys.len() > 0 {
        let d = keys.drop_last();
        lemma_first_keys_distinct(d);
        assert forall|k: int| 0 <= k < keys.len() implies first_keys(keys).contains(#[trigger] keys[k]) by {
            if k < keys.len() - 1 {
                assert(d[k] == keys[k]);
                let p = first_keys(d);
                let w = choose|w: int| 0 <= w < p.len() && p[w] == d[k];
                if !p.contains(keys.last()) {
                    assert(p.push(keys.last())[w] == keys[k]);
                }
            } else {
                if !first_keys(d).contains(keys.last()) {
                    assert(first_keys(d).push(keys.last())[first_keys(d).len() as int] == keys.last());
                }
            }
        }
        assert forall|a: int| 0 <= a < first_keys(keys).len() implies keys.contains(#[trigger] first_keys(keys)[a]) by {
            if a < first_keys(d).len() {
                let w = choose|w: int| 0 <= w < d.len() && d[w] == first_keys(d)[a];
                assert(keys[w] == d[w]);
            } else {
                assert(keys[keys.len() - 1] == keys.last());
            }
        }
    }
}

/// Splits `items` by key: for each distinct key of `keys` (one per item), in
/// the order it first comes, the items with that key, in order.
pub fn group_by_keys<T>(items: Vec<T>, keys: &Vec<String>) -> (r: Vec<(String, Vec<T>)>)
    requires
        items@.len() == keys@.len(),
    ensures
        grouped_by_key(key_groups_view(r@), items@, str_views(keys@)),
{
    let ghost orig = items@;
    let ghost kv = str_views(keys@);
    let mut rest = items;
    let mut groups: Vec<(String, Vec<T>)> = Vec::new();
    let mut i: usize = 0;
    assert(orig.skip(0) =~= orig);
    while i < keys.len()
        invariant
            i <= keys@.len(),
            orig.len() == keys@.len(),
            kv == str_views(keys@),
            rest@ == orig.skip(i as int),
            grouped_by_key(key_groups_view(groups@), orig.take(i as int), kv.take(i as int)),
        decreases keys@.len() - i,
    {
        let ghost g0 = key_groups_view(groups@);
        let ghost ot = orig.take(i as int);
        let ghost kt = kv.take(i as int);
        proof {
            lemma_first_keys_distinct(kt);
            assert(orig.take(i + 1).drop_last() =~= ot);
            assert(kv.take(i + 1).drop_last() =~= kt);
            assert(kv.take(i + 1).last() == kv[i as int]);
            assert(orig.take(i + 1).last() == orig[i as int]);
        }
        let x = rest.remove(0);
        assert(x == orig[i as int]);
        assert(rest@ =~= orig.skip(i + 1));
        let key = &keys[i];
        let mut j: usize = 0;
        let mut found = false;
        while j < groups.len()
            invariant
                j <= groups@.len(),
                !found ==> forall|a: int| 0 <= a < j ==> (#[trigger] groups@[a]).0@ != key@,
                found ==> j < groups@.len() && groups@[j as int].0@ == key@,
            ensures
                !found ==> j == groups@.len() && forall|a: int| 0 <= a < j ==> (#[trigger] groups@[a]).0@ != key@,
                found ==> j < groups@.len() && groups@[j as int].0@ == key@,
            decreases groups@.len() - j,
        {
            if str_eq(groups[j].0.as_str(), key.as_str()) {
                found = true;
                break;
            }
            j = j + 1;
        }
        let ghost k = kv[i as int];
        assert(key@ == k);
        if found {
            proof {
                assert(g0[j as int].0 == k);
                assert(first_keys(kt)[j as int] == k);
                assert(first_keys(kt).contains(k));
            }
            let (name, mut members) = groups.remove(j);
            members.push(x);
            groups.insert(j, (name, members));
            proof {
                let g1 = key_groups_view(groups@);
                assert(first_keys(kv.take(i + 1)) == first_keys(kt));
                assert forall|g: int| 0 <= g < g1.len() implies (#[trigger] g1[g]).0 == first_keys(kv.take(i + 1))[g]
                    && g1[g].1 == select(orig.take(i + 1), kv.take(i + 1), g1[g].0) by {
                    if g == j {
                        assert(g1[g] == (k, g0[g].1.push(x)));
                    } else {
                        assert(g1[g] == g0[g]);
                        assert(g0[g].0 != k);
                    }
                }
            }
        } else {
            proof {
                assert forall|a: int| 0 <= a < first_keys(kt).len() implies first_keys(kt)[a] != k by {
                    assert(g0[a].0 == first_keys(kt)[a]);
                    assert(groups@[a].0@ != key@);
                }
                assert(!first_keys(kt).contains(k));
            }
            let mut members: Vec<T> = Vec::new();
            members.push(x);
            groups.push((key.clone(), members));
            proof {
                let g1 = key_groups_view(groups@);
                assert(first_keys(kv.take(i + 1)) == first_keys(kt).push(k));
                assert(select(ot, kt, k) =~= Seq::<T>::empty()) by {
                    lemma_select_absent(ot, kt, k);
                }
                assert forall|g: int| 0 <= g < g1.len() implies (#[trigger] g1[g]).0 == first_keys(kv.take(i + 1))[g]
                    && g1[g].1 == select(orig.take(i + 1), kv.take(i + 1), g1[g].0) by {
                    if g == g0.len() {
                        assert(g1[g].1 =~= seq![x]);
                        assert(select(ot, kt, k).push(x) =~= seq![x]);
                    } else {
                        assert(g1[g] == g0[g]);
                        assert(g0[g].0 != k);
                    }
                }
            }
        }
        i = i + 1;
    }
    assert(orig.take(orig.len() as int) =~= orig);
    assert(kv.take(kv.len() as int) =~= kv);
    groups
}

pub proof fn lemma_select_absent<T>(items: Seq<T>, keys: Seq<Seq<char>>, key: Seq<char>)
    requires
        items.len() == keys.len(),
        !first_keys(keys).contains(key),
    ensures
        select(items, keys, key).len() == 0,
    decreases items.len(),
{
    if items.len() > 0 {
        lemma_first_keys_distinct(keys);
        assert(keys[keys.len() - 1] != key) by {
            assert(first_keys(keys).contains(keys[keys.len() - 1]));
        }
        let d = keys.drop_last();
        lemma_first_keys_distinct(d);
        assert(!first_keys(d).contains(key)) by {
            if first_keys(d).contains(key) {
                let w = choose|w: int| 0 <= w < first_keys(d).len() && first_keys(d)[w] == key;
                let v = choose|v: int| 0 <= v < d.len() && d[v] == first_keys(d)[w];
                assert(keys[v] == d[v]);
                assert(first_keys(keys).contains(keys[v]));
            }
        }
        lemma_select_absent(items.drop_last(), d, key);
    }
}

/// The detector ids of `smells`, one per smell.
pub open spec fn detector_ids(smells: Seq<(ArchSmell, Explanation)>) -> Seq<Seq<char>> {
    smells.map_values(|p: (ArchSmell, Explanation)| detector_of(p.0.smell_type))
}

pub fn detector_ids_of(smells: &[(ArchSmell, Explanation)]) -> (r: Vec<String>)
    ensures
        str_views(r@) == detector_ids(smells@),
{
    let mut r: Vec<String> = Vec::new();
    let mut i: usize = 0;
    while i < smells.len()
        invariant
            i <= smells@.len(),
            str_views(r@) == detector_ids(smells@.take(i as int)),
        decreases smells@.len() - i,
    {
        let ghost before = str_views(r@);
        r.push(smells[i].0.smell_type.detector_id());
        assert(str_views(r@) =~= before.push(detector_of(smells@[i as int].0.smell_type)));
        assert(detector_ids(smells@.take(i + 1)) =~= detector_ids(smells@.take(i as int)).push(
            detector_of(smells@[i as int].0.smell_type),
        ));
        i = i + 1;
    }
    assert(smells@.take(smells@.len() as int) =~= smells@);
    r
}

/// The smells grouped by the detector that reports them: one group per
/// detector, in the order its first smell comes, holding its smells in
/// order. Every smell is in the group of its detector, and in no other.
pub fn group_smells_by_detector(smells: Vec<(ArchSmell, Explanation)>) -> (r: Vec<(String, Vec<(ArchSmell, Explanation)>)>)
    ensures
        grouped_by_key(key_groups_view(r@), smells@, detector_ids(smells@)),
{
    let ids = detector_ids_of(smells.as_slice());
    group_by_keys(smells, &ids)
}

} // verus!
