//! Markdown sections of the report.

pub mod common;
pub mod cycles;
pub mod dead_code;
pub mod hub_deps;
pub mod large_files;
pub mod summary;
pub mod surgery;
pub mod unstable;
pub mod dead_symbols;
pub mod envy;
pub mod god_modules;
pub mod complexity;

use vstd::prelude::*;
use crate::report::markdown::summary::summary_section;
use crate::detectors::{ArchSmell, Explanation};
use crate::report::facts::SmellFacts;
use crate::report::markdown::common::{
    detector_ids, detector_ids_of, dir_entries, directory_groups, first_keys, group_by_keys, grouped_by_key,
    key_groups_view, lemma_first_keys_distinct, select,
};
use crate::report::markdown::complexity::complexity_section;
use crate::report::markdown::dead_code::dead_code_section;
use crate::report::markdown::dead_symbols::dead_symbols_section;
use crate::report::markdown::envy::envy_section;
use crate::report::markdown::god_modules::god_section;
use crate::report::markdown::surgery::surgery_section;
use crate::report::markdown::hub_deps::hub_section;
use crate::report::markdown::large_files::large_files_section;
use crate::report::markdown::unstable::unstable_section;
use crate::report::severity::{total_points, total_score, SeverityWeights};
use crate::report::summary::{counts_match, GradeLevel, SmellCounts};
use crate::snapshot::smell_text::pair_views;
use crate::text::{append_str, str_eq, str_views};

verus! {

/// The detectors whose sections the report holds, in the order it holds them.
pub open spec fn report_order() -> Seq<Seq<char>> {
    seq![
        "cycles"@, "god_module"@, "dead_code"@, "dead_symbols"@, "complexity"@, "large_file"@,
        "unstable_interface"@, "feature_envy"@, "shotgun_surgery"@, "hub_dependency"@, "barrel_file"@,
        "vendor_coupling"@, "side_effect_import"@, "hub_module"@, "lcom"@, "module_cohesion"@,
        "high_coupling"@, "package_cycles"@, "shared_mutable_state"@, "deep_nesting"@, "long_params"@,
        "primitive_obsession"@, "orphan_types"@, "circular_type_deps"@, "abstractness"@,
        "scattered_config"@, "code_clone"@, "test_leakage"@, "layer_violation"@, "sdp_violation"@,
    ]
}

/// The section rendered for detector `id` in `sections`, (detector, section)
/// pairs: that of the first pair for `id`, or nothing where there is none.
pub open spec fn section_for(sections: Seq<(Seq<char>, Seq<char>)>, id: Seq<char>) -> Seq<char>
    decreases sections.len(),
{
    if sections.len() == 0 {
        Seq::empty()
    } else if sections[0].0 == id {
        sections[0].1
    } else {
        section_for(sections.drop_first(), id)
    }
}

/// The text that stands for a diagram in the report: a heading, then the
/// chart and a blank line where the chart is not empty; nothing where no
/// diagram was asked for.
pub open spec fn diagram_part(diagram: Option<Seq<char>>) -> Seq<char> {
    match diagram {
        Some(d) => "## Dependency Graph (Problem Files)\n\n"@ + if d.len() > 0 {
            d.push('\n')
        } else {
            Seq::empty()
        },
        None => Seq::empty(),
    }
}

/// The section of detector `id` for its smells `group`, where `facts[i]`
/// holds what the report shows of `group[i]`: the sections of god modules,
/// dead code, dead symbols, complex functions, large files, unstable
/// interfaces, feature envy, shotgun surgery and hub dependencies are laid
/// out here; any other detector's section is the one it rendered, in
/// `rendered`.
pub open spec fn section_text(
    id: Seq<char>,
    group: Seq<(ArchSmell, Explanation)>,
    facts: Seq<SmellFacts>,
    rendered: Seq<(Seq<char>, Seq<char>)>,
) -> Seq<char> {
    if id == "dead_code"@ {
        dead_code_section(group, directory_groups(dir_entries(group)))
    } else if id == "dead_symbols"@ {
        dead_symbols_section(group, facts)
    } else if id == "complexity"@ {
        complexity_section(group, facts)
    } else if id == "large_file"@ {
        large_files_section(group, facts)
    } else if id == "unstable_interface"@ {
        unstable_section(group, facts)
    } else if id == "hub_dependency"@ {
        hub_section(group, facts)
    } else if id == "god_module"@ {
        god_section(group, facts)
    } else if id == "feature_envy"@ {
        envy_section(group, facts)
    } else if id == "shotgun_surgery"@ {
        surgery_section(group, facts)
    } else {
        section_for(rendered, id)
    }
}

/// The section of detector `id` in the report of `smells`: nothing where it
/// reports none of them, else its section for the smells it reports.
pub open spec fn detector_section(
    id: Seq<char>,
    smells: Seq<(ArchSmell, Explanation)>,
    facts: Seq<SmellFacts>,
    rendered: Seq<(Seq<char>, Seq<char>)>,
) -> Seq<char> {
    let ks = detector_ids(smells);
    if !ks.contains(id) {
        Seq::empty()
    } else {
        section_text(id, select(smells, ks, id), select(facts, ks, id), rendered)
    }
}

/// The sections of the detectors of `order`, in that order.
pub open spec fn ordered_sections(
    order: Seq<Seq<char>>,
    smells: Seq<(ArchSmell, Explanation)>,
    facts: Seq<SmellFacts>,
    rendered: Seq<(Seq<char>, Seq<char>)>,
) -> Seq<char>
    decreases order.len(),
{
    if order.len() == 0 {
        Seq::empty()
    } else {
        ordered_sections(order.drop_last(), smells, facts, rendered) + detector_section(
            order.last(),
            smells,
            facts,
            rendered,
        )
    }
}

/// The Markdown report: the summary, then, where there are no smells, a line
/// that says so; else the diagram, if any, and the detectors' sections in the
/// report's order.
pub open spec fn markdown_report(summary: Seq<char>, has_smells: bool, diagram: Option<Seq<char>>, body: Seq<char>) -> Seq<char> {
    if !has_smells {
        summary + "\u{2705} No architectural smells detected!\n"@
    } else {
        summary + diagram_part(diagram) + body
    }
}

fn report_order_ids() -> (r: Vec<&'static str>)
    ensures
        r@.map_values(|s: &str| s@) == report_order(),
{
    let r = vec![
        "cycles", "god_module", "dead_code", "dead_symbols", "complexity", "large_file",
        "unstable_interface", "feature_envy", "shotgun_surgery", "hub_dependency", "barrel_file",
        "vendor_coupling", "side_effect_import", "hub_module", "lcom", "module_cohesion",
        "high_coupling", "package_cycles", "shared_mutable_state", "deep_nesting", "long_params",
        "primitive_obsession", "orphan_types", "circular_type_deps", "abstractness",
        "scattered_config", "code_clone", "test_leakage", "layer_violation", "sdp_violation",
    ];
    assert(r@.map_values(|s: &str| s@) =~= report_order());
    r
}

/// The section rendered for detector `id`.
pub fn find_section<'a>(sections: &'a [(String, String)], id: &str) -> (r: Option<&'a String>)
    ensures
        match r {
            Some(s) => s@ == section_for(pair_views(sections@), id@),
            None => section_for(pair_views(sections@), id@) == Seq::<char>::empty(),
        },
{
    let ghost ps = pair_views(sections@);
    let mut i: usize = 0;
    assert(ps.skip(0) =~= ps);
    while i < sections.len()
        invariant
            i <= sections@.len(),
            ps == pair_views(sections@),
            section_for(ps, id@) == section_for(ps.skip(i as int), id@),
        decreases sections@.len() - i,
    {
        assert(ps.skip(i as int)[0] == ps[i as int]);
        if str_eq(sections[i].0.as_str(), id) {
            return Some(&sections[i].1);
        }
        assert(ps.skip(i as int).drop_first() =~= ps.skip(i + 1));
        i = i + 1;
    }
    assert(ps.skip(i as int).len() == 0);
    None
}

proof fn lemma_select_same_len<A, B>(a: Seq<A>, b: Seq<B>, keys: Seq<Seq<char>>, key: Seq<char>)
    requires
        a.len() == keys.len(),
        b.len() == keys.len(),
    ensures
        select(a, keys, key).len() == select(b, keys, key).len(),
    decreases keys.len(),
{
    if keys.len() > 0 {
        lemma_select_same_len(a.drop_last(), b.drop_last(), keys.drop_last(), key);
    }
}

/// Finds the group of detector `id`, if any.
fn find_group<T>(groups: &Vec<(String, Vec<T>)>, id: &str) -> (r: Option<usize>)
    ensures
        match r {
            Some(g) => g < groups@.len() && groups@[g as int].0@ == id@,
            None => forall|g: int| 0 <= g < groups@.len() ==> (#[trigger] groups@[g]).0@ != id@,
        },
{
    let mut g: usize = 0;
    while g < groups.len()
        invariant
            g <= groups@.len(),
            forall|a: int| 0 <= a < g ==> (#[trigger] groups@[a]).0@ != id@,
        decreases groups@.len() - g,
    {
        if str_eq(groups[g].0.as_str(), id) {
            return Some(g);
        }
        g = g + 1;
    }
    None
}

fn render_section(
    id: &str,
    group: &[(ArchSmell, Explanation)],
    facts: &[SmellFacts],
    rendered: &[(String, String)],
) -> (r: String)
    requires
        group@.len() == facts@.len(),
    ensures
        r@ == section_text(id@, group@, facts@, pair_views(rendered@)),
{
    proof {
        reveal_strlit("dead_code");
        reveal_strlit("dead_symbols");
        reveal_strlit("complexity");
        reveal_strlit("large_file");
        reveal_strlit("unstable_interface");
        reveal_strlit("hub_dependency");
        reveal_strlit("god_module");
        reveal_strlit("feature_envy");
        reveal_strlit("shotgun_surgery");
    }
    if str_eq(id, "dead_code") {
        dead_code::generate(group)
    } else if str_eq(id, "dead_symbols") {
        dead_symbols::generate(group, facts)
    } else if str_eq(id, "complexity") {
        complexity::generate(group, facts)
    } else if str_eq(id, "large_file") {
        large_files::generate(group, facts)
    } else if str_eq(id, "unstable_interface") {
        unstable::generate(group, facts)
    } else if str_eq(id, "hub_dependency") {
        hub_deps::generate(group, facts)
    } else if str_eq(id, "god_module") {
        god_modules::generate(group, facts)
    } else if str_eq(id, "feature_envy") {
        envy::generate(group, facts)
    } else if str_eq(id, "shotgun_surgery") {
        surgery::generate(group, facts)
    } else {
        match find_section(rendered, id) {
            Some(t) => t.clone(),
            None => String::new(),
        }
    }
}

fn append_detector_section(
    output: &mut String,
    id: &str,
    smell_groups: &Vec<(String, Vec<(ArchSmell, Explanation)>)>,
    fact_groups: &Vec<(String, Vec<SmellFacts>)>,
    rendered: &[(String, String)],
    Ghost(sv): Ghost<Seq<(ArchSmell, Explanation)>>,
    Ghost(fv): Ghost<Seq<SmellFacts>>,
)
    requires
        fv.len() == sv.len(),
        grouped_by_key(key_groups_view(smell_groups@), sv, detector_ids(sv)),
        grouped_by_key(key_groups_view(fact_groups@), fv, detector_ids(sv)),
    ensures
        final(output)@ == old(output)@ + detector_section(id@, sv, fv, pair_views(rendered@)),
{
    let ghost ks = detector_ids(sv);
    proof {
        lemma_first_keys_distinct(ks);
    }
    match find_group(smell_groups, id) {
        Some(g) => {
            proof {
                let kg = key_groups_view(smell_groups@);
                let fg = key_groups_view(fact_groups@);
                assert(kg[g as int].0 == first_keys(ks)[g as int]);
                assert(fg[g as int].0 == first_keys(ks)[g as int]);
                assert(ks.contains(id@));
                lemma_select_same_len(sv, fv, ks, id@);
            }
            assert(fact_groups@[g as int].0@ == id@);
            let t = render_section(id, smell_groups[g].1.as_slice(), fact_groups[g].1.as_slice(), rendered);
            append_str(output, t.as_str());
        },
        None => {
            proof {
                assert(!ks.contains(id@)) by {
                    if ks.contains(id@) {
                        let w = choose|w: int| 0 <= w < ks.len() && ks[w] == id@;
                        assert(first_keys(ks).contains(ks[w]));
                        let v = choose|v: int| 0 <= v < first_keys(ks).len() && first_keys(ks)[v] == ks[w];
                        assert(key_groups_view(smell_groups@)[v].0 == first_keys(ks)[v]);
                    }
                }
            }
            assert(output@ =~= old(output)@ + detector_section(id@, sv, fv, pair_views(rendered@)));
        },
    }
}

/// The Markdown report of `smells`, where `facts[i]` holds what the report
/// shows of `smells[i]`. Its summary shows `counts` of the smells, the files
/// analysed, the points of all smells under `weights`, and the grade (its
/// score and density as written); `diagram` is the chart of the problem
/// files where one was asked for and could be drawn. The smells are grouped
/// by detector, and each detector's section follows in the report's order:
/// those of god modules, dead code, dead symbols, complex functions, large
/// files, unstable interfaces, feature envy, shotgun surgery and hub
/// dependencies laid out here, those of the other detectors as they rendered
/// them (`rendered`, by detector id).
#[verifier::rlimit(50)]
pub fn generate_markdown(
    smells: Vec<(ArchSmell, Explanation)>,
    facts: Vec<SmellFacts>,
    counts: &SmellCounts,
    files_analyzed: usize,
    weights: &SeverityWeights,
    score_text: &str,
    level: GradeLevel,
    density_text: &str,
    diagram: Option<&str>,
    rendered: &[(String, String)],
) -> (r: String)
    requires
        counts_match(*counts, smells@),
        facts@.len() == smells@.len(),
        total_points(smells@, *weights) <= u32::MAX,
    ensures
        r@ == markdown_report(
            summary_section(
                *counts,
                files_analyzed as nat,
                total_points(smells@, *weights),
                score_text@,
                level,
                density_text@,
            ),
            smells@.len() > 0,
            match diagram {
                Some(d) => Some(d@),
                None => None,
            },
            ordered_sections(report_order(), smells@, facts@, pair_views(rendered@)),
        ),
{
    let ghost sv = smells@;
    let ghost fv = facts@;
    let total = total_score(smells.as_slice(), weights) as usize;
    let mut output = summary::generate(counts, files_analyzed, total, score_text, level, density_text);
    if smells.len() == 0 {
        append_str(&mut output, "\u{2705} No architectural smells detected!\n");
        return output;
    }
    let ids = detector_ids_of(smells.as_slice());
    assert(ids@.len() == str_views(ids@).len());
    let smell_groups = group_by_keys(smells, &ids);
    let fact_groups = group_by_keys(facts, &ids);
    match diagram {
        Some(d) => {
            append_str(&mut output, "## Dependency Graph (Problem Files)\n\n");
            if d.unicode_len() > 0 {
                append_str(&mut output, d);
                crate::text::push_char(&mut output, '\n');
            }
        },
        None => {},
    }
    let ghost head = output@;
    let ghost rv = pair_views(rendered@);
    let order = report_order_ids();
    let ghost ov = order@.map_values(|s: &str| s@);
    let mut i: usize = 0;
    while i < order.len()
        invariant
            i <= order@.len(),
            ov == order@.map_values(|s: &str| s@),
            rv == pair_views(rendered@),
            fv.len() == sv.len(),
            grouped_by_key(key_groups_view(smell_groups@), sv, detector_ids(sv)),
            grouped_by_key(key_groups_view(fact_groups@), fv, detector_ids(sv)),
            output@ == head + ordered_sections(ov.take(i as int), sv, fv, rv),
        decreases order@.len() - i,
    {
        assert(ov.take(i + 1).drop_last() =~= ov.take(i as int));
        append_detector_section(&mut output, order[i], &smell_groups, &fact_groups, rendered, Ghost(sv), Ghost(fv));
        assert(output@ =~= head + ordered_sections(ov.take(i + 1), sv, fv, rv));
        i = i + 1;
    }
    assert(ov.take(order@.len() as int) =~= ov);
    output
}

} // verus!
