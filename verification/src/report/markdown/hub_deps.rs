//! The hub dependencies section: packages that many files depend on.

use vstd::prelude::*;
use crate::detectors::{ArchSmell, Explanation, SmellType};
use crate::report::facts::{or_zero, SmellFacts};
use crate::report::markdown::common::{append_explanation, explanation_markdown, lemma_table_rows_step, table_rows};
use crate::text::{append_str, decimal, push_char, push_decimal};

verus! {

/// The row of a hub dependency: the package, its dependants and its points;
/// nothing for a smell of another kind.
pub open spec fn hub_row(s: ArchSmell, f: SmellFacts) -> Seq<char> {
    match s.smell_type {
        SmellType::HubDependency { package } => "| `"@ + package@ + "` | "@ + decimal(or_zero(f.dependant_count)) + " files | "@
            + decimal(f.score as nat) + " pts |\n"@,
        _ => Seq::empty(),
    }
}

/// `hub_row`, as a function value.
pub open spec fn hub_row_fn() -> spec_fn(ArchSmell, SmellFacts) -> Seq<char> {
    |s: ArchSmell, f: SmellFacts| hub_row(s, f)
}

/// The hub dependencies section: empty where there is no smell; else a
/// heading with the count, the explanation of the first smell, and a table.
pub open spec fn hub_section(smells: Seq<(ArchSmell, Explanation)>, facts: Seq<SmellFacts>) -> Seq<char> {
    if smells.len() == 0 {
        Seq::empty()
    } else {
        "## Hub Dependencies ("@ + decimal(smells.len()) + " packages)\n\n"@ + explanation_markdown(smells[0].1)
            + "| Package | Dependants | pts |\n"@ + "|---------|------------|-----|\n"@ + table_rows(smells, facts, hub_row_fn())
            + seq!['\n']
    }
}

/// Appends the row of a hub dependency.
fn push_hub_row(out: &mut String, s: &ArchSmell, f: &SmellFacts)
    ensures
        final(out)@ == old(out)@ + hub_row(*s, *f),
{
    match &s.smell_type {
        SmellType::HubDependency { package } => {
            append_str(out, "| `");
            append_str(out, package.as_str());
            append_str(out, "` | ");
            let count = match f.dependant_count {
                Some(c) => c,
                None => 0,
            };
            push_decimal(out, count);
            append_str(out, " files | ");
            push_decimal(out, f.score);
            append_str(out, " pts |\n");
            assert(out@ =~= old(out)@ + hub_row(*s, *f));
        },
        _ => {
            assert(out@ =~= old(out)@ + hub_row(*s, *f));
        },
    }
}

/// The Markdown section of the hub dependencies `hub_dependencies`, where
/// `facts[i]` holds what the report shows of the `i`-th.
pub fn generate(hub_dependencies: &[(ArchSmell, Explanation)], facts: &[SmellFacts]) -> (r: String)
    requires
        facts@.len() == hub_dependencies@.len(),
    ensures
        r@ == hub_section(hub_dependencies@, facts@),
{
    if hub_dependencies.len() == 0 {
        return String::new();
    }
    let mut output = "## Hub Dependencies (".to_owned();
    push_decimal(&mut output, hub_dependencies.len());
    append_str(&mut output, " packages)\n\n");
    append_explanation(&mut output, &hub_dependencies[0].1);
    append_str(&mut output, "| Package | Dependants | pts |\n");
    append_str(&mut output, "|---------|------------|-----|\n");
    let ghost head = output@;
    let ghost sv = hub_dependencies@;
    let mut i: usize = 0;
    assert(table_rows(sv.take(0), facts@, hub_row_fn()) =~= Seq::<char>::empty());
    assert(head + table_rows(sv.take(0), facts@, hub_row_fn()) =~= head);
    while i < hub_dependencies.len()
        invariant
            i <= sv.len(),
            sv == hub_dependencies@,
            facts@.len() == sv.len(),
            output@ == head + table_rows(sv.take(i as int), facts@, hub_row_fn()),
        decreases sv.len() - i,
    {
        push_hub_row(&mut output, &hub_dependencies[i].0, &facts[i]);
        proof {
            lemma_table_rows_step(sv, facts@, hub_row_fn(), i as int);
        }
        i = i + 1;
    }
    push_char(&mut output, '\n');
    proof {
        assert(sv.take(sv.len() as int) =~= sv);
        reveal_strlit("## Hub Dependencies (");
        reveal_strlit(" packages)\n\n");
        reveal_strlit("| Package | Dependants | pts |\n");
        reveal_strlit("|---------|------------|-----|\n");
    }
    assert(output@ =~= hub_section(hub_dependencies@, facts@));
    output
}

} // verus!
