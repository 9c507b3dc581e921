//! The unstable interfaces section: files that change often and that many
//! files depend on.

use vstd::prelude::*;
use crate::detectors::{ArchSmell, Explanation};
use crate::report::facts::{or_zero, show_path, shown_path, SmellFacts};
use crate::report::markdown::common::{append_explanation, explanation_markdown, lemma_table_rows_step, table_rows};
use crate::text::{append_str, decimal, push_char, push_decimal};

verus! {

/// The row of an unstable interface: its path, churn, dependants,
/// instability score and points; nothing for a smell without files.
pub open spec fn unstable_row(s: ArchSmell, f: SmellFacts) -> Seq<char> {
    if s.files@.len() == 0 {
        Seq::empty()
    } else {
        "| `"@ + shown_path(f.display_path, s.files@[0]@) + "` | "@ + decimal(or_zero(f.churn)) + " | "@ + decimal(
            or_zero(f.fan_in),
        ) + " | "@ + decimal(or_zero(f.instability_score)) + " | "@ + decimal(f.score as nat) + " pts |\n"@
    }
}

/// `unstable_row`, as a function value.
pub open spec fn unstable_row_fn() -> spec_fn(ArchSmell, SmellFacts) -> Seq<char> {
    |s: ArchSmell, f: SmellFacts| unstable_row(s, f)
}

/// The unstable interfaces section: empty where there is no smell; else a
/// heading with the count, the explanation of the first smell, and a table.
pub open spec fn unstable_section(smells: Seq<(ArchSmell, Explanation)>, facts: Seq<SmellFacts>) -> Seq<char> {
    if smells.len() == 0 {
        Seq::empty()
    } else {
        "## Unstable Interfaces ("@ + decimal(smells.len()) + " files)\n\n"@ + explanation_markdown(smells[0].1)
            + "| File | Churn | Dependants | Score | pts |\n"@ + "|------|-------|------------|-------|-----|\n"@ + table_rows(
            smells,
            facts,
            unstable_row_fn(),
        ) + seq!['\n']
    }
}

fn push_count(out: &mut String, o: Option<usize>)
    ensures
        final(out)@ == old(out)@ + decimal(or_zero(o)),
{
    let v = match o {
        Some(v) => v,
        None => 0,
    };
    push_decimal(out, v);
}

fn push_unstable_row(out: &mut String, s: &ArchSmell, f: &SmellFacts)
    ensures
        final(out)@ == old(out)@ + unstable_row(*s, *f),
{
    if s.files.len() == 0 {
        assert(out@ =~= old(out)@ + unstable_row(*s, *f));
        return;
    }
    let path = show_path(&f.display_path, s.files[0].as_str());
    append_str(out, "| `");
    append_str(out, path.as_str());
    append_str(out, "` | ");
    push_count(out, f.churn);
    append_str(out, " | ");
    push_count(out, f.fan_in);
    append_str(out, " | ");
    push_count(out, f.instability_score);
    append_str(out, " | ");
    push_decimal(out, f.score);
    append_str(out, " pts |\n");
    assert(out@ =~= old(out)@ + unstable_row(*s, *f));
}

/// The Markdown section of the unstable interfaces `unstable_interfaces`,
/// where `facts[i]` holds what the report shows of the `i`-th.
pub fn generate(unstable_interfaces: &[(ArchSmell, Explanation)], facts: &[SmellFacts]) -> (r: String)
    requires
        facts@.len() == unstable_interfaces@.len(),
    ensures
        r@ == unstable_section(unstable_interfaces@, facts@),
{
    if unstable_interfaces.len() == 0 {
        return String::new();
    }
    let mut output = "## Unstable Interfaces (".to_owned();
    push_decimal(&mut output, unstable_interfaces.len());
    append_str(&mut output, " files)\n\n");
    append_explanation(&mut output, &unstable_interfaces[0].1);
    append_str(&mut output, "| File | Churn | Dependants | Score | pts |\n");
    append_str(&mut output, "|------|-------|------------|-------|-----|\n");
    let ghost head = output@;
    let ghost sv = unstable_interfaces@;
    let mut i: usize = 0;
    assert(table_rows(sv.take(0), facts@, unstable_row_fn()) =~= Seq::<char>::empty());
    assert(head + table_rows(sv.take(0), facts@, unstable_row_fn()) =~= head);
    while i < unstable_interfaces.len()
        invariant
            i <= sv.len(),
            sv == unstable_interfaces@,
            facts@.len() == sv.len(),
            output@ == head + table_rows(sv.take(i as int), facts@, unstable_row_fn()),
        decreases sv.len() - i,
    {
        push_unstable_row(&mut output, &unstable_interfaces[i].0, &facts[i]);
        proof {
            lemma_table_rows_step(sv, facts@, unstable_row_fn(), i as int);
        }
        i = i + 1;
    }
    push_char(&mut output, '\n');
    proof {
        assert(sv.take(sv.len() as int) =~= sv);
        reveal_strlit("## Unstable Interfaces (");
        reveal_strlit(" files)\n\n");
        reveal_strlit("| File | Churn | Dependants | Score | pts |\n");
        reveal_strlit("|------|-------|------------|-------|-----|\n");
    }
    assert(output@ =~= unstable_section(unstable_interfaces@, facts@));
    output
}

} // verus!
