//! The feature envy section: files that use another module more than their
//! own.

use vstd::prelude::*;
use crate::detectors::{ArchSmell, Explanation, SmellType};
use crate::report::facts::{show, shown, text_or, SmellFacts};
use crate::report::markdown::common::{append_explanation, explanation_markdown, lemma_table_rows_step, table_rows};
use crate::text::{append_str, decimal, push_char, push_decimal};

verus! {

/// The module a file envies, as the report writes it; `unknown` for a smell
/// of another kind.
pub open spec fn envied_module(s: ArchSmell, f: SmellFacts) -> Seq<char> {
    match s.smell_type {
        SmellType::FeatureEnvy { most_envied_module } => shown(f, most_envied_module@),
        _ => "unknown"@,
    }
}

/// The row of a file with feature envy: its path, the module it envies, the
/// ratio and its points; nothing for a smell without files.
pub open spec fn envy_row(s: ArchSmell, f: SmellFacts) -> Seq<char> {
    if s.files@.len() == 0 {
        Seq::empty()
    } else {
        "| `"@ + shown(f, s.files@[0]@) + "` | `"@ + envied_module(s, f) + "` | "@ + text_or(f.ratio_text, "0.0"@)
            + "x | "@ + decimal(f.score as nat) + " pts |\n"@
    }
}

/// `envy_row`, as a function value.
pub open spec fn envy_row_fn() -> spec_fn(ArchSmell, SmellFacts) -> Seq<char> {
    |s: ArchSmell, f: SmellFacts| envy_row(s, f)
}

/// The feature envy section: empty where there is no smell; else a heading
/// with the count, the explanation of the first smell, and a table.
pub open spec fn envy_section(smells: Seq<(ArchSmell, Explanation)>, facts: Seq<SmellFacts>) -> Seq<char> {
    if smells.len() == 0 {
        Seq::empty()
    } else {
        "## Feature Envy ("@ + decimal(smells.len()) + " files)\n\n"@ + explanation_markdown(smells[0].1)
            + "| File | Envied Module | Ratio | pts |\n"@ + "|------|---------------|-------|-----|\n"@ + table_rows(
            smells,
            facts,
            envy_row_fn(),
        ) + seq!['\n']
    }
}

fn push_envy_row(out: &mut String, s: &ArchSmell, f: &SmellFacts)
    ensures
        final(out)@ == old(out)@ + envy_row(*s, *f),
{
    if s.files.len() == 0 {
        assert(out@ =~= old(out)@ + envy_row(*s, *f));
        return;
    }
    let path = show(f, s.files[0].as_str());
    let envied = match &s.smell_type {
        SmellType::FeatureEnvy { most_envied_module } => show(f, most_envied_module.as_str()),
        _ => {
            proof {
                reveal_strlit("unknown");
            }
            "unknown".to_owned()
        },
    };
    append_str(out, "| `");
    append_str(out, path.as_str());
    append_str(out, "` | `");
    append_str(out, envied.as_str());
    append_str(out, "` | ");
    match &f.ratio_text {
        Some(t) => append_str(out, t.as_str()),
        None => append_str(out, "0.0"),
    }
    append_str(out, "x | ");
    push_decimal(out, f.score);
    append_str(out, " pts |\n");
    assert(out@ =~= old(out)@ + envy_row(*s, *f));
}

/// The Markdown section of the files with feature envy `feature_envy`, where
/// `facts[i]` holds what the report shows of the `i`-th.
pub fn generate(feature_envy: &[(ArchSmell, Explanation)], facts: &[SmellFacts]) -> (r: String)
    requires
        facts@.len() == feature_envy@.len(),
    ensures
        r@ == envy_section(feature_envy@, facts@),
{
    if feature_envy.len() == 0 {
        return String::new();
    }
    let mut output = "## Feature Envy (".to_owned();
    push_decimal(&mut output, feature_envy.len());
    append_str(&mut output, " files)\n\n");
    append_explanation(&mut output, &feature_envy[0].1);
    append_str(&mut output, "| File | Envied Module | Ratio | pts |\n");
    append_str(&mut output, "|------|---------------|-------|-----|\n");
    let ghost head = output@;
    let ghost sv = feature_envy@;
    let mut i: usize = 0;
    assert(table_rows(sv.take(0), facts@, envy_row_fn()) =~= Seq::<char>::empty());
    assert(head + table_rows(sv.take(0), facts@, envy_row_fn()) =~= head);
    while i < feature_envy.len()
        invariant
            i <= sv.len(),
            sv == feature_envy@,
            facts@.len() == sv.len(),
            output@ == head + table_rows(sv.take(i as int), facts@, envy_row_fn()),
        decreases sv.len() - i,
    {
        push_envy_row(&mut output, &feature_envy[i].0, &facts[i]);
        proof {
            lemma_table_rows_step(sv, facts@, envy_row_fn(), i as int);
        }
        i = i + 1;
    }
    push_char(&mut output, '\n');
    proof {
        assert(sv.take(sv.len() as int) =~= sv);
        reveal_strlit("## Feature Envy (");
        reveal_strlit(" files)\n\n");
    }
    assert(output@ =~= envy_section(feature_envy@, facts@));
    output
}

} // verus!
