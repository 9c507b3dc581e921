//! The high complexity section: functions that are hard to follow.

use vstd::prelude::*;
use crate::detectors::{ArchSmell, Explanation, SmellType};
use crate::report::facts::{or_zero, show_path, shown_path, SmellFacts};
use crate::report::location::{format_location, format_location_detail, location_text, simple_location_text};
use crate::report::markdown::common::{lemma_table_rows_step, table_rows};
use crate::text::{append_str, decimal, push_char, push_decimal};

verus! {

/// Where a complex function is shown to be: its first place, else its first
/// file at the function's line.
pub open spec fn function_location(s: ArchSmell, f: SmellFacts, line: usize) -> Seq<char> {
    if s.locations@.len() > 0 {
        let loc = s.locations@[0];
        location_text(shown_path(f.location_path, loc.file@), loc.line as nat, loc.column, loc.range, loc.description@)
    } else {
        simple_location_text(shown_path(f.display_path, s.files@[0]@), line as nat, None)
    }
}

/// The row of a complex function: its place, name, complexity and points;
/// nothing for a smell of another kind or without files.
pub open spec fn complexity_row(s: ArchSmell, f: SmellFacts) -> Seq<char> {
    match s.smell_type {
        SmellType::HighComplexity { name, line, .. } => if s.files@.len() > 0 {
            "| `"@ + function_location(s, f, line) + "` | `"@ + name@ + "` | "@ + decimal(or_zero(f.complexity)) + " | "@
                + decimal(f.score as nat) + " pts |\n"@
        } else {
            Seq::empty()
        },
        _ => Seq::empty(),
    }
}

/// `complexity_row`, as a function value.
pub open spec fn complexity_row_fn() -> spec_fn(ArchSmell, SmellFacts) -> Seq<char> {
    |s: ArchSmell, f: SmellFacts| complexity_row(s, f)
}

/// The high complexity section: empty where there is no smell; else a
/// heading with the count and a table.
pub open spec fn complexity_section(smells: Seq<(ArchSmell, Explanation)>, facts: Seq<SmellFacts>) -> Seq<char> {
    if smells.len() == 0 {
        Seq::empty()
    } else {
        "## High Complexity Functions ("@ + decimal(smells.len()) + " functions)\n\n"@
            + "| Location | Function | Complexity | Score |\n"@ + "|----------|----------|------------|-------|\n"@
            + table_rows(smells, facts, complexity_row_fn()) + seq!['\n']
    }
}

fn push_complexity_row(out: &mut String, s: &ArchSmell, f: &SmellFacts)
    ensures
        final(out)@ == old(out)@ + complexity_row(*s, *f),
{
    match &s.smell_type {
        SmellType::HighComplexity { name, line, .. } => {
            if s.files.len() == 0 {
                assert(out@ =~= old(out)@ + complexity_row(*s, *f));
                return;
            }
            let location = if s.locations.len() > 0 {
                let loc = &s.locations[0];
                let path = show_path(&f.location_path, loc.file.as_str());
                format_location_detail(loc, path.as_str())
            } else {
                let path = show_path(&f.display_path, s.files[0].as_str());
                format_location(path.as_str(), *line, None)
            };
            append_str(out, "| `");
            append_str(out, location.as_str());
            append_str(out, "` | `");
            append_str(out, name.as_str());
            append_str(out, "` | ");
            let c = match f.complexity {
                Some(c) => c,
                None => 0,
            };
            push_decimal(out, c);
            append_str(out, " | ");
            push_decimal(out, f.score);
            append_str(out, " pts |\n");
            assert(out@ =~= old(out)@ + complexity_row(*s, *f));
        },
        _ => {
            assert(out@ =~= old(out)@ + complexity_row(*s, *f));
        },
    }
}

/// The Markdown section of the complex functions `high_complexity`, where
/// `facts[i]` holds what the report shows of the `i`-th.
pub fn generate(high_complexity: &[(ArchSmell, Explanation)], facts: &[SmellFacts]) -> (r: String)
    requires
        facts@.len() == high_complexity@.len(),
    ensures
        r@ == complexity_section(high_complexity@, facts@),
{
    if high_complexity.len() == 0 {
        return String::new();
    }
    let mut output = "## High Complexity Functions (".to_owned();
    push_decimal(&mut output, high_complexity.len());
    append_str(&mut output, " functions)\n\n");
    append_str(&mut output, "| Location | Function | Complexity | Score |\n");
    append_str(&mut output, "|----------|----------|------------|-------|\n");
    let ghost head = output@;
    let ghost sv = high_complexity@;
    let mut i: usize = 0;
    assert(table_rows(sv.take(0), facts@, complexity_row_fn()) =~= Seq::<char>::empty());
    assert(head + table_rows(sv.take(0), facts@, complexity_row_fn()) =~= head);
    while i < high_complexity.len()
        invariant
            i <= sv.len(),
            sv == high_complexity@,
            facts@.len() == sv.len(),
            output@ == head + table_rows(sv.take(i as int), facts@, complexity_row_fn()),
        decreases sv.len() - i,
    {
        push_complexity_row(&mut output, &high_complexity[i].0, &facts[i]);
        proof {
            lemma_table_rows_step(sv, facts@, complexity_row_fn(), i as int);
        }
        i = i + 1;
    }
    push_char(&mut output, '\n');
    proof {
        assert(sv.take(sv.len() as int) =~= sv);
        reveal_strlit("## High Complexity Functions (");
        reveal_strlit(" functions)\n\n");
        reveal_strlit("| Location | Function | Complexity | Score |\n");
        reveal_strlit("|----------|----------|------------|-------|\n");
    }
    assert(output@ =~= complexity_section(high_complexity@, facts@));
    output
}

} // verus!
