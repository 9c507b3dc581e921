//! The dead symbols section: exported symbols that nothing uses.

use vstd::prelude::*;
use crate::detectors::{ArchSmell, Explanation, SmellType};
use crate::report::facts::{show_path, shown_path, SmellFacts};
use crate::report::location::{format_location_detail, location_text};
use crate::report::markdown::common::{lemma_table_rows_step, table_rows};
use crate::text::{append_str, decimal, push_char, push_decimal};

verus! {

/// Where a dead symbol is shown to be: its first place, else its first file,
/// else `unknown`.
pub open spec fn symbol_location(s: ArchSmell, f: SmellFacts) -> Seq<char> {
    if s.locations@.len() > 0 {
        let loc = s.locations@[0];
        location_text(shown_path(f.location_path, loc.file@), loc.line as nat, loc.column, loc.range, loc.description@)
    } else if s.files@.len() > 0 {
        shown_path(f.display_path, s.files@[0]@)
    } else {
        "unknown"@
    }
}

/// The row of a dead symbol: its place, name and kind; nothing for a smell
/// of another kind.
pub open spec fn dead_symbol_row(s: ArchSmell, f: SmellFacts) -> Seq<char> {
    match s.smell_type {
        SmellType::DeadSymbol { name, kind } => "| `"@ + symbol_location(s, f) + "` | `"@ + name@ + "` | "@ + kind@ + " |\n"@,
        _ => Seq::empty(),
    }
}

/// `dead_symbol_row`, as a function value.
pub open spec fn dead_symbol_row_fn() -> spec_fn(ArchSmell, SmellFacts) -> Seq<char> {
    |s: ArchSmell, f: SmellFacts| dead_symbol_row(s, f)
}

/// The dead symbols section: empty where there is no smell; else a heading
/// with the count and a table.
pub open spec fn dead_symbols_section(smells: Seq<(ArchSmell, Explanation)>, facts: Seq<SmellFacts>) -> Seq<char> {
    if smells.len() == 0 {
        Seq::empty()
    } else {
        "## Dead Symbols ("@ + decimal(smells.len()) + " symbols)\n\n"@ + "| Location | Symbol | Kind |\n"@
            + "|----------|--------|------|\n"@ + table_rows(smells, facts, dead_symbol_row_fn()) + seq!['\n']
    }
}

fn symbol_location_text(s: &ArchSmell, f: &SmellFacts) -> (r: String)
    ensures
        r@ == symbol_location(*s, *f),
{
    if s.locations.len() > 0 {
        let loc = &s.locations[0];
        let path = show_path(&f.location_path, loc.file.as_str());
        format_location_detail(loc, path.as_str())
    } else if s.files.len() > 0 {
        show_path(&f.display_path, s.files[0].as_str())
    } else {
        proof {
            reveal_strlit("unknown");
        }
        "unknown".to_owned()
    }
}

fn push_dead_symbol_row(out: &mut String, s: &ArchSmell, f: &SmellFacts)
    ensures
        final(out)@ == old(out)@ + dead_symbol_row(*s, *f),
{
    match &s.smell_type {
        SmellType::DeadSymbol { name, kind } => {
            let location = symbol_location_text(s, f);
            append_str(out, "| `");
            append_str(out, location.as_str());
            append_str(out, "` | `");
            append_str(out, name.as_str());
            append_str(out, "` | ");
            append_str(out, kind.as_str());
            append_str(out, " |\n");
            assert(out@ =~= old(out)@ + dead_symbol_row(*s, *f));
        },
        _ => {
            assert(out@ =~= old(out)@ + dead_symbol_row(*s, *f));
        },
    }
}

/// The Markdown section of the dead symbols `dead_symbols`, where `facts[i]`
/// holds what the report shows of the `i`-th.
pub fn generate(dead_symbols: &[(ArchSmell, Explanation)], facts: &[SmellFacts]) -> (r: String)
    requires
        facts@.len() == dead_symbols@.len(),
    ensures
        r@ == dead_symbols_section(dead_symbols@, facts@),
{
    if dead_symbols.len() == 0 {
        return String::new();
    }
    let mut output = "## Dead Symbols (".to_owned();
    push_decimal(&mut output, dead_symbols.len());
    append_str(&mut output, " symbols)\n\n");
    append_str(&mut output, "| Location | Symbol | Kind |\n");
    append_str(&mut output, "|----------|--------|------|\n");
    let ghost head = output@;
    let ghost sv = dead_symbols@;
    let mut i: usize = 0;
    assert(table_rows(sv.take(0), facts@, dead_symbol_row_fn()) =~= Seq::<char>::empty());
    assert(head + table_rows(sv.take(0), facts@, dead_symbol_row_fn()) =~= head);
    while i < dead_symbols.len()
        invariant
            i <= sv.len(),
            sv == dead_symbols@,
            facts@.len() == sv.len(),
            output@ == head + table_rows(sv.take(i as int), facts@, dead_symbol_row_fn()),
        decreases sv.len() - i,
    {
        push_dead_symbol_row(&mut output, &dead_symbols[i].0, &facts[i]);
        proof {
            lemma_table_rows_step(sv, facts@, dead_symbol_row_fn(), i as int);
        }
        i = i + 1;
    }
    push_char(&mut output, '\n');
    proof {
        assert(sv.take(sv.len() as int) =~= sv);
        reveal_strlit("## Dead Symbols (");
        reveal_strlit(" symbols)\n\n");
        reveal_strlit("| Location | Symbol | Kind |\n");
        reveal_strlit("|----------|--------|------|\n");
    }
    assert(output@ =~= dead_symbols_section(dead_symbols@, facts@));
    output
}

} // verus!
