//! The large files section.

use vstd::prelude::*;
use crate::detectors::{ArchSmell, Explanation, Severity};
use crate::report::facts::{or_zero, show_path, shown_path, SmellFacts};
use crate::report::markdown::common::{append_explanation, explanation_markdown, lemma_table_rows_step, table_rows};
use crate::text::{append_str, decimal, push_char, push_decimal};

verus! {

/// How a severity is shown in the table.
pub open spec fn severity_label(s: Severity) -> Seq<char> {
    match s {
        Severity::Low => "🔵 Low"@,
        Severity::Medium => "🟡 Medium"@,
        Severity::High => "🟠 High"@,
        Severity::Critical => "🔴 Critical"@,
    }
}

/// The row of a large file: its path, lines, severity and points; nothing
/// for a smell without files.
pub open spec fn large_file_row(s: ArchSmell, f: SmellFacts) -> Seq<char> {
    if s.files@.len() == 0 {
        Seq::empty()
    } else {
        "| `"@ + shown_path(f.display_path, s.files@[0]@) + "` | "@ + decimal(or_zero(f.lines)) + " | "@ + severity_label(
            f.effective_severity,
        ) + " ("@ + decimal(f.score as nat) + " pts) |\n"@
    }
}

/// `large_file_row`, as a function value.
pub open spec fn large_file_row_fn() -> spec_fn(ArchSmell, SmellFacts) -> Seq<char> {
    |s: ArchSmell, f: SmellFacts| large_file_row(s, f)
}

/// The large files section: empty where there is no smell; else a heading
/// with the count, the explanation of the first smell, and a table.
pub open spec fn large_files_section(smells: Seq<(ArchSmell, Explanation)>, facts: Seq<SmellFacts>) -> Seq<char> {
    if smells.len() == 0 {
        Seq::empty()
    } else {
        "## Large Files ("@ + decimal(smells.len()) + " files)\n\n"@ + explanation_markdown(smells[0].1)
            + "| File | Lines | Severity |\n"@ + "|------|-------|----------|\n"@ + table_rows(smells, facts, large_file_row_fn())
            + seq!['\n']
    }
}

fn push_severity(out: &mut String, s: Severity)
    ensures
        final(out)@ == old(out)@ + severity_label(s),
{
    match s {
        Severity::Low => append_str(out, "🔵 Low"),
        Severity::Medium => append_str(out, "🟡 Medium"),
        Severity::High => append_str(out, "🟠 High"),
        Severity::Critical => append_str(out, "🔴 Critical"),
    }
}

fn push_large_file_row(out: &mut String, s: &ArchSmell, f: &SmellFacts)
    ensures
        final(out)@ == old(out)@ + large_file_row(*s, *f),
{
    if s.files.len() == 0 {
        assert(out@ =~= old(out)@ + large_file_row(*s, *f));
        return;
    }
    let path = show_path(&f.display_path, s.files[0].as_str());
    append_str(out, "| `");
    append_str(out, path.as_str());
    append_str(out, "` | ");
    let lines = match f.lines {
        Some(l) => l,
        None => 0,
    };
    push_decimal(out, lines);
    append_str(out, " | ");
    push_severity(out, f.effective_severity);
    append_str(out, " (");
    push_decimal(out, f.score);
    append_str(out, " pts) |\n");
    assert(out@ =~= old(out)@ + large_file_row(*s, *f));
}

/// The Markdown section of the large files `large_files`, where `facts[i]`
/// holds what the report shows of the `i`-th.
pub fn generate(large_files: &[(ArchSmell, Explanation)], facts: &[SmellFacts]) -> (r: String)
    requires
        facts@.len() == large_files@.len(),
    ensures
        r@ == large_files_section(large_files@, facts@),
{
    if large_files.len() == 0 {
        return String::new();
    }
    let mut output = "## Large Files (".to_owned();
    push_decimal(&mut output, large_files.len());
    append_str(&mut output, " files)\n\n");
    append_explanation(&mut output, &large_files[0].1);
    append_str(&mut output, "| File | Lines | Severity |\n");
    append_str(&mut output, "|------|-------|----------|\n");
    let ghost head = output@;
    let ghost sv = large_files@;
    let mut i: usize = 0;
    assert(table_rows(sv.take(0), facts@, large_file_row_fn()) =~= Seq::<char>::empty());
    assert(head + table_rows(sv.take(0), facts@, large_file_row_fn()) =~= head);
    while i < large_files.len()
        invariant
            i <= sv.len(),
            sv == large_files@,
            facts@.len() == sv.len(),
            output@ == head + table_rows(sv.take(i as int), facts@, large_file_row_fn()),
        decreases sv.len() - i,
    {
        push_large_file_row(&mut output, &large_files[i].0, &facts[i]);
        proof {
            lemma_table_rows_step(sv, facts@, large_file_row_fn(), i as int);
        }
        i = i + 1;
    }
    push_char(&mut output, '\n');
    proof {
        assert(sv.take(sv.len() as int) =~= sv);
        reveal_strlit("## Large Files (");
        reveal_strlit(" files)\n\n");
        reveal_strlit("| File | Lines | Severity |\n");
        reveal_strlit("|------|-------|----------|\n");
    }
    assert(output@ =~= large_files_section(large_files@, facts@));
    output
}

} // verus!
