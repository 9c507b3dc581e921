//! The heading and summary table that open the Markdown report.

use vstd::prelude::*;
use crate::report::summary::{GradeLevel, SmellCounts};
use crate::text::{append_str, decimal, push_decimal};

verus! {

/// The name of a grade level.
pub open spec fn grade_level_name(l: GradeLevel) -> Seq<char> {
    match l {
        GradeLevel::Excellent => "Excellent"@,
        GradeLevel::Good => "Good"@,
        GradeLevel::Fair => "Fair"@,
        GradeLevel::Moderate => "Moderate"@,
        GradeLevel::Poor => "Poor"@,
        GradeLevel::Critical => "Critical"@,
    }
}

/// A row of the summary table.
pub open spec fn summary_row(label: Seq<char>, n: nat) -> Seq<char> {
    "| "@ + label + " | "@ + decimal(n) + " |\n"@
}

/// The report's heading and summary table: the grade (its score and density
/// given as text, as they are written), the total score, the files analysed
/// and each count, then a blank line.
pub open spec fn summary_section(
    counts: SmellCounts,
    files_analyzed: nat,
    total_score: nat,
    score_text: Seq<char>,
    level: GradeLevel,
    density_text: Seq<char>,
) -> Seq<char> {
    "# Architecture Smell Report\n\n"@ + "## Summary\n\n"@ + "| Metric | Value |\n"@ + "| :--- | :--- |\n"@
        + "| **Architecture Quality** | **"@ + score_text + "/10 ("@ + grade_level_name(level) + ")** |\n"@
        + "| **Total Score** | **"@ + decimal(total_score) + " points** (density: "@ + density_text + ") |\n"@
        + summary_row("Files analyzed"@, files_analyzed) + summary_row("Cyclic dependencies"@, counts.cyclic_dependencies as nat)
        + summary_row("God modules"@, counts.god_modules as nat) + summary_row("Dead code files"@, counts.dead_code as nat)
        + summary_row("Dead symbols"@, counts.dead_symbols as nat) + summary_row(
        "High complexity functions"@,
        counts.high_complexity_functions as nat,
    ) + summary_row("Large files"@, counts.large_files as nat) + summary_row(
        "Unstable interfaces"@,
        counts.unstable_interfaces as nat,
    ) + summary_row("Feature envy"@, counts.feature_envy as nat) + summary_row("Shotgun surgery"@, counts.shotgun_surgery as nat)
        + summary_row("Hub dependencies"@, counts.hub_dependencies as nat) + seq!['\n']
}

fn push_row(out: &mut String, label: &str, n: usize)
    ensures
        final(out)@ == old(out)@ + summary_row(label@, n as nat),
{
    append_str(out, "| ");
    append_str(out, label);
    append_str(out, " | ");
    push_decimal(out, n);
    append_str(out, " |\n");
    assert(out@ =~= old(out)@ + summary_row(label@, n as nat));
}

fn push_level(out: &mut String, level: GradeLevel)
    ensures
        final(out)@ == old(out)@ + grade_level_name(level),
{
    match level {
        GradeLevel::Excellent => append_str(out, "Excellent"),
        GradeLevel::Good => append_str(out, "Good"),
        GradeLevel::Fair => append_str(out, "Fair"),
        GradeLevel::Moderate => append_str(out, "Moderate"),
        GradeLevel::Poor => append_str(out, "Poor"),
        GradeLevel::Critical => append_str(out, "Critical"),
    }
}

/// The heading and summary table of the report, where `score_text` and
/// `density_text` are the grade's score and density as written (one and two
/// decimals) and `total_score` the points of all smells.
pub fn generate(
    counts: &SmellCounts,
    files_analyzed: usize,
    total_score: usize,
    score_text: &str,
    level: GradeLevel,
    density_text: &str,
) -> (r: String)
    ensures
        r@ == summary_section(*counts, files_analyzed as nat, total_score as nat, score_text@, level, density_text@),
{
    let mut out = String::new();
    append_str(&mut out, "# Architecture Smell Report\n\n");
    append_str(&mut out, "## Summary\n\n");
    append_str(&mut out, "| Metric | Value |\n");
    append_str(&mut out, "| :--- | :--- |\n");
    append_str(&mut out, "| **Architecture Quality** | **");
    append_str(&mut out, score_text);
    append_str(&mut out, "/10 (");
    push_level(&mut out, level);
    append_str(&mut out, ")** |\n");
    append_str(&mut out, "| **Total Score** | **");
    push_decimal(&mut out, total_score);
    append_str(&mut out, " points** (density: ");
    append_str(&mut out, density_text);
    append_str(&mut out, ") |\n");
    push_row(&mut out, "Files analyzed", files_analyzed);
    push_row(&mut out, "Cyclic dependencies", counts.cyclic_dependencies);
    push_row(&mut out, "God modules", counts.god_modules);
    push_row(&mut out, "Dead code files", counts.dead_code);
    push_row(&mut out, "Dead symbols", counts.dead_symbols);
    push_row(&mut out, "High complexity functions", counts.high_complexity_functions);
    push_row(&mut out, "Large files", counts.large_files);
    push_row(&mut out, "Unstable interfaces", counts.unstable_interfaces);
    push_row(&mut out, "Feature envy", counts.feature_envy);
    push_row(&mut out, "Shotgun surgery", counts.shotgun_surgery);
    push_row(&mut out, "Hub dependencies", counts.hub_dependencies);
    crate::text::push_char(&mut out, '\n');
    assert(out@ =~= summary_section(*counts, files_analyzed as nat, total_score as nat, score_text@, level, density_text@));
    out
}

} // verus!
