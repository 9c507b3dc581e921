//! What a report shows of a smell besides its kind and files: the values
//! that the detectors compute for it, and its files as the report writes
//! them. They are handed in with the smells.

use vstd::prelude::*;
use crate::detectors::Severity;
use crate::text::str_eq;

verus! {

/// The values a report shows of one smell.
pub struct SmellFacts {
    /// Points the smell scores under the severity configuration.
    pub score: usize,
    /// The severity after the configuration is applied.
    pub effective_severity: Severity,
    /// Lines of the file, for a large file.
    pub lines: Option<usize>,
    /// Changes to the file, for an unstable interface.
    pub churn: Option<usize>,
    /// Files that import the file, for an unstable interface.
    pub fan_in: Option<usize>,
    /// Instability score, for an unstable interface.
    pub instability_score: Option<usize>,
    /// Files that depend on the package, for a hub dependency.
    pub dependant_count: Option<usize>,
    /// Complexity of the function, for a complex function.
    pub complexity: Option<usize>,
    /// The first file of the smell as the report writes it.
    pub display_path: Option<String>,
    /// The file of the first place of the smell as the report writes it.
    pub location_path: Option<String>,
    /// Files the file imports, for a god module.
    pub fan_out: Option<usize>,
    /// The envy ratio, for feature envy, written with one decimal.
    pub ratio_text: Option<String>,
    /// The average number of co-changes, for shotgun surgery, written with
    /// one decimal.
    pub co_change_text: Option<String>,
    /// The files that import the file, for a god module, as the report
    /// writes them.
    pub used_by: Vec<String>,
    /// The files that the file imports, for a god module, as the report
    /// writes them.
    pub depends_on: Vec<String>,
    /// How the report writes paths of the smell: (path, written) pairs; a
    /// path without a pair is written as it is.
    pub shown_paths: Vec<(String, String)>,
}

/// `o`, or 0 where it is missing.
pub open spec fn or_zero(o: Option<usize>) -> nat {
    match o {
        Some(v) => v as nat,
        None => 0,
    }
}

/// The path the report shows: `shown` where it is given, else `raw`.
pub open spec fn shown_path(shown: Option<String>, raw: Seq<char>) -> Seq<char> {
    match shown {
        Some(p) => p@,
        None => raw,
    }
}

/// The path the report shows: `shown` where it is given, else `raw`.
pub fn show_path(shown: &Option<String>, raw: &str) -> (r: String)
    ensures
        r@ == shown_path(*shown, raw@),
{
    match shown {
        Some(p) => p.clone(),
        None => raw.to_owned(),
    }
}

/// How `table` says to write `path`: the written form of its first pair for
/// `path`, else `path` itself.
pub open spec fn path_as_shown(table: Seq<(Seq<char>, Seq<char>)>, path: Seq<char>) -> Seq<char>
    decreases table.len(),
{
    if table.len() == 0 {
        path
    } else if table[0].0 == path {
        table[0].1
    } else {
        path_as_shown(table.drop_first(), path)
    }
}

/// How the report writes `path` of a smell with facts `f`.
pub open spec fn shown(f: SmellFacts, path: Seq<char>) -> Seq<char> {
    path_as_shown(f.shown_paths@.map_values(|p: (String, String)| (p.0@, p.1@)), path)
}

/// How the report writes `path` of a smell with facts `f`.
pub fn show(f: &SmellFacts, path: &str) -> (r: String)
    ensures
        r@ == shown(*f, path@),
{
    let ghost t = f.shown_paths@.map_values(|p: (String, String)| (p.0@, p.1@));
    let mut i: usize = 0;
    assert(t.skip(0) =~= t);
    while i < f.shown_paths.len()
        invariant
            i <= f.shown_paths@.len(),
            t == f.shown_paths@.map_values(|p: (String, String)| (p.0@, p.1@)),
            path_as_shown(t, path@) == path_as_shown(t.skip(i as int), path@),
        decreases f.shown_paths@.len() - i,
    {
        assert(t.skip(i as int)[0] == t[i as int]);
        if str_eq(f.shown_paths[i].0.as_str(), path) {
            return f.shown_paths[i].1.clone();
        }
        assert(t.skip(i as int).drop_first() =~= t.skip(i + 1));
        i = i + 1;
    }
    assert(t.skip(i as int).len() == 0);
    path.to_owned()
}

/// `o`, or `d` where it is missing.
pub open spec fn text_or(o: Option<String>, d: Seq<char>) -> Seq<char> {
    match o {
        Some(t) => t@,
        None => d,
    }
}

} // verus!
