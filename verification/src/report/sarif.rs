//! The SARIF log of a report: one rule per detector, one result per smell
//! with its level, message and locations. The log is serialised elsewhere.

use vstd::prelude::*;
use crate::detectors::{detector_of, ArchSmell, Explanation, Severity};
use crate::report::markdown::common::{detector_ids, first_keys};
use crate::report::markdown::{find_section, section_for};
use crate::snapshot::smell_text::pair_views;
use crate::graph::CodeRange;
use crate::paths::{relative_path, relative_to};
use crate::text::{append_str, chars_of, join, join_strings, list_contains, replace_char, replace_char_spec, str_views, string_of};

verus! {

/// A region within a file.
pub struct SarifRegion {
    pub start_line: usize,
    pub start_column: Option<usize>,
    pub end_line: Option<usize>,
    pub end_column: Option<usize>,
}

/// The file of a location, as a URI.
pub struct SarifArtifactLocation {
    pub uri: String,
}

/// A place in a file.
pub struct SarifPhysicalLocation {
    pub artifact_location: SarifArtifactLocation,
    pub region: Option<SarifRegion>,
}

/// Where a result is.
pub struct SarifLocation {
    pub physical_location: SarifPhysicalLocation,
}

/// The SARIF level of a severity.
pub open spec fn sarif_level(s: Severity) -> Seq<char> {
    match s {
        Severity::Low => "note"@,
        Severity::Medium => "warning"@,
        Severity::High | Severity::Critical => "error"@,
    }
}

/// The message of a result: the problem, the reason and the
/// recommendations, one per line.
pub open spec fn sarif_message(e: Explanation) -> Seq<char> {
    e.problem@ + "\n\nReason: "@ + e.reason@ + "\n\nRecommendations:\n"@ + join(str_views(e.recommendations@), seq!['\n'])
}

/// A path as a SARIF URI: relative to `root` where one is given and the path
/// lies under it, with `/` as the separator.
pub open spec fn sarif_uri(path: Seq<char>, root: Option<Seq<char>>) -> Seq<char> {
    match root {
        Some(r) => relative_to(path, r),
        None => replace_char_spec(path, '\\', '/'),
    }
}

/// The location record for `file` at `start_line`.
pub open spec fn location_record(
    l: SarifLocation,
    file: Seq<char>,
    start_line: usize,
    start_column: Option<usize>,
    range: Option<CodeRange>,
    root: Option<Seq<char>>,
) -> bool {
    &&& l.physical_location.artifact_location.uri@ == sarif_uri(file, root)
    &&& l.physical_location.region matches Some(r) && {
        &&& r.start_line == start_line
        &&& r.start_column == start_column
        &&& r.end_line == (match range {
            Some(c) => Some(c.end_line),
            None => None,
        })
        &&& r.end_column == (match range {
            Some(c) => Some(c.end_column),
            None => None,
        })
    }
}

/// The view of an optional text.
pub open spec fn root_view(o: Option<&str>) -> Option<Seq<char>> {
    match o {
        Some(s) => Some(s@),
        None => None,
    }
}

/// The SARIF level of `severity`.
pub fn map_severity(severity: &Severity) -> (r: &'static str)
    ensures
        r@ == sarif_level(*severity),
{
    match severity {
        Severity::Low => "note",
        Severity::Medium => "warning",
        Severity::High | Severity::Critical => "error",
    }
}

/// The message of a result with `explanation`.
pub fn format_sarif_message(explanation: &Explanation) -> (r: String)
    ensures
        r@ == sarif_message(*explanation),
{
    let mut out = explanation.problem.clone();
    append_str(&mut out, "\n\nReason: ");
    append_str(&mut out, explanation.reason.as_str());
    append_str(&mut out, "\n\nRecommendations:\n");
    let recs = join_strings(&explanation.recommendations, "\n");
    append_str(&mut out, recs.as_str());
    proof {
        reveal_strlit("\n");
        assert("\n"@ =~= seq!['\n']);
    }
    assert(out@ =~= sarif_message(*explanation));
    out
}

/// `path` as a SARIF URI, relative to `scan_root` where one is given.
pub fn normalize_path(path: &str, scan_root: Option<&str>) -> (r: String)
    ensures
        r@ == sarif_uri(path@, root_view(scan_root)),
{
    match scan_root {
        Some(root) => relative_path(path, root),
        None => {
            let cs = chars_of(path);
            let replaced = replace_char(cs.as_slice(), '\\', '/');
            string_of(replaced.as_slice())
        },
    }
}

/// The location record for `file` at `start_line`, with the end of `range`
/// where there is one.
pub fn create_sarif_location(
    file: &str,
    start_line: usize,
    start_column: Option<usize>,
    range: Option<CodeRange>,
    scan_root: Option<&str>,
) -> (r: SarifLocation)
    ensures
        location_record(r, file@, start_line, start_column, range, root_view(scan_root)),
{
    let (end_line, end_column) = match range {
        Some(c) => (Some(c.end_line), Some(c.end_column)),
        None => (None, None),
    };
    SarifLocation {
        physical_location: SarifPhysicalLocation {
            artifact_location: SarifArtifactLocation { uri: normalize_path(file, scan_root) },
            region: Some(SarifRegion { start_line, start_column, end_line, end_column }),
        },
    }
}

/// Whether `r` are the locations of `smell`: one per place it records (line
/// 0 counting as line 1); where it records none, one per file, at line 1.
pub open spec fn locations_mapped(smell: ArchSmell, root: Option<Seq<char>>, r: Seq<SarifLocation>) -> bool {
    &&& smell.locations@.len() > 0 ==> r.len() == smell.locations@.len() && forall|i: int| 0 <= i < r.len() ==> {
        let loc = #[trigger] smell.locations@[i];
        location_record(r[i], loc.file@, if loc.line == 0 { 1 } else { loc.line }, loc.column, loc.range, root)
    }
    &&& smell.locations@.len() == 0 ==> r.len() == smell.files@.len() && forall|i: int| 0 <= i < r.len() ==> location_record(
        #[trigger] r[i],
        smell.files@[i]@,
        1,
        None,
        None,
        root,
    )
}

/// The locations of `smell`: one per place it records (line 0 counting as
/// line 1); where it records none, one per file, at line 1.
pub fn map_locations(smell: &ArchSmell, scan_root: Option<&str>) -> (r: Vec<SarifLocation>)
    ensures
        locations_mapped(*smell, root_view(scan_root), r@),
{
    let mut out: Vec<SarifLocation> = Vec::new();
    if smell.locations.len() > 0 {
        let mut i: usize = 0;
        while i < smell.locations.len()
            invariant
                i <= smell.locations@.len(),
                out@.len() == i,
                forall|k: int| 0 <= k < i ==> {
                    let loc = #[trigger] smell.locations@[k];
                    location_record(out@[k], loc.file@, if loc.line == 0 { 1 } else { loc.line }, loc.column, loc.range, root_view(scan_root))
                },
            decreases smell.locations@.len() - i,
        {
            let loc = &smell.locations[i];
            let line = if loc.line == 0 { 1 } else { loc.line };
            out.push(create_sarif_location(loc.file.as_str(), line, loc.column, loc.range, scan_root));
            i = i + 1;
        }
    } else {
        let mut i: usize = 0;
        while i < smell.files.len()
            invariant
                smell.locations@.len() == 0,
                i <= smell.files@.len(),
                out@.len() == i,
                forall|k: int| 0 <= k < i ==> location_record(#[trigger] out@[k], smell.files@[k]@, 1, None, None, root_view(scan_root)),
            decreases smell.files@.len() - i,
        {
            out.push(create_sarif_location(smell.files[i].as_str(), 1, None, None, scan_root));
            i = i + 1;
        }
    }
    out
}

/// A rule of the log: one per detector.
pub struct SarifRule {
    pub id: String,
    pub short_description: String,
    pub help_uri: Option<String>,
}

/// A result of the log: one per smell.
pub struct SarifResult {
    pub rule_id: String,
    pub level: String,
    pub message: String,
    pub locations: Vec<SarifLocation>,
}

/// A SARIF log of one run of archlint.
pub struct SarifReport {
    pub version: String,
    pub schema: String,
    pub tool_name: String,
    pub tool_version: String,
    pub rules: Vec<SarifRule>,
    pub results: Vec<SarifResult>,
}

/// The page that documents detector `id`.
pub open spec fn help_uri(id: Seq<char>) -> Seq<char> {
    "https://archlinter.github.io/archlint/detectors/"@ + id + ".html"@
}

/// Whether `r` is the rule of detector `id`, named as `names` (detector id,
/// display name) pairs name it.
pub open spec fn rule_for(r: SarifRule, id: Seq<char>, names: Seq<(Seq<char>, Seq<char>)>) -> bool {
    &&& r.id@ == id
    &&& r.short_description@ == section_for(names, id)
    &&& r.help_uri matches Some(u) && u@ == help_uri(id)
}

/// Whether `r` is the result for `smell` explained by `e`.
pub open spec fn result_for(r: SarifResult, smell: ArchSmell, e: Explanation, root: Option<Seq<char>>) -> bool {
    &&& r.rule_id@ == detector_of(smell.smell_type)
    &&& r.level@ == sarif_level(smell.severity)
    &&& r.message@ == sarif_message(e)
    &&& locations_mapped(smell, root, r.locations@)
}

/// Whether `r` is the SARIF log of `smells`: version 2.1.0 with its schema,
/// archlint `version` as the tool, one rule per detector that reports any of
/// the smells in the order its first smell comes, and one result per smell.
pub open spec fn sarif_log(
    r: SarifReport,
    smells: Seq<(ArchSmell, Explanation)>,
    root: Option<Seq<char>>,
    version: Seq<char>,
    names: Seq<(Seq<char>, Seq<char>)>,
) -> bool {
    let ids = first_keys(detector_ids(smells));
    &&& r.version@ == "2.1.0"@
    &&& r.schema@ == "https://schemastore.azurewebsites.net/schemas/json/sarif-2.1.0-rtm.5.json"@
    &&& r.tool_name@ == "archlint"@
    &&& r.tool_version@ == version
    &&& r.rules@.len() == ids.len()
    &&& forall|k: int| 0 <= k < ids.len() ==> rule_for(#[trigger] r.rules@[k], ids[k], names)
    &&& r.results@.len() == smells.len()
    &&& forall|i: int| 0 <= i < smells.len() ==> result_for(#[trigger] r.results@[i], smells[i].0, smells[i].1, root)
}

fn create_rule(id: &str, names: &[(String, String)]) -> (r: SarifRule)
    ensures
        rule_for(r, id@, pair_views(names@)),
{
    let name = match find_section(names, id) {
        Some(n) => n.clone(),
        None => String::new(),
    };
    let mut uri = "https://archlinter.github.io/archlint/detectors/".to_owned();
    append_str(&mut uri, id);
    append_str(&mut uri, ".html");
    SarifRule { id: id.to_owned(), short_description: name, help_uri: Some(uri) }
}

/// The SARIF log of `smells`: file URIs relative to `scan_root` where one is
/// given, archlint `tool_version` as the tool, and each detector's rule named
/// as `rule_names` (detector id, display name) pairs name it.
pub fn generate_sarif(
    smells: &[(ArchSmell, Explanation)],
    scan_root: Option<&str>,
    tool_version: &str,
    rule_names: &[(String, String)],
) -> (r: SarifReport)
    ensures
        sarif_log(r, smells@, root_view(scan_root), tool_version@, pair_views(rule_names@)),
{
    let ghost ks = detector_ids(smells@);
    let ghost names = pair_views(rule_names@);
    let mut seen: Vec<String> = Vec::new();
    let mut rules: Vec<SarifRule> = Vec::new();
    let mut results: Vec<SarifResult> = Vec::new();
    let mut i: usize = 0;
    while i < smells.len()
        invariant
            i <= smells@.len(),
            ks == detector_ids(smells@),
            names == pair_views(rule_names@),
            str_views(seen@) == first_keys(ks.take(i as int)),
            rules@.len() == seen@.len(),
            forall|k: int| 0 <= k < rules@.len() ==> rule_for(#[trigger] rules@[k], seen@[k]@, names),
            results@.len() == i,
            forall|k: int| 0 <= k < i ==> result_for(#[trigger] results@[k], smells@[k].0, smells@[k].1, root_view(scan_root)),
        decreases smells@.len() - i,
    {
        let smell = &smells[i].0;
        let id = smell.smell_type.detector_id();
        proof {
            assert(ks.take(i + 1).drop_last() =~= ks.take(i as int));
            assert(ks.take(i + 1).last() == id@);
        }
        let known = list_contains(seen.as_slice(), id.as_str());
        proof {
            if known {
                let j = choose|j: int| 0 <= j < seen@.len() && #[trigger] seen@[j]@ == id@;
                assert(str_views(seen@)[j] == id@);
            } else {
                assert forall|j: int| 0 <= j < str_views(seen@).len() implies str_views(seen@)[j] != id@ by {
                    assert(str_views(seen@)[j] == seen@[j]@);
                }
            }
        }
        if !known {
            let rule = create_rule(id.as_str(), rule_names);
            let ghost before = str_views(seen@);
            seen.push(id.clone());
            rules.push(rule);
            assert(str_views(seen@) =~= before.push(id@));
        }
        let res = SarifResult {
            rule_id: id,
            level: map_severity(&smell.severity).to_owned(),
            message: format_sarif_message(&smells[i].1),
            locations: map_locations(smell, scan_root),
        };
        results.push(res);
        i = i + 1;
    }
    assert(ks.take(smells@.len() as int) =~= ks);
    let r = SarifReport {
        version: "2.1.0".to_owned(),
        schema: "https://schemastore.azurewebsites.net/schemas/json/sarif-2.1.0-rtm.5.json".to_owned(),
        tool_name: "archlint".to_owned(),
        tool_version: tool_version.to_owned(),
        rules,
        results,
    };
    proof {
        let ids = first_keys(detector_ids(smells@));
        assert forall|k: int| 0 <= k < ids.len() implies rule_for(#[trigger] r.rules@[k], ids[k], names) by {
            assert(str_views(seen@)[k] == seen@[k]@);
        }
    }
    r
}

} // verus!
