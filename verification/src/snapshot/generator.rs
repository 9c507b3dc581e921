//! Turning smells into snapshot entries.

use vstd::prelude::*;
use crate::detectors::{smell_type_name, ArchSmell, Explanation, LocationDetail, MetricArg, SmellMetric, SmellType};
use crate::report::json::{metric_key, metric_key_of};
use crate::order::{sort_strings, str_order};
use crate::paths::{path_strip_prefix, relative_path, relative_to, strip_path_prefix};
use crate::snapshot::id::{generate_smell_id, smell_id, uses_first_file};
use crate::snapshot::smell_text::{severity_name, severity_text, smell_type_text, smell_type_text_of};
use crate::report::summary::GradeLevel;
use crate::graph::CodeRange;
use crate::snapshot::types::{Location, SCHEMA_VERSION};
use crate::text::{chars_of, has_prefix, replace_char, replace_char_spec, str_eq, str_starts_with, str_views, string_of};

verus! {

/// Builds snapshots of the smells of one project.
pub struct SnapshotGenerator {
    pub project_root: String,
    pub include_commit: bool,
}

/// A location as a snapshot records it: its file relative to `root`, an empty
/// description dropped.
pub open spec fn snapshot_location(loc: LocationDetail, root: Seq<char>, r: Location) -> bool {
    &&& r.file@ == relative_to(loc.file@, root)
    &&& r.line == loc.line
    &&& r.column == loc.column
    &&& r.range == loc.range
    &&& match r.description {
        Some(d) => loc.description@.len() > 0 && d@ == loc.description@,
        None => loc.description@.len() == 0,
    }
}

/// The files of a smell that lie under `root`, relative to it.
pub open spec fn files_under(files: Seq<Seq<char>>, root: Seq<char>) -> Seq<Seq<char>>
    decreases files.len(),
{
    if files.len() == 0 {
        Seq::empty()
    } else {
        let prev = files_under(files.drop_last(), root);
        match path_strip_prefix(files.last(), root) {
            Some(rest) => prev.push(replace_char_spec(rest, '\\', '/')),
            None => prev,
        }
    }
}

/// The number of smells in `smells` whose kind's name starts with `prefix`.
pub open spec fn count_kind_prefix(smells: Seq<(ArchSmell, Explanation)>, prefix: Seq<char>) -> nat
    decreases smells.len(),
{
    if smells.len() == 0 {
        0
    } else {
        count_kind_prefix(smells.drop_last(), prefix) + if has_prefix(
            smell_type_name(smells.last().0.smell_type),
            prefix,
        ) {
            1nat
        } else {
            0nat
        }
    }
}

/// How many of `smells` are of a kind whose name starts with `type_prefix`.
pub fn count_by_type(smells: &[(ArchSmell, Explanation)], type_prefix: &str) -> (r: usize)
    ensures
        r == count_kind_prefix(smells@, type_prefix@),
{
    let mut n: usize = 0;
    let mut i: usize = 0;
    while i < smells.len()
        invariant
            i <= smells@.len(),
            n == count_kind_prefix(smells@.take(i as int), type_prefix@),
            n <= i,
        decreases smells@.len() - i,
    {
        let name = smell_type_to_string(&smells[i].0.smell_type);
        proof {
            assert(smells@.take(i + 1).drop_last() =~= smells@.take(i as int));
        }
        if str_starts_with(name.as_str(), type_prefix) {
            n = n + 1;
        }
        i = i + 1;
    }
    assert(smells@.take(smells@.len() as int) =~= smells@);
    n
}

/// The name of the kind of smell `smell_type`.
pub fn smell_type_to_string(smell_type: &SmellType) -> (r: String)
    ensures
        r@ == smell_type_name(*smell_type),
{
    smell_type.kind_name()
}

impl SnapshotGenerator {
    /// A generator for the project at `project_root` (a canonical path), that
    /// records the commit.
    pub fn new(project_root: String) -> (r: Self)
        ensures
            r.project_root == project_root,
            r.include_commit,
    {
        SnapshotGenerator { project_root, include_commit: true }
    }

    /// The generator, recording the commit or not as `record_commit` says.
    pub fn with_commit(self, record_commit: bool) -> (r: Self)
        ensures
            r.project_root == self.project_root,
            r.include_commit == record_commit,
    {
        let mut s = self;
        s.include_commit = record_commit;
        s
    }

    /// The files of `smell` that lie under the project root, relative to it,
    /// sorted.
    pub fn smell_files(&self, smell: &ArchSmell) -> (r: Vec<String>)
        ensures
            str_views(r@) == files_under(str_views(smell.files@), self.project_root@).sort_by(str_order()),
    {
        let ghost fv = str_views(smell.files@);
        let mut r: Vec<String> = Vec::new();
        let mut i: usize = 0;
        while i < smell.files.len()
            invariant
                i <= smell.files@.len(),
                fv == str_views(smell.files@),
                str_views(r@) == files_under(fv.take(i as int), self.project_root@),
            decreases smell.files@.len() - i,
        {
            proof {
                assert(fv.take(i + 1).drop_last() =~= fv.take(i as int));
            }
            match strip_path_prefix(smell.files[i].as_str(), self.project_root.as_str()) {
                Some(rest) => {
                    let cs = chars_of(rest.as_str());
                    let replaced = replace_char(cs.as_slice(), '\\', '/');
                    let s = string_of(replaced.as_slice());
                    let ghost before = str_views(r@);
                    r.push(s);
                    assert(str_views(r@) =~= before.push(s@));
                },
                None => {},
            }
            i = i + 1;
        }
        assert(fv.take(smell.files@.len() as int) =~= fv);
        sort_strings(&r)
    }

    /// The locations of `smell`, as a snapshot records them.
    pub fn extract_locations(&self, smell: &ArchSmell) -> (r: Vec<Location>)
        ensures
            r@.len() == smell.locations@.len(),
            forall|i: int| 0 <= i < r@.len() ==> snapshot_location(smell.locations@[i], self.project_root@, #[trigger] r@[i]),
    {
        let mut r: Vec<Location> = Vec::new();
        let mut i: usize = 0;
        while i < smell.locations.len()
            invariant
                i <= smell.locations@.len(),
                r@.len() == i,
                forall|k: int| 0 <= k < i ==> snapshot_location(smell.locations@[k], self.project_root@, #[trigger] r@[k]),
            decreases smell.locations@.len() - i,
        {
            let loc = &smell.locations[i];
            let file = relative_path(loc.file.as_str(), self.project_root.as_str());
            let description = if loc.description.unicode_len() == 0 {
                None
            } else {
                Some(loc.description.clone())
            };
            r.push(Location { file, line: loc.line, column: loc.column, range: loc.range, description });
            i = i + 1;
        }
        r
    }
}

/// The value of a metric that a snapshot records: a whole number, a
/// floating-point number as Rust writes it, or a text.
#[derive(Debug, Clone, PartialEq, Eq)]
pub enum KindMetric {
    Int(i64),
    Float(String),
    Text(String),
}

/// The value of a metric in the abstract.
pub enum MetricModel {
    Int(int),
    Float(Seq<char>),
    Text(Seq<char>),
}

/// The value that `k` stands for.
pub open spec fn kind_metric_model(k: KindMetric) -> MetricModel {
    match k {
        KindMetric::Int(n) => MetricModel::Int(n as int),
        KindMetric::Float(t) => MetricModel::Float(t@),
        KindMetric::Text(t) => MetricModel::Text(t@),
    }
}

/// The value of a detector's metric.
pub open spec fn metric_arg_model(a: MetricArg) -> MetricModel {
    match a {
        MetricArg::Int(n) => MetricModel::Int(n as int),
        MetricArg::Float(t) => MetricModel::Float(t@),
        MetricArg::Text(t) => MetricModel::Text(t@),
    }
}

/// Whether no name comes twice in `es`.
pub open spec fn names_unique(es: Seq<(String, KindMetric)>) -> bool {
    forall|i: int, j: int| 0 <= i < j < es.len() ==> (#[trigger] es[i]).0@ != (#[trigger] es[j]).0@
}

/// The metrics of `es` by name, a later entry taking the place of an earlier
/// one of the same name.
pub open spec fn entries_map(es: Seq<(String, KindMetric)>) -> Map<Seq<char>, MetricModel>
    decreases es.len(),
{
    if es.len() == 0 {
        Map::empty()
    } else {
        entries_map(es.drop_last()).insert(es.last().0@, kind_metric_model(es.last().1))
    }
}

/// The detector's metrics `ms` by key, a later metric taking the place of an
/// earlier one of the same key.
pub open spec fn smell_metrics_map(ms: Seq<SmellMetric>) -> Map<Seq<char>, MetricModel>
    decreases ms.len(),
{
    if ms.len() == 0 {
        Map::empty()
    } else {
        smell_metrics_map(ms.drop_last()).insert(metric_key(ms.last().name@), metric_arg_model(ms.last().value))
    }
}

/// The metrics a snapshot records of `smell`: those of its detector, by key,
/// then the clone hash and token count of a code clone and the file count of
/// scattered configuration, in place of any metric of the same key.
pub open spec fn recorded_metrics(smell: ArchSmell) -> Map<Seq<char>, MetricModel> {
    let m = smell_metrics_map(smell.metrics@);
    match smell.smell_type {
        SmellType::CodeClone { clone_hash, token_count } => m.insert("cloneHash"@, MetricModel::Text(clone_hash@)).insert(
            "tokenCount"@,
            MetricModel::Int(clamp_i64(token_count) as int),
        ),
        SmellType::ScatteredConfiguration { files_count, .. } => m.insert(
            "filesCount"@,
            MetricModel::Int(clamp_i64(files_count) as int),
        ),
        _ => m,
    }
}

proof fn lemma_entries_map_dom(es: Seq<(String, KindMetric)>, k: Seq<char>)
    ensures
        entries_map(es).dom().contains(k) <==> exists|i: int| 0 <= i < es.len() && (#[trigger] es[i]).0@ == k,
    decreases es.len(),
{
    if es.len() > 0 {
        let d = es.drop_last();
        lemma_entries_map_dom(d, k);
        if entries_map(es).dom().contains(k) {
            if k == es.last().0@ {
                assert(es[es.len() - 1].0@ == k);
            } else {
                let i = choose|i: int| 0 <= i < d.len() && (#[trigger] d[i]).0@ == k;
                assert(es[i] == d[i]);
            }
        }
        if exists|i: int| 0 <= i < es.len() && (#[trigger] es[i]).0@ == k {
            let i = choose|i: int| 0 <= i < es.len() && (#[trigger] es[i]).0@ == k;
            if i < es.len() - 1 {
                assert(d[i] == es[i]);
            }
        }
    }
}

proof fn lemma_entries_map_remove(es: Seq<(String, KindMetric)>, j: int)
    requires
        names_unique(es),
        0 <= j < es.len(),
    ensures
        entries_map(es.remove(j)) == entries_map(es).remove(es[j].0@),
    decreases es.len(),
{
    let n = es.len() - 1;
    let d = es.drop_last();
    assert(names_unique(d)) by {
        assert forall|a: int, b: int| 0 <= a < b < d.len() implies (#[trigger] d[a]).0@ != (#[trigger] d[b]).0@ by {
            assert(d[a] == es[a] && d[b] == es[b]);
        }
    }
    if j == n {
        assert(es.remove(j) =~= d);
        lemma_entries_map_dom(d, es[n].0@);
        if entries_map(d).dom().contains(es[n].0@) {
            let i = choose|i: int| 0 <= i < d.len() && (#[trigger] d[i]).0@ == es[n].0@;
            assert(es[i] == d[i]);
        }
        assert(entries_map(es).remove(es[j].0@) =~= entries_map(d));
    } else {
        assert(es.remove(j) =~= d.remove(j).push(es[n]));
        assert(es.remove(j).drop_last() =~= d.remove(j));
        lemma_entries_map_remove(d, j);
        assert(d[j] == es[j]);
        assert(es[j].0@ != es[n].0@);
        assert(entries_map(es.remove(j)) =~= entries_map(es).remove(es[j].0@));
    }
}

/// Puts metric `v` under `name` in `es`, in place of any metric of that name.
fn put_metric(es: &mut Vec<(String, KindMetric)>, name: String, v: KindMetric)
    requires
        names_unique(old(es)@),
    ensures
        names_unique(final(es)@),
        entries_map(final(es)@) == entries_map(old(es)@).insert(name@, kind_metric_model(v)),
{
    let ghost e0 = es@;
    let mut j: usize = 0;
    let mut found = false;
    while j < es.len()
        invariant
            j <= es@.len(),
            es@ == e0,
            found ==> j < es@.len() && es@[j as int].0@ == name@,
            !found ==> forall|a: int| 0 <= a < j ==> (#[trigger] es@[a]).0@ != name@,
        ensures
            es@ == e0,
            found ==> j < es@.len() && es@[j as int].0@ == name@,
            !found ==> forall|a: int| 0 <= a < es@.len() ==> (#[trigger] es@[a]).0@ != name@,
        decreases es@.len() - j,
    {
        if str_eq(es[j].0.as_str(), name.as_str()) {
            found = true;
            break;
        }
        j = j + 1;
    }
    if found {
        let ghost k = e0[j as int].0@;
        proof {
            lemma_entries_map_remove(e0, j as int);
        }
        es.remove(j);
        let ghost e1 = es@;
        proof {
            assert(e1 == e0.remove(j as int));
            assert forall|a: int| 0 <= a < e1.len() implies (#[trigger] e1[a]).0@ != name@ by {
                if a < j {
                    assert(e1[a] == e0[a]);
                } else {
                    assert(e1[a] == e0[a + 1]);
                }
            }
            assert forall|a: int, b: int| 0 <= a < b < e1.len() implies (#[trigger] e1[a]).0@ != (#[trigger] e1[b]).0@ by {
                let a0 = if a < j { a } else { a + 1 };
                let b0 = if b < j { b } else { b + 1 };
                assert(e1[a] == e0[a0] && e1[b] == e0[b0]);
            }
        }
        es.push((name, v));
        proof {
            assert(es@.drop_last() =~= e1);
            assert(entries_map(es@) =~= entries_map(e0).insert(k, kind_metric_model(v)));
        }
    } else {
        es.push((name, v));
        proof {
            assert(es@.drop_last() =~= e0);
        }
    }
}

fn metric_arg_value(a: &MetricArg) -> (r: KindMetric)
    ensures
        kind_metric_model(r) == metric_arg_model(*a),
{
    match a {
        MetricArg::Int(n) => KindMetric::Int(*n),
        MetricArg::Float(t) => KindMetric::Float(t.clone()),
        MetricArg::Text(t) => KindMetric::Text(t.clone()),
    }
}

/// A smell as a snapshot records it.
pub struct SnapshotSmellCore {
    pub id: String,
    pub smell_type: String,
    pub severity: String,
    /// The smell's files under the project root, relative to it, sorted.
    pub files: Vec<String>,
    /// The metrics recorded of the smell, by name, each name once.
    pub kind_metrics: Vec<(String, KindMetric)>,
    /// The kind of smell with its fields, written out.
    pub details: String,
    pub locations: Vec<Location>,
}

/// The counts of a snapshot.
pub struct SnapshotSummaryCore {
    pub total_smells: usize,
    pub files_analyzed: usize,
    pub cycles: usize,
    pub god_modules: usize,
    pub dead_code: usize,
    pub dead_symbols: usize,
    pub layer_violations: usize,
    pub high_cyclomatic_complexity: usize,
    pub high_cognitive_complexity: usize,
    pub hub_modules: usize,
}

/// A snapshot.
pub struct SnapshotCore {
    pub schema_version: u32,
    pub archlint_version: String,
    pub generated_at: String,
    pub commit: Option<String>,
    pub smells: Vec<SnapshotSmellCore>,
    pub summary: SnapshotSummaryCore,
    pub grade: String,
}

/// The letter of a grade level, from `A` for excellent to `F` for poor and
/// critical.
pub open spec fn grade_letter(level: GradeLevel) -> Seq<char> {
    match level {
        GradeLevel::Excellent => "A"@,
        GradeLevel::Good => "B"@,
        GradeLevel::Fair => "C"@,
        GradeLevel::Moderate => "D"@,
        GradeLevel::Poor => "F"@,
        GradeLevel::Critical => "F"@,
    }
}

/// The letter of grade level `level`.
pub fn grade_letter_of(level: GradeLevel) -> (r: String)
    ensures
        r@ == grade_letter(level),
{
    match level {
        GradeLevel::Excellent => "A".to_owned(),
        GradeLevel::Good => "B".to_owned(),
        GradeLevel::Fair => "C".to_owned(),
        GradeLevel::Moderate => "D".to_owned(),
        GradeLevel::Poor => "F".to_owned(),
        GradeLevel::Critical => "F".to_owned(),
    }
}

/// `n` as an `i64`, or the largest `i64` where it does not fit.
pub open spec fn clamp_i64(n: usize) -> i64 {
    if n <= i64::MAX { n as i64 } else { i64::MAX }
}

/// Whether `r` records `smell` as a snapshot under `root` does.
pub open spec fn converted(smell: ArchSmell, root: Seq<char>, r: SnapshotSmellCore) -> bool {
    &&& r.id@ == smell_id(smell, root)
    &&& r.smell_type@ == smell_type_name(smell.smell_type)
    &&& r.severity@ == severity_name(smell.severity)
    &&& str_views(r.files@) == files_under(str_views(smell.files@), root).sort_by(str_order())
    &&& names_unique(r.kind_metrics@)
    &&& entries_map(r.kind_metrics@) == recorded_metrics(smell)
    &&& r.details@ == smell_type_text(smell.smell_type)
    &&& r.locations@.len() == smell.locations@.len()
    &&& forall|i: int| 0 <= i < r.locations@.len() ==> snapshot_location(smell.locations@[i], root, #[trigger] r.locations@[i])
}

/// Whether every smell of `smells` has the files its ID is built from.
pub open spec fn ids_buildable(smells: Seq<(ArchSmell, Explanation)>) -> bool {
    forall|i: int| 0 <= i < smells.len() ==> (uses_first_file((#[trigger] smells[i]).0.smell_type) ==> smells[i].0.files@.len() > 0)
}

fn clamp_to_i64(n: usize) -> (r: i64)
    ensures
        r == clamp_i64(n),
{
    if (n as u64) <= 9223372036854775807u64 {
        n as i64
    } else {
        9223372036854775807i64
    }
}

/// Whether `r` is the snapshot that generator `g` makes of `smells` over
/// `files_analyzed` files, made by archlint `version` at `at`, with `commit`
/// as the commit at HEAD and grade level `level`: each smell converted under
/// the generator's root, the counts by kind, the grade by its letter, and the
/// commit only where the generator records commits.
pub open spec fn snapshot_made(
    g: SnapshotGenerator,
    smells: Seq<(ArchSmell, Explanation)>,
    files_analyzed: usize,
    version: String,
    at: String,
    commit: Option<String>,
    level: GradeLevel,
    r: SnapshotCore,
) -> bool {
    &&& r.schema_version == SCHEMA_VERSION
    &&& r.archlint_version == version
    &&& r.generated_at == at
    &&& r.commit == if g.include_commit { commit } else { None }
    &&& r.grade@ == grade_letter(level)
    &&& r.smells@.len() == smells.len()
    &&& forall|i: int| 0 <= i < smells.len() ==> converted(smells[i].0, g.project_root@, #[trigger] r.smells@[i])
    &&& r.summary.total_smells == smells.len()
    &&& r.summary.files_analyzed == files_analyzed
    &&& r.summary.cycles == count_kind_prefix(smells, "CyclicDependency"@)
    &&& r.summary.god_modules == count_kind_prefix(smells, "GodModule"@)
    &&& r.summary.dead_code == count_kind_prefix(smells, "DeadCode"@)
    &&& r.summary.dead_symbols == count_kind_prefix(smells, "DeadSymbol"@)
    &&& r.summary.layer_violations == count_kind_prefix(smells, "LayerViolation"@)
    &&& r.summary.high_cyclomatic_complexity == count_kind_prefix(smells, "HighCyclomaticComplexity"@)
    &&& r.summary.high_cognitive_complexity == count_kind_prefix(smells, "HighCognitiveComplexity"@)
    &&& r.summary.hub_modules == count_kind_prefix(smells, "HubDependency"@)
}

/// A location of a snapshot as plain values.
pub open spec fn location_view(l: Location) -> (Seq<char>, usize, Option<usize>, Option<CodeRange>, Option<Seq<char>>) {
    (
        l.file@,
        l.line,
        l.column,
        l.range,
        match l.description {
            Some(d) => Some(d@),
            None => None,
        },
    )
}

/// Whether two snapshot smells record the same thing.
pub open spec fn same_record(a: SnapshotSmellCore, b: SnapshotSmellCore) -> bool {
    &&& a.id@ == b.id@
    &&& a.smell_type@ == b.smell_type@
    &&& a.severity@ == b.severity@
    &&& str_views(a.files@) == str_views(b.files@)
    &&& entries_map(a.kind_metrics@) == entries_map(b.kind_metrics@)
    &&& a.details@ == b.details@
    &&& a.locations@.len() == b.locations@.len()
    &&& forall|j: int| 0 <= j < a.locations@.len() ==> location_view(#[trigger] a.locations@[j]) == location_view(b.locations@[j])
}

/// Whether the commit is recorded changes only the commit: two generators
/// for the same root make snapshots of the same smells that record the same
/// smells, counts and grade, each smell's ID being its stable ID under that
/// root; a generator records the commit exactly when it is set to.
pub proof fn lemma_commit_setting_changes_only_commit(
    g1: SnapshotGenerator,
    g2: SnapshotGenerator,
    smells: Seq<(ArchSmell, Explanation)>,
    files_analyzed: usize,
    version: String,
    at: String,
    commit: Option<String>,
    level: GradeLevel,
    r1: SnapshotCore,
    r2: SnapshotCore,
)
    requires
        g1.project_root == g2.project_root,
        snapshot_made(g1, smells, files_analyzed, version, at, commit, level, r1),
        snapshot_made(g2, smells, files_analyzed, version, at, commit, level, r2),
    ensures
        r1.summary == r2.summary,
        r1.grade@ == r2.grade@,
        r1.smells@.len() == r2.smells@.len(),
        forall|i: int| 0 <= i < r1.smells@.len() ==> same_record(#[trigger] r1.smells@[i], r2.smells@[i]),
        forall|i: int| 0 <= i < r1.smells@.len() ==> (#[trigger] r1.smells@[i]).id@ == smell_id(smells[i].0, g1.project_root@),
        r1.commit == (if g1.include_commit { commit } else { None }),
        r2.commit == (if g2.include_commit { commit } else { None }),
{
    assert forall|i: int| 0 <= i < r1.smells@.len() implies same_record(#[trigger] r1.smells@[i], r2.smells@[i]) by {
        let a = r1.smells@[i];
        let b = r2.smells@[i];
        assert(converted(smells[i].0, g1.project_root@, a));
        assert(converted(smells[i].0, g2.project_root@, b));
        assert forall|j: int| 0 <= j < a.locations@.len() implies location_view(#[trigger] a.locations@[j]) == location_view(
            b.locations@[j],
        ) by {
            assert(snapshot_location(smells[i].0.locations@[j], g1.project_root@, a.locations@[j]));
            assert(snapshot_location(smells[i].0.locations@[j], g1.project_root@, b.locations@[j]));
        }
    }
    assert forall|i: int| 0 <= i < r1.smells@.len() implies (#[trigger] r1.smells@[i]).id@ == smell_id(
        smells[i].0,
        g1.project_root@,
    ) by {
        assert(converted(smells[i].0, g1.project_root@, r1.smells@[i]));
    }
}

impl SnapshotGenerator {
    /// The metrics a snapshot records of `smell`, by name.
    pub fn extract_metrics(&self, smell: &ArchSmell) -> (r: Vec<(String, KindMetric)>)
        ensures
            names_unique(r@),
            entries_map(r@) == recorded_metrics(*smell),
    {
        let mut r: Vec<(String, KindMetric)> = Vec::new();
        let mut i: usize = 0;
        while i < smell.metrics.len()
            invariant
                i <= smell.metrics@.len(),
                names_unique(r@),
                entries_map(r@) == smell_metrics_map(smell.metrics@.take(i as int)),
            decreases smell.metrics@.len() - i,
        {
            let m = &smell.metrics[i];
            let key = metric_key_of(m.name.as_str());
            put_metric(&mut r, key, metric_arg_value(&m.value));
            assert(smell.metrics@.take(i + 1).drop_last() =~= smell.metrics@.take(i as int));
            i = i + 1;
        }
        assert(smell.metrics@.take(smell.metrics@.len() as int) =~= smell.metrics@);
        match &smell.smell_type {
            SmellType::CodeClone { clone_hash, token_count } => {
                put_metric(&mut r, "cloneHash".to_owned(), KindMetric::Text(clone_hash.clone()));
                put_metric(&mut r, "tokenCount".to_owned(), KindMetric::Int(clamp_to_i64(*token_count)));
            },
            SmellType::ScatteredConfiguration { files_count, .. } => {
                put_metric(&mut r, "filesCount".to_owned(), KindMetric::Int(clamp_to_i64(*files_count)));
            },
            _ => {},
        }
        r
    }

    /// `smell` as a snapshot records it.
    pub fn convert_smell(&self, smell: &ArchSmell) -> (r: SnapshotSmellCore)
        requires
            uses_first_file(smell.smell_type) ==> smell.files@.len() > 0,
        ensures
            converted(*smell, self.project_root@, r),
    {
        SnapshotSmellCore {
            id: generate_smell_id(smell, self.project_root.as_str()),
            smell_type: smell_type_to_string(&smell.smell_type),
            severity: severity_text(&smell.severity),
            files: self.smell_files(smell),
            kind_metrics: self.extract_metrics(smell),
            details: smell_type_text_of(&smell.smell_type),
            locations: self.extract_locations(smell),
        }
    }

    /// The counts of a snapshot of `smells`, over `files_analyzed` files:
    /// the number of smells, and of each kind by the start of its name.
    pub fn build_summary(&self, smells: &[(ArchSmell, Explanation)], files_analyzed: usize) -> (r: SnapshotSummaryCore)
        ensures
            r.total_smells == smells@.len(),
            r.files_analyzed == files_analyzed,
            r.cycles == count_kind_prefix(smells@, "CyclicDependency"@),
            r.god_modules == count_kind_prefix(smells@, "GodModule"@),
            r.dead_code == count_kind_prefix(smells@, "DeadCode"@),
            r.dead_symbols == count_kind_prefix(smells@, "DeadSymbol"@),
            r.layer_violations == count_kind_prefix(smells@, "LayerViolation"@),
            r.high_cyclomatic_complexity == count_kind_prefix(smells@, "HighCyclomaticComplexity"@),
            r.high_cognitive_complexity == count_kind_prefix(smells@, "HighCognitiveComplexity"@),
            r.hub_modules == count_kind_prefix(smells@, "HubDependency"@),
    {
        SnapshotSummaryCore {
            total_smells: smells.len(),
            files_analyzed,
            cycles: count_by_type(smells, "CyclicDependency"),
            god_modules: count_by_type(smells, "GodModule"),
            dead_code: count_by_type(smells, "DeadCode"),
            dead_symbols: count_by_type(smells, "DeadSymbol"),
            layer_violations: count_by_type(smells, "LayerViolation"),
            high_cyclomatic_complexity: count_by_type(smells, "HighCyclomaticComplexity"),
            high_cognitive_complexity: count_by_type(smells, "HighCognitiveComplexity"),
            hub_modules: count_by_type(smells, "HubDependency"),
        }
    }

    /// A snapshot of `smells` over `files_analyzed` files, made by archlint
    /// `archlint_version` at `generated_at`; `commit` is recorded where the
    /// generator records commits, and the grade by the letter of `level`.
    pub fn generate(
        &self,
        smells: &[(ArchSmell, Explanation)],
        files_analyzed: usize,
        archlint_version: String,
        generated_at: String,
        commit: Option<String>,
        level: GradeLevel,
    ) -> (r: SnapshotCore)
        requires
            ids_buildable(smells@),
        ensures
            snapshot_made(*self, smells@, files_analyzed, archlint_version, generated_at, commit, level, r),
    {
        let mut out: Vec<SnapshotSmellCore> = Vec::new();
        let mut i: usize = 0;
        while i < smells.len()
            invariant
                i <= smells@.len(),
                ids_buildable(smells@),
                out@.len() == i,
                forall|k: int| 0 <= k < i ==> converted(smells@[k].0, self.project_root@, #[trigger] out@[k]),
            decreases smells@.len() - i,
        {
            let ghost sk = smells@[i as int];
            assert(uses_first_file(sk.0.smell_type) ==> sk.0.files@.len() > 0);
            out.push(self.convert_smell(&smells[i].0));
            i = i + 1;
        }
        let commit = if self.include_commit { commit } else { None };
        SnapshotCore {
            schema_version: SCHEMA_VERSION,
            archlint_version,
            generated_at,
            commit,
            smells: out,
            summary: self.build_summary(smells, files_analyzed),
            grade: grade_letter_of(level),
        }
    }
}

} // verus!
