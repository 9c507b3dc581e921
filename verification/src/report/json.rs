//! The report as a JSON value.

use vstd::prelude::*;
use crate::detectors::{
    ArchSmell, CriticalEdge, CycleCluster, Explanation, HotspotInfo, LocationDetail, MetricArg, SmellMetric, SmellType,
};
use crate::graph::CodeRange;
use crate::report::markdown::summary::grade_level_name;
use crate::report::summary::{counts_match, GradeLevel, SmellCounts};
use crate::snapshot::smell_text::{severity_name, severity_text, smell_type_text, smell_type_text_of};
use crate::text::{append_str, chars_of, decimal, push_char, push_decimal, str_views};

verus! {

/// A JSON value as the report writes it: numbers, texts, arrays, and objects
/// with their entries in the order they are added.
#[derive(Debug, PartialEq, Eq)]
pub enum ReportJson {
    Num(usize),
    Int(i64),
    /// A floating-point number, as Rust writes it.
    Float(String),
    Str(String),
    Array(Vec<ReportJson>),
    Object(Vec<(String, ReportJson)>),
}

/// A JSON value in the abstract.
pub enum JsonModel {
    Num(nat),
    Int(int),
    Float(Seq<char>),
    Str(Seq<char>),
    Array(Seq<JsonModel>),
    Object(Seq<(Seq<char>, JsonModel)>),
}

/// The value that `j` stands for.
pub open spec fn json_model(j: ReportJson) -> JsonModel
    decreases j, 1nat,
{
    match j {
        ReportJson::Num(n) => JsonModel::Num(n as nat),
        ReportJson::Int(n) => JsonModel::Int(n as int),
        ReportJson::Float(t) => JsonModel::Float(t@),
        ReportJson::Str(s) => JsonModel::Str(s@),
        ReportJson::Array(a) => JsonModel::Array(json_models(a@)),
        ReportJson::Object(es) => JsonModel::Object(json_entries(es@)),
    }
}

/// The values that `vs` stand for, in turn.
pub open spec fn json_models(vs: Seq<ReportJson>) -> Seq<JsonModel>
    decreases vs, 0nat,
{
    if vs.len() == 0 {
        Seq::empty()
    } else {
        json_models(vs.drop_last()).push(json_model(vs.last()))
    }
}

/// The entries that `es` stand for, in turn.
pub open spec fn json_entries(es: Seq<(String, ReportJson)>) -> Seq<(Seq<char>, JsonModel)>
    decreases es, 0nat,
{
    if es.len() == 0 {
        Seq::empty()
    } else {
        json_entries(es.drop_last()).push((es.last().0@, json_model(es.last().1)))
    }
}

/// Texts as an array of JSON texts.
pub open spec fn text_models(ts: Seq<Seq<char>>) -> Seq<JsonModel> {
    ts.map_values(|t: Seq<char>| JsonModel::Str(t))
}

/// How the report names the kind of smell `t`: a name in snake case, with the
/// details of a dead symbol, a complex function, feature envy, a hub
/// dependency, test leakage or a layer violation; other kinds written out.
pub open spec fn json_type_text(t: SmellType) -> Seq<char> {
    match t {
        SmellType::CyclicDependency => "cyclic_dependency"@,
        SmellType::CyclicDependencyCluster => "cyclic_dependency_cluster"@,
        SmellType::GodModule => "god_module"@,
        SmellType::DeadCode => "dead_code"@,
        SmellType::DeadSymbol { name, kind } => "dead_symbol: "@ + name@ + " ("@ + kind@ + ")"@,
        SmellType::HighComplexity { name, line, complexity } => "high_complexity: "@ + name@ + " at line "@
            + decimal(line as nat) + " (complexity: "@ + decimal(complexity as nat) + ")"@,
        SmellType::LargeFile => "large_file"@,
        SmellType::UnstableInterface => "unstable_interface"@,
        SmellType::FeatureEnvy { most_envied_module } => "feature_envy: envies "@ + most_envied_module@,
        SmellType::ShotgunSurgery => "shotgun_surgery"@,
        SmellType::HubDependency { package } => "hub_dependency: "@ + package@,
        SmellType::TestLeakage { test_file } => "test_leakage: imports "@ + test_file@,
        SmellType::LayerViolation { from_layer, to_layer } => "layer_violation: "@ + from_layer@ + " -> "@ + to_layer@,
        SmellType::SdpViolation => "sdp_violation"@,
        _ => smell_type_text(t),
    }
}

/// A code range as the report writes it.
pub open spec fn range_model(r: CodeRange) -> JsonModel {
    JsonModel::Object(
        seq![
            ("start_line"@, JsonModel::Num(r.start_line as nat)),
            ("start_column"@, JsonModel::Num(r.start_column as nat)),
            ("end_line"@, JsonModel::Num(r.end_line as nat)),
            ("end_column"@, JsonModel::Num(r.end_column as nat)),
        ],
    )
}

/// A location as the report writes it: its file, line and description, then
/// its column and its range where it has them.
pub open spec fn location_model(loc: LocationDetail) -> JsonModel {
    let base = seq![
        ("file"@, JsonModel::Str(loc.file@)),
        ("line"@, JsonModel::Num(loc.line as nat)),
        ("description"@, JsonModel::Str(loc.description@)),
    ];
    let with_column = match loc.column {
        Some(c) => base.push(("column"@, JsonModel::Num(c as nat))),
        None => base,
    };
    JsonModel::Object(
        match loc.range {
            Some(r) => with_column.push(("range"@, range_model(r))),
            None => with_column,
        },
    )
}

/// An explanation as the report writes it.
pub open spec fn explanation_model(e: Explanation) -> JsonModel {
    JsonModel::Object(
        seq![
            ("problem"@, JsonModel::Str(e.problem@)),
            ("reason"@, JsonModel::Str(e.reason@)),
            ("risks"@, JsonModel::Array(text_models(str_views(e.risks@)))),
            ("recommendations"@, JsonModel::Array(text_models(str_views(e.recommendations@)))),
        ],
    )
}

/// `c` in lower case where it is an ASCII capital letter.
pub open spec fn lower_ascii(c: char) -> char {
    if 'A' <= c && c <= 'Z' {
        ((c as u32) + 32) as char
    } else {
        c
    }
}

/// A metric's name with its first letter in lower case, as the metric's key.
pub open spec fn metric_key(name: Seq<char>) -> Seq<char> {
    if name.len() == 0 {
        name
    } else {
        seq![lower_ascii(name[0])] + name.drop_first()
    }
}

/// The value of a metric as JSON.
pub open spec fn metric_arg_model(a: MetricArg) -> JsonModel {
    match a {
        MetricArg::Int(n) => JsonModel::Int(n as int),
        MetricArg::Float(t) => JsonModel::Float(t@),
        MetricArg::Text(t) => JsonModel::Str(t@),
    }
}

/// A metric as the report writes it: an object of one entry, from the
/// metric's key to its value.
pub open spec fn metric_model(m: SmellMetric) -> JsonModel {
    JsonModel::Object(seq![(metric_key(m.name@), metric_arg_model(m.value))])
}

/// A file of a cluster with many connections, as the report writes it.
pub open spec fn hotspot_model(h: HotspotInfo) -> JsonModel {
    JsonModel::Object(
        seq![
            ("file"@, JsonModel::Str(h.file@)),
            ("in_degree"@, JsonModel::Num(h.in_degree as nat)),
            ("out_degree"@, JsonModel::Num(h.out_degree as nat)),
        ],
    )
}

/// A critical import of a cluster as the report writes it: where it goes
/// from and to, its line and impact, then its column and range where it has
/// a range.
pub open spec fn edge_model(e: CriticalEdge) -> JsonModel {
    let base = seq![
        ("from"@, JsonModel::Str(e.from@)),
        ("to"@, JsonModel::Str(e.to@)),
        ("line"@, JsonModel::Num(e.line as nat)),
        ("impact"@, JsonModel::Str(e.impact@)),
    ];
    JsonModel::Object(
        match e.range {
            Some(r) => base.push(("column"@, JsonModel::Num(r.start_column as nat))).push(("range"@, range_model(r))),
            None => base,
        },
    )
}

/// A cycle cluster as the report writes it: its files, hotspots and critical
/// imports, and the number of imports inside it.
pub open spec fn cluster_model(c: CycleCluster) -> JsonModel {
    JsonModel::Object(
        seq![
            ("files"@, JsonModel::Array(text_models(str_views(c.files@)))),
            ("hotspots"@, JsonModel::Array(c.hotspots@.map_values(|h: HotspotInfo| hotspot_model(h)))),
            ("critical_edges"@, JsonModel::Array(c.critical_edges@.map_values(|e: CriticalEdge| edge_model(e)))),
            ("internal_edges_count"@, JsonModel::Num(c.internal_edges@.len())),
        ],
    )
}

/// A smell with its explanation as the report writes it: its kind, severity,
/// files, places, explanation and metrics, then its cluster where it has one.
pub open spec fn smell_model(smell: ArchSmell, e: Explanation) -> JsonModel {
    let base = seq![
        ("type"@, JsonModel::Str(json_type_text(smell.smell_type))),
        ("severity"@, JsonModel::Str(severity_name(smell.severity))),
        ("files"@, JsonModel::Array(text_models(str_views(smell.files@)))),
        ("locations"@, JsonModel::Array(smell.locations@.map_values(|l: LocationDetail| location_model(l)))),
        ("explanation"@, explanation_model(e)),
        ("metrics"@, JsonModel::Array(smell.metrics@.map_values(|m: SmellMetric| metric_model(m)))),
    ];
    JsonModel::Object(
        match smell.cluster {
            Some(c) => base.push(("cluster"@, cluster_model(c))),
            None => base,
        },
    )
}

/// How many of `smells` are cycle clusters.
pub open spec fn cluster_count(smells: Seq<(ArchSmell, Explanation)>) -> nat
    decreases smells.len(),
{
    if smells.len() == 0 {
        0
    } else {
        cluster_count(smells.drop_last()) + if smells.last().0.smell_type is CyclicDependencyCluster {
            1nat
        } else {
            0nat
        }
    }
}

/// How many files the cycle clusters of `smells` hold, together.
pub open spec fn cluster_files(smells: Seq<(ArchSmell, Explanation)>) -> nat
    decreases smells.len(),
{
    if smells.len() == 0 {
        0
    } else {
        cluster_files(smells.drop_last()) + if smells.last().0.smell_type is CyclicDependencyCluster {
            smells.last().0.files@.len()
        } else {
            0nat
        }
    }
}

/// The summary of the report: the files analysed, each count, the cycle
/// clusters and the files in them, the number of smells, and the grade (its
/// score and density given as text, as they are written).
pub open spec fn summary_model(
    smells: Seq<(ArchSmell, Explanation)>,
    counts: SmellCounts,
    files_analyzed: nat,
    score_text: Seq<char>,
    level: GradeLevel,
    density_text: Seq<char>,
) -> JsonModel {
    JsonModel::Object(
        seq![
            ("files_analyzed"@, JsonModel::Num(files_analyzed)),
            ("cyclic_dependencies"@, JsonModel::Num(counts.cyclic_dependencies as nat)),
            ("cycle_clusters"@, JsonModel::Num(cluster_count(smells))),
            ("files_in_cycles"@, JsonModel::Num(cluster_files(smells))),
            ("god_modules"@, JsonModel::Num(counts.god_modules as nat)),
            ("dead_code"@, JsonModel::Num(counts.dead_code as nat)),
            ("dead_symbols"@, JsonModel::Num(counts.dead_symbols as nat)),
            ("high_complexity_functions"@, JsonModel::Num(counts.high_complexity_functions as nat)),
            ("large_files"@, JsonModel::Num(counts.large_files as nat)),
            ("unstable_interfaces"@, JsonModel::Num(counts.unstable_interfaces as nat)),
            ("feature_envy"@, JsonModel::Num(counts.feature_envy as nat)),
            ("shotgun_surgery"@, JsonModel::Num(counts.shotgun_surgery as nat)),
            ("hub_dependencies"@, JsonModel::Num(counts.hub_dependencies as nat)),
            ("total_smells"@, JsonModel::Num(smells.len())),
            (
                "architecture_grade"@,
                JsonModel::Object(
                    seq![
                        ("score"@, JsonModel::Str(score_text)),
                        ("level"@, JsonModel::Str(grade_level_name(level))),
                        ("density"@, JsonModel::Str(density_text)),
                    ],
                ),
            ),
        ],
    )
}

/// The whole report: its summary, then each smell with its explanation.
pub open spec fn report_model(
    smells: Seq<(ArchSmell, Explanation)>,
    counts: SmellCounts,
    files_analyzed: nat,
    score_text: Seq<char>,
    level: GradeLevel,
    density_text: Seq<char>,
) -> JsonModel {
    JsonModel::Object(
        seq![
            ("summary"@, summary_model(smells, counts, files_analyzed, score_text, level, density_text)),
            ("smells"@, JsonModel::Array(smells.map_values(|p: (ArchSmell, Explanation)| smell_model(p.0, p.1)))),
        ],
    )
}

fn push_value(vs: &mut Vec<ReportJson>, x: ReportJson)
    ensures
        json_models(final(vs)@) == json_models(old(vs)@).push(json_model(x)),
{
    let ghost before = vs@;
    vs.push(x);
    assert(vs@.drop_last() =~= before);
}

fn no_entries() -> (es: Vec<(String, ReportJson)>)
    ensures
        json_entries(es@) == Seq::<(Seq<char>, JsonModel)>::empty(),
{
    let es: Vec<(String, ReportJson)> = Vec::new();
    assert(es@.len() == 0);
    es
}

fn object(es: Vec<(String, ReportJson)>) -> (j: ReportJson)
    ensures
        json_model(j) == JsonModel::Object(json_entries(es@)),
{
    ReportJson::Object(es)
}

fn push_entry(es: &mut Vec<(String, ReportJson)>, key: &str, x: ReportJson)
    ensures
        json_entries(final(es)@) == json_entries(old(es)@).push((key@, json_model(x))),
{
    let ghost before = es@;
    es.push((key.to_owned(), x));
    assert(es@.drop_last() =~= before);
}

fn text_array(ts: &[String]) -> (r: ReportJson)
    ensures
        json_model(r) == JsonModel::Array(text_models(str_views(ts@))),
{
    let mut vs: Vec<ReportJson> = Vec::new();
    let mut i: usize = 0;
    while i < ts.len()
        invariant
            i <= ts@.len(),
            json_models(vs@) == text_models(str_views(ts@).take(i as int)),
        decreases ts@.len() - i,
    {
        push_value(&mut vs, ReportJson::Str(ts[i].clone()));
        assert(text_models(str_views(ts@).take(i + 1)) =~= text_models(str_views(ts@).take(i as int)).push(
            JsonModel::Str(ts@[i as int]@),
        ));
        i = i + 1;
    }
    assert(str_views(ts@).take(ts@.len() as int) =~= str_views(ts@));
    ReportJson::Array(vs)
}

/// How the report names the kind of smell `t`.
pub fn json_type_of(t: &SmellType) -> (r: String)
    ensures
        r@ == json_type_text(*t),
{
    match t {
        SmellType::CyclicDependency => "cyclic_dependency".to_owned(),
        SmellType::CyclicDependencyCluster => "cyclic_dependency_cluster".to_owned(),
        SmellType::GodModule => "god_module".to_owned(),
        SmellType::DeadCode => "dead_code".to_owned(),
        SmellType::DeadSymbol { name, kind } => {
            let mut s = "dead_symbol: ".to_owned();
            append_str(&mut s, name.as_str());
            append_str(&mut s, " (");
            append_str(&mut s, kind.as_str());
            append_str(&mut s, ")");
            s
        },
        SmellType::HighComplexity { name, line, complexity } => {
            let mut s = "high_complexity: ".to_owned();
            append_str(&mut s, name.as_str());
            append_str(&mut s, " at line ");
            push_decimal(&mut s, *line);
            append_str(&mut s, " (complexity: ");
            push_decimal(&mut s, *complexity);
            append_str(&mut s, ")");
            s
        },
        SmellType::LargeFile => "large_file".to_owned(),
        SmellType::UnstableInterface => "unstable_interface".to_owned(),
        SmellType::FeatureEnvy { most_envied_module } => {
            let mut s = "feature_envy: envies ".to_owned();
            append_str(&mut s, most_envied_module.as_str());
            s
        },
        SmellType::ShotgunSurgery => "shotgun_surgery".to_owned(),
        SmellType::HubDependency { package } => {
            let mut s = "hub_dependency: ".to_owned();
            append_str(&mut s, package.as_str());
            s
        },
        SmellType::TestLeakage { test_file } => {
            let mut s = "test_leakage: imports ".to_owned();
            append_str(&mut s, test_file.as_str());
            s
        },
        SmellType::LayerViolation { from_layer, to_layer } => {
            let mut s = "layer_violation: ".to_owned();
            append_str(&mut s, from_layer.as_str());
            append_str(&mut s, " -> ");
            append_str(&mut s, to_layer.as_str());
            s
        },
        SmellType::SdpViolation => "sdp_violation".to_owned(),
        _ => smell_type_text_of(t),
    }
}

fn range_json(r: &CodeRange) -> (j: ReportJson)
    ensures
        json_model(j) == range_model(*r),
{
    let mut es = no_entries();
    push_entry(&mut es, "start_line", ReportJson::Num(r.start_line));
    push_entry(&mut es, "start_column", ReportJson::Num(r.start_column));
    push_entry(&mut es, "end_line", ReportJson::Num(r.end_line));
    push_entry(&mut es, "end_column", ReportJson::Num(r.end_column));
    assert(json_entries(es@) =~= range_model(*r)->Object_0);
    object(es)
}

fn location_json(loc: &LocationDetail) -> (j: ReportJson)
    ensures
        json_model(j) == location_model(*loc),
{
    let mut es = no_entries();
    push_entry(&mut es, "file", ReportJson::Str(loc.file.clone()));
    push_entry(&mut es, "line", ReportJson::Num(loc.line));
    push_entry(&mut es, "description", ReportJson::Str(loc.description.clone()));
    match loc.column {
        Some(c) => push_entry(&mut es, "column", ReportJson::Num(c)),
        None => {},
    }
    match &loc.range {
        Some(r) => push_entry(&mut es, "range", range_json(r)),
        None => {},
    }
    assert(json_entries(es@) =~= location_model(*loc)->Object_0);
    object(es)
}

fn explanation_json(e: &Explanation) -> (j: ReportJson)
    ensures
        json_model(j) == explanation_model(*e),
{
    let mut es = no_entries();
    push_entry(&mut es, "problem", ReportJson::Str(e.problem.clone()));
    push_entry(&mut es, "reason", ReportJson::Str(e.reason.clone()));
    push_entry(&mut es, "risks", text_array(e.risks.as_slice()));
    push_entry(&mut es, "recommendations", text_array(e.recommendations.as_slice()));
    assert(json_entries(es@) =~= explanation_model(*e)->Object_0);
    object(es)
}

fn smell_json(smell: &ArchSmell, e: &Explanation) -> (j: ReportJson)
    ensures
        json_model(j) == smell_model(*smell, *e),
{
    let mut locs: Vec<ReportJson> = Vec::new();
    let mut i: usize = 0;
    while i < smell.locations.len()
        invariant
            i <= smell.locations@.len(),
            json_models(locs@) == smell.locations@.take(i as int).map_values(|l: LocationDetail| location_model(l)),
        decreases smell.locations@.len() - i,
    {
        push_value(&mut locs, location_json(&smell.locations[i]));
        assert(smell.locations@.take(i + 1).map_values(|l: LocationDetail| location_model(l)) =~= smell.locations@.take(
            i as int,
        ).map_values(|l: LocationDetail| location_model(l)).push(location_model(smell.locations@[i as int])));
        i = i + 1;
    }
    assert(smell.locations@.take(smell.locations@.len() as int) =~= smell.locations@);
    let mut es = no_entries();
    push_entry(&mut es, "type", ReportJson::Str(json_type_of(&smell.smell_type)));
    push_entry(&mut es, "severity", ReportJson::Str(severity_text(&smell.severity)));
    push_entry(&mut es, "files", text_array(smell.files.as_slice()));
    push_entry(&mut es, "locations", ReportJson::Array(locs));
    push_entry(&mut es, "explanation", explanation_json(e));
    push_entry(&mut es, "metrics", metrics_json(&smell.metrics));
    match &smell.cluster {
        Some(c) => push_entry(&mut es, "cluster", cluster_json(c)),
        None => {},
    }
    assert(json_entries(es@) =~= smell_model(*smell, *e)->Object_0);
    object(es)
}

fn lower_ascii_of(c: char) -> (r: char)
    ensures
        r == lower_ascii(c),
{
    if 'A' <= c && c <= 'Z' {
        ((c as u8) + 32) as char
    } else {
        c
    }
}

/// A metric's name with its first letter in lower case.
pub fn metric_key_of(name: &str) -> (r: String)
    ensures
        r@ == metric_key(name@),
{
    let cs = chars_of(name);
    if cs.len() == 0 {
        return String::new();
    }
    let mut r = String::new();
    push_char(&mut r, lower_ascii_of(cs[0]));
    let mut i: usize = 1;
    while i < cs.len()
        invariant
            1 <= i <= cs@.len(),
            cs@ == name@,
            r@ == seq![lower_ascii(cs@[0])] + cs@.subrange(1, i as int),
        decreases cs@.len() - i,
    {
        push_char(&mut r, cs[i]);
        assert(r@ =~= seq![lower_ascii(cs@[0])] + cs@.subrange(1, i + 1));
        i = i + 1;
    }
    assert(cs@.subrange(1, cs@.len() as int) =~= cs@.drop_first());
    r
}

fn metric_json(m: &SmellMetric) -> (j: ReportJson)
    ensures
        json_model(j) == metric_model(*m),
{
    let value = match &m.value {
        MetricArg::Int(n) => ReportJson::Int(*n),
        MetricArg::Float(t) => ReportJson::Float(t.clone()),
        MetricArg::Text(t) => ReportJson::Str(t.clone()),
    };
    let key = metric_key_of(m.name.as_str());
    let mut es = no_entries();
    push_entry(&mut es, key.as_str(), value);
    assert(json_entries(es@) =~= metric_model(*m)->Object_0);
    object(es)
}

fn metrics_json(ms: &Vec<SmellMetric>) -> (j: ReportJson)
    ensures
        json_model(j) == JsonModel::Array(ms@.map_values(|m: SmellMetric| metric_model(m))),
{
    let mut vs: Vec<ReportJson> = Vec::new();
    let mut i: usize = 0;
    while i < ms.len()
        invariant
            i <= ms@.len(),
            json_models(vs@) == ms@.take(i as int).map_values(|m: SmellMetric| metric_model(m)),
        decreases ms@.len() - i,
    {
        push_value(&mut vs, metric_json(&ms[i]));
        assert(ms@.take(i + 1).map_values(|m: SmellMetric| metric_model(m)) =~= ms@.take(i as int).map_values(
            |m: SmellMetric| metric_model(m),
        ).push(metric_model(ms@[i as int])));
        i = i + 1;
    }
    assert(ms@.take(ms@.len() as int) =~= ms@);
    ReportJson::Array(vs)
}

fn hotspot_json(h: &HotspotInfo) -> (j: ReportJson)
    ensures
        json_model(j) == hotspot_model(*h),
{
    let mut es = no_entries();
    push_entry(&mut es, "file", ReportJson::Str(h.file.clone()));
    push_entry(&mut es, "in_degree", ReportJson::Num(h.in_degree));
    push_entry(&mut es, "out_degree", ReportJson::Num(h.out_degree));
    assert(json_entries(es@) =~= hotspot_model(*h)->Object_0);
    object(es)
}

fn edge_json(e: &CriticalEdge) -> (j: ReportJson)
    ensures
        json_model(j) == edge_model(*e),
{
    let mut es = no_entries();
    push_entry(&mut es, "from", ReportJson::Str(e.from.clone()));
    push_entry(&mut es, "to", ReportJson::Str(e.to.clone()));
    push_entry(&mut es, "line", ReportJson::Num(e.line));
    push_entry(&mut es, "impact", ReportJson::Str(e.impact.clone()));
    match &e.range {
        Some(r) => {
            push_entry(&mut es, "column", ReportJson::Num(r.start_column));
            push_entry(&mut es, "range", range_json(r));
        },
        None => {},
    }
    assert(json_entries(es@) =~= edge_model(*e)->Object_0);
    object(es)
}

fn cluster_json(c: &CycleCluster) -> (j: ReportJson)
    ensures
        json_model(j) == cluster_model(*c),
{
    let mut hs: Vec<ReportJson> = Vec::new();
    let mut i: usize = 0;
    while i < c.hotspots.len()
        invariant
            i <= c.hotspots@.len(),
            json_models(hs@) == c.hotspots@.take(i as int).map_values(|h: HotspotInfo| hotspot_model(h)),
        decreases c.hotspots@.len() - i,
    {
        push_value(&mut hs, hotspot_json(&c.hotspots[i]));
        assert(c.hotspots@.take(i + 1).map_values(|h: HotspotInfo| hotspot_model(h)) =~= c.hotspots@.take(
            i as int,
        ).map_values(|h: HotspotInfo| hotspot_model(h)).push(hotspot_model(c.hotspots@[i as int])));
        i = i + 1;
    }
    assert(c.hotspots@.take(c.hotspots@.len() as int) =~= c.hotspots@);
    let mut eds: Vec<ReportJson> = Vec::new();
    let mut k: usize = 0;
    while k < c.critical_edges.len()
        invariant
            k <= c.critical_edges@.len(),
            json_models(eds@) == c.critical_edges@.take(k as int).map_values(|e: CriticalEdge| edge_model(e)),
        decreases c.critical_edges@.len() - k,
    {
        push_value(&mut eds, edge_json(&c.critical_edges[k]));
        assert(c.critical_edges@.take(k + 1).map_values(|e: CriticalEdge| edge_model(e)) =~= c.critical_edges@.take(
            k as int,
        ).map_values(|e: CriticalEdge| edge_model(e)).push(edge_model(c.critical_edges@[k as int])));
        k = k + 1;
    }
    assert(c.critical_edges@.take(c.critical_edges@.len() as int) =~= c.critical_edges@);
    let mut es = no_entries();
    push_entry(&mut es, "files", text_array(c.files.as_slice()));
    push_entry(&mut es, "hotspots", ReportJson::Array(hs));
    push_entry(&mut es, "critical_edges", ReportJson::Array(eds));
    push_entry(&mut es, "internal_edges_count", ReportJson::Num(c.internal_edges.len()));
    assert(json_entries(es@) =~= cluster_model(*c)->Object_0);
    object(es)
}

proof fn lemma_cluster_count_bound(smells: Seq<(ArchSmell, Explanation)>)
    ensures
        cluster_count(smells) <= smells.len(),
    decreases smells.len(),
{
    if smells.len() > 0 {
        lemma_cluster_count_bound(smells.drop_last());
    }
}

proof fn lemma_cluster_files_prefix(smells: Seq<(ArchSmell, Explanation)>, i: int)
    requires
        0 <= i <= smells.len(),
    ensures
        cluster_files(smells.take(i)) <= cluster_files(smells),
    decreases smells.len(),
{
    if i < smells.len() {
        assert(smells.drop_last().take(i) =~= smells.take(i));
        lemma_cluster_files_prefix(smells.drop_last(), i);
    } else {
        assert(smells.take(i) =~= smells);
    }
}

/// The number of cycle clusters among `smells` and the files they hold.
fn cluster_totals(smells: &[(ArchSmell, Explanation)]) -> (r: (usize, usize))
    requires
        cluster_files(smells@) <= usize::MAX,
    ensures
        r.0 == cluster_count(smells@),
        r.1 == cluster_files(smells@),
{
    let mut clusters: usize = 0;
    let mut files: usize = 0;
    let mut i: usize = 0;
    while i < smells.len()
        invariant
            i <= smells@.len(),
            cluster_files(smells@) <= usize::MAX,
            clusters == cluster_count(smells@.take(i as int)),
            files == cluster_files(smells@.take(i as int)),
        decreases smells@.len() - i,
    {
        proof {
            assert(smells@.take(i + 1).drop_last() =~= smells@.take(i as int));
            lemma_cluster_count_bound(smells@.take(i + 1));
            lemma_cluster_files_prefix(smells@, i + 1);
        }
        if matches!(smells[i].0.smell_type, SmellType::CyclicDependencyCluster) {
            clusters = clusters + 1;
            files = files + smells[i].0.files.len();
        }
        i = i + 1;
    }
    assert(smells@.take(smells@.len() as int) =~= smells@);
    (clusters, files)
}

fn summary_json(
    smells: &[(ArchSmell, Explanation)],
    counts: &SmellCounts,
    files_analyzed: usize,
    score_text: &str,
    level: GradeLevel,
    density_text: &str,
) -> (j: ReportJson)
    requires
        cluster_files(smells@) <= usize::MAX,
    ensures
        json_model(j) == summary_model(smells@, *counts, files_analyzed as nat, score_text@, level, density_text@),
{
    let (clusters, in_cycles) = cluster_totals(smells);
    let mut grade = no_entries();
    push_entry(&mut grade, "score", ReportJson::Str(score_text.to_owned()));
    let mut level_name = String::new();
    match level {
        GradeLevel::Excellent => append_str(&mut level_name, "Excellent"),
        GradeLevel::Good => append_str(&mut level_name, "Good"),
        GradeLevel::Fair => append_str(&mut level_name, "Fair"),
        GradeLevel::Moderate => append_str(&mut level_name, "Moderate"),
        GradeLevel::Poor => append_str(&mut level_name, "Poor"),
        GradeLevel::Critical => append_str(&mut level_name, "Critical"),
    }
    push_entry(&mut grade, "level", ReportJson::Str(level_name));
    push_entry(&mut grade, "density", ReportJson::Str(density_text.to_owned()));
    let ghost grade_entries = json_entries(grade@);
    let mut es = no_entries();
    push_entry(&mut es, "files_analyzed", ReportJson::Num(files_analyzed));
    push_entry(&mut es, "cyclic_dependencies", ReportJson::Num(counts.cyclic_dependencies));
    push_entry(&mut es, "cycle_clusters", ReportJson::Num(clusters));
    push_entry(&mut es, "files_in_cycles", ReportJson::Num(in_cycles));
    push_entry(&mut es, "god_modules", ReportJson::Num(counts.god_modules));
    push_entry(&mut es, "dead_code", ReportJson::Num(counts.dead_code));
    push_entry(&mut es, "dead_symbols", ReportJson::Num(counts.dead_symbols));
    push_entry(&mut es, "high_complexity_functions", ReportJson::Num(counts.high_complexity_functions));
    push_entry(&mut es, "large_files", ReportJson::Num(counts.large_files));
    push_entry(&mut es, "unstable_interfaces", ReportJson::Num(counts.unstable_interfaces));
    push_entry(&mut es, "feature_envy", ReportJson::Num(counts.feature_envy));
    push_entry(&mut es, "shotgun_surgery", ReportJson::Num(counts.shotgun_surgery));
    push_entry(&mut es, "hub_dependencies", ReportJson::Num(counts.hub_dependencies));
    push_entry(&mut es, "total_smells", ReportJson::Num(smells.len()));
    push_entry(&mut es, "architecture_grade", object(grade));
    proof {
        let m = summary_model(smells@, *counts, files_analyzed as nat, score_text@, level, density_text@);
        assert(grade_entries =~= m->Object_0[14].1->Object_0);
        assert(json_entries(es@) =~= m->Object_0);
    }
    object(es)
}

/// The report as JSON: its summary (`counts` are the report's counts of
/// `smells`; `score_text` and `density_text` are the grade's score and
/// density as written, with one and two decimals), then each smell with its
/// explanation.
pub fn generate_json(
    smells: &[(ArchSmell, Explanation)],
    counts: &SmellCounts,
    files_analyzed: usize,
    score_text: &str,
    level: GradeLevel,
    density_text: &str,
) -> (j: ReportJson)
    requires
        counts_match(*counts, smells@),
        cluster_files(smells@) <= usize::MAX,
    ensures
        json_model(j) == report_model(smells@, *counts, files_analyzed as nat, score_text@, level, density_text@),
{
    let mut items: Vec<ReportJson> = Vec::new();
    let mut i: usize = 0;
    while i < smells.len()
        invariant
            i <= smells@.len(),
            json_models(items@) == smells@.take(i as int).map_values(
                |p: (ArchSmell, Explanation)| smell_model(p.0, p.1),
            ),
        decreases smells@.len() - i,
    {
        push_value(&mut items, smell_json(&smells[i].0, &smells[i].1));
        assert(smells@.take(i + 1).map_values(|p: (ArchSmell, Explanation)| smell_model(p.0, p.1)) =~= smells@.take(
            i as int,
        ).map_values(|p: (ArchSmell, Explanation)| smell_model(p.0, p.1)).push(
            smell_model(smells@[i as int].0, smells@[i as int].1),
        ));
        i = i + 1;
    }
    assert(smells@.take(smells@.len() as int) =~= smells@);
    let mut es = no_entries();
    push_entry(&mut es, "summary", summary_json(smells, counts, files_analyzed, score_text, level, density_text));
    push_entry(&mut es, "smells", ReportJson::Array(items));
    assert(json_entries(es@) =~= report_model(smells@, *counts, files_analyzed as nat, score_text@, level, density_text@)->Object_0);
    object(es)
}

} // verus!
