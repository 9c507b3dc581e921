//! A smell written out field by field in Rust's `Debug` notation: its kind
//! with the kind's fields, its severity, its files, its metrics, its places
//! and its cluster, texts quoted and escaped. The stable ID of a smell that
//! has neither a line nor a location falls back to a hash of this text.

use vstd::prelude::*;
use crate::detectors::{
    smell_type_name, ArchSmell, CriticalEdge, CycleCluster, HotspotInfo, LocationDetail, MetricArg, Severity, SmellMetric,
    SmellType,
};
use crate::graph::CodeRange;
use crate::text::{append_str, chars_of, decimal, digit_char, join, join_strings, push_char, push_decimal, str_views};

verus! {

/// The lower-case hexadecimal digit for `d < 16`.
pub open spec fn hex_digit(d: nat) -> char {
    if d < 10 { digit_char(d) }
    else if d == 10 { 'a' }
    else if d == 11 { 'b' }
    else if d == 12 { 'c' }
    else if d == 13 { 'd' }
    else if d == 14 { 'e' }
    else { 'f' }
}

/// Lower-case hexadecimal notation of `n`, without leading zeros.
pub open spec fn hex(n: nat) -> Seq<char>
    decreases n,
{
    if n < 16 {
        seq![hex_digit(n)]
    } else {
        hex(n / 16).push(hex_digit(n % 16))
    }
}

/// How `c` is written inside a quoted text: a quote or backslash behind a
/// backslash; newline, carriage return, tab and NUL as `\n`, `\r`, `\t`,
/// `\0`; other ASCII control characters as `\u{..}` with the code in
/// hexadecimal; any other character as it is.
pub open spec fn escape_char(c: char) -> Seq<char> {
    if c == '"' {
        seq!['\\', '"']
    } else if c == '\\' {
        seq!['\\', '\\']
    } else if c == '\n' {
        seq!['\\', 'n']
    } else if c == '\r' {
        seq!['\\', 'r']
    } else if c == '\t' {
        seq!['\\', 't']
    } else if c == '\0' {
        seq!['\\', '0']
    } else if (c as u32) < 0x20 || (c as u32) == 0x7f {
        seq!['\\', 'u', '{'] + hex(c as u32 as nat) + seq!['}']
    } else {
        seq![c]
    }
}

/// `s` with each character written as inside a quoted text.
pub open spec fn escaped(s: Seq<char>) -> Seq<char>
    decreases s.len(),
{
    if s.len() == 0 {
        Seq::empty()
    } else {
        escaped(s.drop_last()) + escape_char(s.last())
    }
}

/// `s` in double quotes, escaped.
pub open spec fn quoted(s: Seq<char>) -> Seq<char> {
    seq!['"'] + escaped(s) + seq!['"']
}

/// Texts between brackets, separated by `, `.
pub open spec fn list_text(items: Seq<Seq<char>>) -> Seq<char> {
    seq!['['] + join(items, ", "@) + seq![']']
}

/// Each of `ss` quoted, between brackets and separated by `, `.
pub open spec fn quoted_list(ss: Seq<Seq<char>>) -> Seq<char> {
    list_text(ss.map_values(|s: Seq<char>| quoted(s)))
}

/// A whole number in decimal, with a minus sign where it is negative.
pub open spec fn signed_decimal(n: int) -> Seq<char> {
    if n < 0 {
        seq!['-'] + decimal((-n) as nat)
    } else {
        decimal(n as nat)
    }
}

/// The fields of a kind of smell, each with its name and its value written
/// out, in the order they are declared.
pub open spec fn smell_type_fields(t: SmellType) -> Seq<(Seq<char>, Seq<char>)> {
    match t {
        SmellType::CyclicDependency => Seq::empty(),
        SmellType::CyclicDependencyCluster => Seq::empty(),
        SmellType::GodModule => Seq::empty(),
        SmellType::DeadCode => Seq::empty(),
        SmellType::DeadSymbol { name, kind } => seq![("name"@, quoted(name@)), ("kind"@, quoted(kind@))],
        SmellType::HighComplexity { name, line, complexity } => seq![("name"@, quoted(name@)), ("line"@, decimal(line as nat)), ("complexity"@, decimal(complexity as nat))],
        SmellType::HighCyclomaticComplexity { name, line, complexity } => seq![("name"@, quoted(name@)), ("line"@, decimal(line as nat)), ("complexity"@, decimal(complexity as nat))],
        SmellType::HighCognitiveComplexity { name, line, complexity } => seq![("name"@, quoted(name@)), ("line"@, decimal(line as nat)), ("complexity"@, decimal(complexity as nat))],
        SmellType::LargeFile => Seq::empty(),
        SmellType::UnstableInterface => Seq::empty(),
        SmellType::FeatureEnvy { most_envied_module } => seq![("most_envied_module"@, quoted(most_envied_module@))],
        SmellType::ShotgunSurgery => Seq::empty(),
        SmellType::HubDependency { package } => seq![("package"@, quoted(package@))],
        SmellType::OrphanType { name } => seq![("name"@, quoted(name@))],
        SmellType::TestLeakage { test_file } => seq![("test_file"@, quoted(test_file@))],
        SmellType::LayerViolation { from_layer, to_layer } => seq![("from_layer"@, quoted(from_layer@)), ("to_layer"@, quoted(to_layer@))],
        SmellType::SdpViolation => Seq::empty(),
        SmellType::BarrelFileAbuse => Seq::empty(),
        SmellType::VendorCoupling { package } => seq![("package"@, quoted(package@))],
        SmellType::SideEffectImport => Seq::empty(),
        SmellType::HubModule => Seq::empty(),
        SmellType::LowCohesion { lcom, class_name } => seq![("lcom"@, decimal(lcom as nat)), ("class_name"@, quoted(class_name@))],
        SmellType::ScatteredModule { components } => seq![("components"@, decimal(components as nat))],
        SmellType::HighCoupling { cbo } => seq![("cbo"@, decimal(cbo as nat))],
        SmellType::PackageCycle { packages } => seq![("packages"@, quoted_list(str_views(packages@)))],
        SmellType::SharedMutableState { symbol } => seq![("symbol"@, quoted(symbol@))],
        SmellType::DeepNesting { name, depth, line } => seq![("name"@, quoted(name@)), ("depth"@, decimal(depth as nat)), ("line"@, decimal(line as nat))],
        SmellType::LongParameterList { count, name } => seq![("count"@, decimal(count as nat)), ("name"@, quoted(name@))],
        SmellType::PrimitiveObsession { primitives, name } => seq![("primitives"@, decimal(primitives as nat)), ("name"@, quoted(name@))],
        SmellType::CircularTypeDependency => Seq::empty(),
        SmellType::AbstractnessViolation => Seq::empty(),
        SmellType::ScatteredConfiguration { env_var, files_count } => seq![("env_var"@, quoted(env_var@)), ("files_count"@, decimal(files_count as nat))],
        SmellType::CodeClone { clone_hash, token_count } => seq![("clone_hash"@, quoted(clone_hash@)), ("token_count"@, decimal(token_count as nat))],
        SmellType::Unknown { raw_type } => seq![("raw_type"@, quoted(raw_type@))],
    }
}

/// Each field as `name: value`.
pub open spec fn field_texts(fs: Seq<(Seq<char>, Seq<char>)>) -> Seq<Seq<char>> {
    fs.map_values(|f: (Seq<char>, Seq<char>)| f.0 + ": "@ + f.1)
}

/// A kind of smell written out: its name, and its fields in braces where it
/// has any.
pub open spec fn smell_type_text(t: SmellType) -> Seq<char> {
    let fs = smell_type_fields(t);
    if fs.len() == 0 {
        smell_type_name(t)
    } else {
        smell_type_name(t) + " { "@ + join(field_texts(fs), ", "@) + " }"@
    }
}

/// The name of a severity.
pub open spec fn severity_name(s: Severity) -> Seq<char> {
    match s {
        Severity::Low => "Low"@,
        Severity::Medium => "Medium"@,
        Severity::High => "High"@,
        Severity::Critical => "Critical"@,
    }
}

/// An optional number written out: `None`, or `Some(n)`.
pub open spec fn option_text(o: Option<usize>) -> Seq<char> {
    match o {
        Some(n) => "Some("@ + decimal(n as nat) + seq![')'],
        None => "None"@,
    }
}

/// A range written out.
pub open spec fn range_text(r: CodeRange) -> Seq<char> {
    "CodeRange { start_line: "@ + decimal(r.start_line as nat) + ", start_column: "@ + decimal(r.start_column as nat)
        + ", end_line: "@ + decimal(r.end_line as nat) + ", end_column: "@ + decimal(r.end_column as nat) + " }"@
}

/// A place written out.
pub open spec fn location_text(l: LocationDetail) -> Seq<char> {
    "LocationDetail { file: "@ + quoted(l.file@) + ", line: "@ + decimal(l.line as nat) + ", column: "@ + option_text(l.column)
        + ", range: "@ + (match l.range {
        Some(r) => "Some("@ + range_text(r) + seq![')'],
        None => "None"@,
    }) + ", description: "@ + quoted(l.description@) + " }"@
}

/// Places written out, between brackets and separated by `, `.
pub open spec fn locations_text(ls: Seq<LocationDetail>) -> Seq<char> {
    list_text(ls.map_values(|l: LocationDetail| location_text(l)))
}

/// The value of a metric written out.
pub open spec fn metric_arg_text(a: MetricArg) -> Seq<char> {
    match a {
        MetricArg::Int(n) => signed_decimal(n as int),
        MetricArg::Float(t) => t@,
        MetricArg::Text(t) => quoted(t@),
    }
}

/// A metric written out: its name, then its value in parentheses.
pub open spec fn metric_text(m: SmellMetric) -> Seq<char> {
    m.name@ + seq!['('] + metric_arg_text(m.value) + seq![')']
}

/// A file of a cluster with many connections, written out.
pub open spec fn hotspot_text(h: HotspotInfo) -> Seq<char> {
    "HotspotInfo { file: "@ + quoted(h.file@) + ", in_degree: "@ + decimal(h.in_degree as nat) + ", out_degree: "@
        + decimal(h.out_degree as nat) + " }"@
}

/// An optional range written out.
pub open spec fn option_range_text(r: Option<CodeRange>) -> Seq<char> {
    match r {
        Some(g) => "Some("@ + range_text(g) + seq![')'],
        None => "None"@,
    }
}

/// A critical import of a cluster, written out.
pub open spec fn edge_text(e: CriticalEdge) -> Seq<char> {
    "CriticalEdge { from: "@ + quoted(e.from@) + ", to: "@ + quoted(e.to@) + ", line: "@ + decimal(e.line as nat)
        + ", range: "@ + option_range_text(e.range) + ", impact: "@ + quoted(e.impact@) + " }"@
}

/// A cycle cluster written out.
pub open spec fn cluster_text(c: CycleCluster) -> Seq<char> {
    "CycleCluster { files: "@ + quoted_list(str_views(c.files@)) + ", hotspots: "@ + list_text(
        c.hotspots@.map_values(|h: HotspotInfo| hotspot_text(h)),
    ) + ", critical_edges: "@ + list_text(c.critical_edges@.map_values(|e: CriticalEdge| edge_text(e)))
        + ", internal_edges: "@ + locations_text(c.internal_edges@) + " }"@
}

/// An optional cluster written out.
pub open spec fn option_cluster_text(c: Option<CycleCluster>) -> Seq<char> {
    match c {
        Some(k) => "Some("@ + cluster_text(k) + seq![')'],
        None => "None"@,
    }
}

/// A smell written out: its kind, its severity, its files, its metrics, its
/// places and its cluster.
pub open spec fn smell_text(smell: ArchSmell) -> Seq<char> {
    "ArchSmell { smell_type: "@ + smell_type_text(smell.smell_type) + ", severity: "@ + severity_name(smell.severity)
        + ", files: "@ + quoted_list(str_views(smell.files@)) + ", metrics: "@ + list_text(
        smell.metrics@.map_values(|m: SmellMetric| metric_text(m)),
    ) + ", locations: "@ + locations_text(smell.locations@) + ", cluster: "@ + option_cluster_text(smell.cluster)
        + " }"@
}

/// The views of (name, value) pairs.
pub open spec fn pair_views(ps: Seq<(String, String)>) -> Seq<(Seq<char>, Seq<char>)> {
    ps.map_values(|p: (String, String)| (p.0@, p.1@))
}

fn hex_digit_of(d: u32) -> (c: char)
    requires
        d < 16,
    ensures
        c == hex_digit(d as nat),
{
    if d == 0 { '0' }
    else if d == 1 { '1' }
    else if d == 2 { '2' }
    else if d == 3 { '3' }
    else if d == 4 { '4' }
    else if d == 5 { '5' }
    else if d == 6 { '6' }
    else if d == 7 { '7' }
    else if d == 8 { '8' }
    else if d == 9 { '9' }
    else if d == 10 { 'a' }
    else if d == 11 { 'b' }
    else if d == 12 { 'c' }
    else if d == 13 { 'd' }
    else if d == 14 { 'e' }
    else { 'f' }
}

fn push_hex(out: &mut String, n: u32)
    ensures
        final(out)@ == old(out)@ + hex(n as nat),
    decreases n,
{
    if n >= 16 {
        push_hex(out, n / 16);
    }
    let c = hex_digit_of(n % 16);
    push_char(out, c);
    assert(final(out)@ =~= old(out)@ + hex(n as nat)) by {
        reveal_with_fuel(hex, 2);
    }
}

fn push_escaped_char(out: &mut String, c: char)
    ensures
        final(out)@ == old(out)@ + escape_char(c),
{
    let ghost before = out@;
    if c == '"' {
        push_char(out, '\\');
        push_char(out, '"');
    } else if c == '\\' {
        push_char(out, '\\');
        push_char(out, '\\');
    } else if c == '\n' {
        push_char(out, '\\');
        push_char(out, 'n');
    } else if c == '\r' {
        push_char(out, '\\');
        push_char(out, 'r');
    } else if c == '\t' {
        push_char(out, '\\');
        push_char(out, 't');
    } else if c == '\0' {
        push_char(out, '\\');
        push_char(out, '0');
    } else if (c as u32) < 0x20 || (c as u32) == 0x7f {
        push_char(out, '\\');
        push_char(out, 'u');
        push_char(out, '{');
        push_hex(out, c as u32);
        push_char(out, '}');
    } else {
        push_char(out, c);
    }
    assert(out@ =~= before + escape_char(c));
}

fn quote(s: &str) -> (r: String)
    ensures
        r@ == quoted(s@),
{
    let cs = chars_of(s);
    let mut r = String::new();
    push_char(&mut r, '"');
    let mut i: usize = 0;
    while i < cs.len()
        invariant
            i <= cs@.len(),
            cs@ == s@,
            r@ == seq!['"'] + escaped(cs@.take(i as int)),
        decreases cs@.len() - i,
    {
        assert(cs@.take(i + 1).drop_last() =~= cs@.take(i as int));
        push_escaped_char(&mut r, cs[i]);
        assert(r@ =~= seq!['"'] + escaped(cs@.take(i + 1)));
        i = i + 1;
    }
    assert(cs@.take(cs@.len() as int) =~= cs@);
    push_char(&mut r, '"');
    assert(r@ =~= quoted(s@));
    r
}

fn bracketed(parts: &Vec<String>) -> (r: String)
    ensures
        r@ == list_text(str_views(parts@)),
{
    let joined = join_strings(parts, ", ");
    let mut r = String::new();
    push_char(&mut r, '[');
    append_str(&mut r, joined.as_str());
    push_char(&mut r, ']');
    assert(r@ =~= list_text(str_views(parts@)));
    r
}

fn push_decimal_u64(out: &mut String, n: u64)
    ensures
        final(out)@ == old(out)@ + decimal(n as nat),
    decreases n,
{
    if n >= 10 {
        push_decimal_u64(out, n / 10);
    }
    let d = (n % 10) as usize;
    push_decimal(out, d);
    assert(final(out)@ =~= old(out)@ + decimal(n as nat)) by {
        reveal_with_fuel(decimal, 2);
    }
}

fn signed_decimal_text(n: i64) -> (r: String)
    ensures
        r@ == signed_decimal(n as int),
{
    let mut r = String::new();
    if n < 0 {
        push_char(&mut r, '-');
        let m: u64 = ((-(n + 1)) as u64) + 1;
        push_decimal_u64(&mut r, m);
    } else {
        push_decimal_u64(&mut r, n as u64);
    }
    assert(r@ =~= signed_decimal(n as int));
    r
}

fn decimal_text(n: usize) -> (r: String)
    ensures
        r@ == decimal(n as nat),
{
    let mut r = String::new();
    push_decimal(&mut r, n);
    assert(r@ =~= decimal(n as nat));
    r
}

fn quote_list(v: &Vec<String>) -> (r: String)
    ensures
        r@ == quoted_list(str_views(v@)),
{
    let ghost vv = str_views(v@);
    let mut qs: Vec<String> = Vec::new();
    let mut i: usize = 0;
    while i < v.len()
        invariant
            i <= v@.len(),
            vv == str_views(v@),
            str_views(qs@) == vv.take(i as int).map_values(|s: Seq<char>| quoted(s)),
        decreases v@.len() - i,
    {
        let q = quote(v[i].as_str());
        let ghost before = str_views(qs@);
        qs.push(q);
        proof {
            assert(str_views(qs@) =~= before.push(quoted(vv[i as int])));
            assert(vv.take(i + 1).map_values(|s: Seq<char>| quoted(s)) =~= vv.take(i as int).map_values(|s: Seq<char>| quoted(s)).push(quoted(vv[i as int])));
        }
        i = i + 1;
    }
    assert(vv.take(v@.len() as int) =~= vv);
    bracketed(&qs)
}

fn smell_type_fields_of(t: &SmellType) -> (r: Vec<(String, String)>)
    ensures
        pair_views(r@) == smell_type_fields(*t),
{
    let mut r: Vec<(String, String)> = Vec::new();
    match t {
        SmellType::CyclicDependency => {},
        SmellType::CyclicDependencyCluster => {},
        SmellType::GodModule => {},
        SmellType::DeadCode => {},
        SmellType::DeadSymbol { name, kind } => { r.push(("name".to_owned(), quote(name.as_str()))); r.push(("kind".to_owned(), quote(kind.as_str()))); },
        SmellType::HighComplexity { name, line, complexity } => { r.push(("name".to_owned(), quote(name.as_str()))); r.push(("line".to_owned(), decimal_text(*line))); r.push(("complexity".to_owned(), decimal_text(*complexity))); },
        SmellType::HighCyclomaticComplexity { name, line, complexity } => { r.push(("name".to_owned(), quote(name.as_str()))); r.push(("line".to_owned(), decimal_text(*line))); r.push(("complexity".to_owned(), decimal_text(*complexity))); },
        SmellType::HighCognitiveComplexity { name, line, complexity } => { r.push(("name".to_owned(), quote(name.as_str()))); r.push(("line".to_owned(), decimal_text(*line))); r.push(("complexity".to_owned(), decimal_text(*complexity))); },
        SmellType::LargeFile => {},
        SmellType::UnstableInterface => {},
        SmellType::FeatureEnvy { most_envied_module } => { r.push(("most_envied_module".to_owned(), quote(most_envied_module.as_str()))); },
        SmellType::ShotgunSurgery => {},
        SmellType::HubDependency { package } => { r.push(("package".to_owned(), quote(package.as_str()))); },
        SmellType::OrphanType { name } => { r.push(("name".to_owned(), quote(name.as_str()))); },
        SmellType::TestLeakage { test_file } => { r.push(("test_file".to_owned(), quote(test_file.as_str()))); },
        SmellType::LayerViolation { from_layer, to_layer } => { r.push(("from_layer".to_owned(), quote(from_layer.as_str()))); r.push(("to_layer".to_owned(), quote(to_layer.as_str()))); },
        SmellType::SdpViolation => {},
        SmellType::BarrelFileAbuse => {},
        SmellType::VendorCoupling { package } => { r.push(("package".to_owned(), quote(package.as_str()))); },
        SmellType::SideEffectImport => {},
        SmellType::HubModule => {},
        SmellType::LowCohesion { lcom, class_name } => { r.push(("lcom".to_owned(), decimal_text(*lcom))); r.push(("class_name".to_owned(), quote(class_name.as_str()))); },
        SmellType::ScatteredModule { components } => { r.push(("components".to_owned(), decimal_text(*components))); },
        SmellType::HighCoupling { cbo } => { r.push(("cbo".to_owned(), decimal_text(*cbo))); },
        SmellType::PackageCycle { packages } => { r.push(("packages".to_owned(), quote_list(packages))); },
        SmellType::SharedMutableState { symbol } => { r.push(("symbol".to_owned(), quote(symbol.as_str()))); },
        SmellType::DeepNesting { name, depth, line } => { r.push(("name".to_owned(), quote(name.as_str()))); r.push(("depth".to_owned(), decimal_text(*depth))); r.push(("line".to_owned(), decimal_text(*line))); },
        SmellType::LongParameterList { count, name } => { r.push(("count".to_owned(), decimal_text(*count))); r.push(("name".to_owned(), quote(name.as_str()))); },
        SmellType::PrimitiveObsession { primitives, name } => { r.push(("primitives".to_owned(), decimal_text(*primitives))); r.push(("name".to_owned(), quote(name.as_str()))); },
        SmellType::CircularTypeDependency => {},
        SmellType::AbstractnessViolation => {},
        SmellType::ScatteredConfiguration { env_var, files_count } => { r.push(("env_var".to_owned(), quote(env_var.as_str()))); r.push(("files_count".to_owned(), decimal_text(*files_count))); },
        SmellType::CodeClone { clone_hash, token_count } => { r.push(("clone_hash".to_owned(), quote(clone_hash.as_str()))); r.push(("token_count".to_owned(), decimal_text(*token_count))); },
        SmellType::Unknown { raw_type } => { r.push(("raw_type".to_owned(), quote(raw_type.as_str()))); },
    }
    assert(pair_views(r@) =~= smell_type_fields(*t));
    r
}

/// The name of `severity`.
pub fn severity_text(severity: &Severity) -> (r: String)
    ensures
        r@ == severity_name(*severity),
{
    match severity {
        Severity::Low => "Low".to_owned(),
        Severity::Medium => "Medium".to_owned(),
        Severity::High => "High".to_owned(),
        Severity::Critical => "Critical".to_owned(),
    }
}

/// `smell_type` written out.
pub fn smell_type_text_of(smell_type: &SmellType) -> (r: String)
    ensures
        r@ == smell_type_text(*smell_type),
{
    let fields = smell_type_fields_of(smell_type);
    let mut r = smell_type.kind_name();
    if fields.len() == 0 {
        return r;
    }
    let ghost fv = pair_views(fields@);
    let mut parts: Vec<String> = Vec::new();
    let mut i: usize = 0;
    while i < fields.len()
        invariant
            i <= fields@.len(),
            fv == pair_views(fields@),
            str_views(parts@) == field_texts(fv.take(i as int)),
        decreases fields@.len() - i,
    {
        let mut p = fields[i].0.clone();
        append_str(&mut p, ": ");
        append_str(&mut p, fields[i].1.as_str());
        let ghost before = str_views(parts@);
        parts.push(p);
        proof {
            assert(str_views(parts@) =~= before.push(fv[i as int].0 + ": "@ + fv[i as int].1));
            assert(field_texts(fv.take(i + 1)) =~= field_texts(fv.take(i as int)).push(fv[i as int].0 + ": "@ + fv[i as int].1));
        }
        i = i + 1;
    }
    assert(fv.take(fields@.len() as int) =~= fv);
    let joined = join_strings(&parts, ", ");
    append_str(&mut r, " { ");
    append_str(&mut r, joined.as_str());
    append_str(&mut r, " }");
    assert(r@ =~= smell_type_text(*smell_type));
    r
}

fn option_text_of(o: Option<usize>) -> (r: String)
    ensures
        r@ == option_text(o),
{
    match o {
        Some(n) => {
            let mut r = "Some(".to_owned();
            push_decimal(&mut r, n);
            push_char(&mut r, ')');
            assert(r@ =~= option_text(o));
            r
        },
        None => "None".to_owned(),
    }
}

fn location_text_of(l: &LocationDetail) -> (r: String)
    ensures
        r@ == location_text(*l),
{
    let mut r = "LocationDetail { file: ".to_owned();
    let f = quote(l.file.as_str());
    append_str(&mut r, f.as_str());
    append_str(&mut r, ", line: ");
    push_decimal(&mut r, l.line);
    append_str(&mut r, ", column: ");
    let c = option_text_of(l.column);
    append_str(&mut r, c.as_str());
    append_str(&mut r, ", range: ");
    match l.range {
        Some(g) => {
            append_str(&mut r, "Some(CodeRange { start_line: ");
            push_decimal(&mut r, g.start_line);
            append_str(&mut r, ", start_column: ");
            push_decimal(&mut r, g.start_column);
            append_str(&mut r, ", end_line: ");
            push_decimal(&mut r, g.end_line);
            append_str(&mut r, ", end_column: ");
            push_decimal(&mut r, g.end_column);
            append_str(&mut r, " })");
            proof {
                reveal_strlit("Some(CodeRange { start_line: ");
                reveal_strlit("Some(");
                reveal_strlit("CodeRange { start_line: ");
                reveal_strlit(" })");
                reveal_strlit(" }");
            }
        },
        None => append_str(&mut r, "None"),
    }
    append_str(&mut r, ", description: ");
    let d = quote(l.description.as_str());
    append_str(&mut r, d.as_str());
    append_str(&mut r, " }");
    assert(r@ =~= location_text(*l));
    r
}

fn locations_text_of(ls: &Vec<LocationDetail>) -> (r: String)
    ensures
        r@ == locations_text(ls@),
{
    let mut ts: Vec<String> = Vec::new();
    let mut i: usize = 0;
    while i < ls.len()
        invariant
            i <= ls@.len(),
            str_views(ts@) == ls@.take(i as int).map_values(|l: LocationDetail| location_text(l)),
        decreases ls@.len() - i,
    {
        let t = location_text_of(&ls[i]);
        let ghost before = str_views(ts@);
        ts.push(t);
        proof {
            assert(str_views(ts@) =~= before.push(location_text(ls@[i as int])));
            assert(ls@.take(i + 1).map_values(|l: LocationDetail| location_text(l)) =~= ls@.take(i as int).map_values(|l: LocationDetail| location_text(l)).push(location_text(ls@[i as int])));
        }
        i = i + 1;
    }
    assert(ls@.take(ls@.len() as int) =~= ls@);
    let joined = join_strings(&ts, ", ");
    let mut r = String::new();
    push_char(&mut r, '[');
    append_str(&mut r, joined.as_str());
    push_char(&mut r, ']');
    assert(r@ =~= locations_text(ls@));
    r
}

fn metric_text_of(m: &SmellMetric) -> (r: String)
    ensures
        r@ == metric_text(*m),
{
    let mut r = m.name.clone();
    push_char(&mut r, '(');
    let v = match &m.value {
        MetricArg::Int(n) => signed_decimal_text(*n),
        MetricArg::Float(t) => t.clone(),
        MetricArg::Text(t) => quote(t.as_str()),
    };
    append_str(&mut r, v.as_str());
    push_char(&mut r, ')');
    assert(r@ =~= metric_text(*m));
    r
}

fn hotspot_text_of(h: &HotspotInfo) -> (r: String)
    ensures
        r@ == hotspot_text(*h),
{
    let mut r = "HotspotInfo { file: ".to_owned();
    let f = quote(h.file.as_str());
    append_str(&mut r, f.as_str());
    append_str(&mut r, ", in_degree: ");
    push_decimal(&mut r, h.in_degree);
    append_str(&mut r, ", out_degree: ");
    push_decimal(&mut r, h.out_degree);
    append_str(&mut r, " }");
    assert(r@ =~= hotspot_text(*h));
    r
}

fn option_range_text_of(o: Option<CodeRange>) -> (r: String)
    ensures
        r@ == option_range_text(o),
{
    match o {
        Some(g) => {
            let mut r = "Some(CodeRange { start_line: ".to_owned();
            push_decimal(&mut r, g.start_line);
            append_str(&mut r, ", start_column: ");
            push_decimal(&mut r, g.start_column);
            append_str(&mut r, ", end_line: ");
            push_decimal(&mut r, g.end_line);
            append_str(&mut r, ", end_column: ");
            push_decimal(&mut r, g.end_column);
            append_str(&mut r, " })");
            proof {
                reveal_strlit("Some(CodeRange { start_line: ");
                reveal_strlit("Some(");
                reveal_strlit("CodeRange { start_line: ");
                reveal_strlit(" })");
                reveal_strlit(" }");
            }
            assert(r@ =~= option_range_text(o));
            r
        },
        None => "None".to_owned(),
    }
}

fn edge_text_of(e: &CriticalEdge) -> (r: String)
    ensures
        r@ == edge_text(*e),
{
    let mut r = "CriticalEdge { from: ".to_owned();
    let f = quote(e.from.as_str());
    append_str(&mut r, f.as_str());
    append_str(&mut r, ", to: ");
    let t = quote(e.to.as_str());
    append_str(&mut r, t.as_str());
    append_str(&mut r, ", line: ");
    push_decimal(&mut r, e.line);
    append_str(&mut r, ", range: ");
    let g = option_range_text_of(e.range);
    append_str(&mut r, g.as_str());
    append_str(&mut r, ", impact: ");
    let i = quote(e.impact.as_str());
    append_str(&mut r, i.as_str());
    append_str(&mut r, " }");
    assert(r@ =~= edge_text(*e));
    r
}

fn metrics_text_of(ms: &Vec<SmellMetric>) -> (r: String)
    ensures
        r@ == list_text(ms@.map_values(|m: SmellMetric| metric_text(m))),
{
    let mut ts: Vec<String> = Vec::new();
    let mut i: usize = 0;
    while i < ms.len()
        invariant
            i <= ms@.len(),
            str_views(ts@) == ms@.take(i as int).map_values(|m: SmellMetric| metric_text(m)),
        decreases ms@.len() - i,
    {
        let t = metric_text_of(&ms[i]);
        let ghost before = str_views(ts@);
        ts.push(t);
        proof {
            assert(str_views(ts@) =~= before.push(metric_text(ms@[i as int])));
            assert(ms@.take(i + 1).map_values(|m: SmellMetric| metric_text(m)) =~= ms@.take(i as int).map_values(|m: SmellMetric| metric_text(m)).push(metric_text(ms@[i as int])));
        }
        i = i + 1;
    }
    assert(ms@.take(ms@.len() as int) =~= ms@);
    bracketed(&ts)
}

fn hotspots_text_of(hs: &Vec<HotspotInfo>) -> (r: String)
    ensures
        r@ == list_text(hs@.map_values(|h: HotspotInfo| hotspot_text(h))),
{
    let mut ts: Vec<String> = Vec::new();
    let mut i: usize = 0;
    while i < hs.len()
        invariant
            i <= hs@.len(),
            str_views(ts@) == hs@.take(i as int).map_values(|h: HotspotInfo| hotspot_text(h)),
        decreases hs@.len() - i,
    {
        let t = hotspot_text_of(&hs[i]);
        let ghost before = str_views(ts@);
        ts.push(t);
        proof {
            assert(str_views(ts@) =~= before.push(hotspot_text(hs@[i as int])));
            assert(hs@.take(i + 1).map_values(|h: HotspotInfo| hotspot_text(h)) =~= hs@.take(i as int).map_values(|h: HotspotInfo| hotspot_text(h)).push(hotspot_text(hs@[i as int])));
        }
        i = i + 1;
    }
    assert(hs@.take(hs@.len() as int) =~= hs@);
    bracketed(&ts)
}

fn edges_text_of(es: &Vec<CriticalEdge>) -> (r: String)
    ensures
        r@ == list_text(es@.map_values(|e: CriticalEdge| edge_text(e))),
{
    let mut ts: Vec<String> = Vec::new();
    let mut i: usize = 0;
    while i < es.len()
        invariant
            i <= es@.len(),
            str_views(ts@) == es@.take(i as int).map_values(|e: CriticalEdge| edge_text(e)),
        decreases es@.len() - i,
    {
        let t = edge_text_of(&es[i]);
        let ghost before = str_views(ts@);
        ts.push(t);
        proof {
            assert(str_views(ts@) =~= before.push(edge_text(es@[i as int])));
            assert(es@.take(i + 1).map_values(|e: CriticalEdge| edge_text(e)) =~= es@.take(i as int).map_values(|e: CriticalEdge| edge_text(e)).push(edge_text(es@[i as int])));
        }
        i = i + 1;
    }
    assert(es@.take(es@.len() as int) =~= es@);
    bracketed(&ts)
}

fn option_cluster_text_of(c: &Option<CycleCluster>) -> (r: String)
    ensures
        r@ == option_cluster_text(*c),
{
    match c {
        Some(k) => {
            let mut r = "Some(CycleCluster { files: ".to_owned();
            let f = quote_list(&k.files);
            append_str(&mut r, f.as_str());
            append_str(&mut r, ", hotspots: ");
            let h = hotspots_text_of(&k.hotspots);
            append_str(&mut r, h.as_str());
            append_str(&mut r, ", critical_edges: ");
            let e = edges_text_of(&k.critical_edges);
            append_str(&mut r, e.as_str());
            append_str(&mut r, ", internal_edges: ");
            let l = locations_text_of(&k.internal_edges);
            append_str(&mut r, l.as_str());
            append_str(&mut r, " })");
            proof {
                reveal_strlit("Some(CycleCluster { files: ");
                reveal_strlit("Some(");
                reveal_strlit("CycleCluster { files: ");
                reveal_strlit(" })");
                reveal_strlit(" }");
            }
            assert(r@ =~= option_cluster_text(*c));
            r
        },
        None => "None".to_owned(),
    }
}

/// `smell` written out.
pub fn smell_text_of(smell: &ArchSmell) -> (r: String)
    ensures
        r@ == smell_text(*smell),
{
    let mut r = "ArchSmell { smell_type: ".to_owned();
    let t = smell_type_text_of(&smell.smell_type);
    append_str(&mut r, t.as_str());
    append_str(&mut r, ", severity: ");
    let s = severity_text(&smell.severity);
    append_str(&mut r, s.as_str());
    append_str(&mut r, ", files: ");
    let f = quote_list(&smell.files);
    append_str(&mut r, f.as_str());
    append_str(&mut r, ", metrics: ");
    let m = metrics_text_of(&smell.metrics);
    append_str(&mut r, m.as_str());
    append_str(&mut r, ", locations: ");
    let l = locations_text_of(&smell.locations);
    append_str(&mut r, l.as_str());
    append_str(&mut r, ", cluster: ");
    let c = option_cluster_text_of(&smell.cluster);
    append_str(&mut r, c.as_str());
    append_str(&mut r, " }");
    assert(r@ =~= smell_text(*smell));
    r
}

} // verus!
