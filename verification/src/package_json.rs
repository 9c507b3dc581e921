//! What `package.json` files say about entry points and dynamically loaded files.

use vstd::prelude::*;
use crate::paths::{join_path, parent_of, path_join, path_parent};
use crate::text::{
    append_str, chars_of, contains_char, has_suffix, list_contains, replace_all, replace_str, str_eq,
    str_ends_with, str_views,
};

verus! {

/// Reads the `package.json` files of a project.
pub struct PackageJsonParser;

/// The entry points and dynamic load patterns found in a project's `package.json` files.
#[derive(Debug, Clone)]
pub struct PackageConfig {
    /// Files that are entry points (each once).
    pub entry_points: Vec<String>,
    /// Globs of files that are loaded at run time.
    pub dynamic_load_patterns: Vec<String>,
}

/// Whether `t` occurs in `s` at index `i`.
pub open spec fn occurs_at(s: Seq<char>, t: Seq<char>, i: int) -> bool {
    0 <= i && i + t.len() <= s.len() && s.subrange(i, i + t.len()) == t
}

/// Whether `s` contains `t` as a contiguous part.
pub open spec fn contains_str(s: Seq<char>, t: Seq<char>) -> bool {
    exists|i: int| #[trigger] occurs_at(s, t, i)
}

/// The source-tree counterpart of a build output glob: `build/` and `dist/`
/// become `src/`, and JavaScript extensions become TypeScript ones.
pub open spec fn source_pattern(p: Seq<char>) -> Seq<char> {
    replace_all(
        replace_all(
            replace_all(
                replace_all(
                    replace_all(replace_all(p, "build/"@, "src/"@), "dist/"@, "src/"@),
                    ".js"@,
                    ".ts"@,
                ),
                ".jsx"@,
                ".tsx"@,
            ),
            ".mjs"@,
            ".ts"@,
        ),
        ".cjs"@,
        ".ts"@,
    )
}

/// The files that a path named in `package.json` may stand for: the path
/// under the package, the path itself and, for a build output, its source.
pub open spec fn entry_candidates(matched: Seq<char>, package_dir: Seq<char>) -> Seq<Seq<char>> {
    let base = seq![path_join(package_dir, matched), matched];
    if contains_str(matched, "dist/"@) || contains_str(matched, "build/"@) {
        let src = replace_all(replace_all(matched, "dist/"@, "src/"@), "build/"@, "src/"@);
        if has_suffix(src, ".js"@) {
            base.push(path_join(package_dir, replace_all(src, ".js"@, ".ts"@)))
        } else {
            base + seq![path_join(package_dir, src), path_join(package_dir, src + ".ts"@)]
        }
    } else {
        base
    }
}

/// Whether `t` occurs in `s`.
fn contains_text(s: &str, t: &str) -> (r: bool)
    ensures
        r == contains_str(s@, t@),
{
    let sc = chars_of(s);
    let tc = chars_of(t);
    let n = sc.len();
    let m = tc.len();
    if m > n {
        assert forall|j: int| !#[trigger] occurs_at(s@, t@, j) by {}
        return false;
    }
    if m == 0 {
        assert(sc@.subrange(0, 0) =~= tc@);
        assert(occurs_at(s@, t@, 0));
        return true;
    }
    let mut i: usize = 0;
    while i <= n - m
        invariant
            sc@ == s@,
            tc@ == t@,
            n == sc@.len(),
            m == tc@.len(),
            0 < m <= n,
            i <= n - m + 1,
            forall|j: int| 0 <= j < i ==> !#[trigger] occurs_at(sc@, tc@, j),
        decreases n - m + 1 - i,
    {
        let part = vstd::slice::slice_subrange(sc.as_slice(), i, i + m);
        if crate::text::chars_eq(part, tc.as_slice()) {
            assert(occurs_at(s@, t@, i as int));
            return true;
        }
        i = i + 1;
    }
    assert forall|j: int| !#[trigger] occurs_at(s@, t@, j) by {
        if 0 <= j && j + m <= n {
            assert(j < i);
        }
    }
    false
}

impl PackageJsonParser {
    /// The files that `matched_path`, named in the `package.json` of
    /// `package_dir`, may stand for.
    pub fn entry_point_candidates(matched_path: &str, package_dir: &str) -> (r: Vec<String>)
        ensures
            str_views(r@) == entry_candidates(matched_path@, package_dir@),
    {
        proof {
            reveal_strlit("dist/");
            reveal_strlit("build/");
            reveal_strlit("src/");
            reveal_strlit(".js");
            reveal_strlit(".ts");
        }
        let mut candidates: Vec<String> = Vec::new();
        candidates.push(join_path(package_dir, matched_path));
        candidates.push(matched_path.to_owned());
        if contains_text(matched_path, "dist/") || contains_text(matched_path, "build/") {
            let s1 = replace_str(matched_path, "dist/", "src/");
            let src = replace_str(s1.as_str(), "build/", "src/");
            if str_ends_with(src.as_str(), ".js") {
                let ts = replace_str(src.as_str(), ".js", ".ts");
                candidates.push(join_path(package_dir, ts.as_str()));
            } else {
                candidates.push(join_path(package_dir, src.as_str()));
                let mut with_ts = src.clone();
                append_str(&mut with_ts, ".ts");
                candidates.push(join_path(package_dir, with_ts.as_str()));
            }
        }
        assert(str_views(candidates@) =~= entry_candidates(matched_path@, package_dir@));
        candidates
    }

    /// Records the source counterpart of the glob `pattern`, where `pattern`
    /// is a glob and the counterpart is not recorded yet.
    pub fn add_dynamic_load_pattern(pattern: &str, glob_patterns: &mut Vec<String>)
        ensures
            ({
                let sp = source_pattern(pattern@);
                if pattern@.contains('*') && sp.contains('*') && !str_views(old(glob_patterns)@).contains(sp) {
                    str_views(final(glob_patterns)@) == str_views(old(glob_patterns)@).push(sp)
                } else {
                    final(glob_patterns)@ == old(glob_patterns)@
                }
            }),
    {
        let pc = chars_of(pattern);
        if !contains_char(pc.as_slice(), '*') {
            return;
        }
        proof {
            reveal_strlit("build/");
            reveal_strlit("dist/");
            reveal_strlit(".js");
            reveal_strlit(".jsx");
            reveal_strlit(".mjs");
            reveal_strlit(".cjs");
        }
        let a = replace_str(pattern, "build/", "src/");
        let b = replace_str(a.as_str(), "dist/", "src/");
        let c = replace_str(b.as_str(), ".js", ".ts");
        let d = replace_str(c.as_str(), ".jsx", ".tsx");
        let e = replace_str(d.as_str(), ".mjs", ".ts");
        let src_pattern = replace_str(e.as_str(), ".cjs", ".ts");
        let sc = chars_of(src_pattern.as_str());
        let known = list_contains(glob_patterns.as_slice(), src_pattern.as_str());
        proof {
            let gv = str_views(old(glob_patterns)@);
            if gv.contains(src_pattern@) {
                let j = choose|j: int| 0 <= j < gv.len() && gv[j] == src_pattern@;
                assert(old(glob_patterns)@[j]@ == src_pattern@);
            }
        }
        proof {
            assert(src_pattern@ == source_pattern(pattern@));
            if known {
                let j = choose|j: int| 0 <= j < glob_patterns@.len() && #[trigger] glob_patterns@[j]@ == src_pattern@;
                assert(str_views(old(glob_patterns)@)[j] == src_pattern@);
            }
        }
        if contains_char(sc.as_slice(), '*') && !known {
            let ghost before = str_views(glob_patterns@);
            glob_patterns.push(src_pattern);
            assert(str_views(glob_patterns@) =~= before.push(source_pattern(pattern@)));
        }
    }
}

/// A JSON value, as far as `package.json` is read: texts, arrays and objects
/// (their entries in order), and anything else.
pub enum JsonValue {
    Str(String),
    Array(Vec<JsonValue>),
    Object(Vec<(String, JsonValue)>),
    Other,
}

/// The texts of `v` in document order: the text itself, or those of the
/// elements (entry values) of an array (object), in turn.
pub open spec fn json_strings(v: JsonValue) -> Seq<Seq<char>>
    decreases v, 1nat,
{
    match v {
        JsonValue::Str(s) => seq![s@],
        JsonValue::Array(a) => json_strings_list(a@),
        JsonValue::Object(es) => json_strings_entries(es@),
        JsonValue::Other => Seq::empty(),
    }
}

/// The texts of the values of `vs`, in turn.
pub open spec fn json_strings_list(vs: Seq<JsonValue>) -> Seq<Seq<char>>
    decreases vs, 0nat,
{
    if vs.len() == 0 {
        Seq::empty()
    } else {
        json_strings_list(vs.drop_last()) + json_strings(vs.last())
    }
}

/// The texts of the entry values of `es`, in turn.
pub open spec fn json_strings_entries(es: Seq<(String, JsonValue)>) -> Seq<Seq<char>>
    decreases es, 0nat,
{
    if es.len() == 0 {
        Seq::empty()
    } else {
        json_strings_entries(es.drop_last()) + json_strings(es.last().1)
    }
}

/// Appends the texts of `v`, in document order.
fn collect_strings(v: &JsonValue, out: &mut Vec<String>)
    ensures
        str_views(final(out)@) == str_views(old(out)@) + json_strings(*v),
    decreases v, 1nat,
{
    match v {
        JsonValue::Str(s) => {
            let ghost before = str_views(out@);
            out.push(s.clone());
            assert(str_views(out@) =~= before + json_strings(*v));
        },
        JsonValue::Array(a) => {
            let ghost start = str_views(out@);
            let mut i: usize = 0;
            assert(a@.take(0) =~= Seq::<JsonValue>::empty());
            assert(start + json_strings_list(a@.take(0)) =~= start);
            while i < a.len()
                invariant
                    i <= a@.len(),
                    *v == JsonValue::Array(*a),
                    str_views(out@) == start + json_strings_list(a@.take(i as int)),
                decreases a@.len() - i,
            {
                proof {
                    assert(*v == JsonValue::Array(*a));
                    assert(decreases_to!(*v => (*v)->Array_0));
                    assert((*v)->Array_0 == *a);
                    vstd::std_specs::vec::axiom_vec_decreases_to_view(*a);
                    assert(decreases_to!(*a => a@));
                    assert(decreases_to!(a@ => a@[i as int]));
                }
                let ghost before = str_views(out@);
                collect_strings(&a[i], out);
                proof {
                    assert(a@.take(i + 1).drop_last() =~= a@.take(i as int));
                    assert(a@.take(i + 1).last() == a@[i as int]);
                    assert(str_views(out@) =~= start + json_strings_list(a@.take(i + 1)));
                }
                i = i + 1;
            }
            assert(a@.take(a@.len() as int) =~= a@);
        },
        JsonValue::Object(es) => {
            let ghost start = str_views(out@);
            let mut i: usize = 0;
            assert(es@.take(0) =~= Seq::<(String, JsonValue)>::empty());
            assert(start + json_strings_entries(es@.take(0)) =~= start);
            while i < es.len()
                invariant
                    i <= es@.len(),
                    *v == JsonValue::Object(*es),
                    str_views(out@) == start + json_strings_entries(es@.take(i as int)),
                decreases es@.len() - i,
            {
                proof {
                    assert(*v == JsonValue::Object(*es));
                    assert(decreases_to!(*v => (*v)->Object_0));
                    assert((*v)->Object_0 == *es);
                    vstd::std_specs::vec::axiom_vec_decreases_to_view(*es);
                    assert(decreases_to!(*es => es@));
                    assert(decreases_to!(es@ => es@[i as int]));
                    assert(decreases_to!(es@[i as int] => es@[i as int].1));
                }
                collect_strings(&es[i].1, out);
                proof {
                    assert(es@.take(i + 1).drop_last() =~= es@.take(i as int));
                    assert(es@.take(i + 1).last() == es@[i as int]);
                    assert(str_views(out@) =~= start + json_strings_entries(es@.take(i + 1)));
                }
                i = i + 1;
            }
            assert(es@.take(es@.len() as int) =~= es@);
        },
        JsonValue::Other => {
            assert(str_views(out@) =~= str_views(out@) + json_strings(*v));
        },
    }
}

/// The value of the first entry of `es` named `key`, if any.
pub open spec fn entry_for(es: Seq<(String, JsonValue)>, key: Seq<char>) -> Option<JsonValue>
    decreases es.len(),
{
    if es.len() == 0 {
        None
    } else if es[0].0@ == key {
        Some(es[0].1)
    } else {
        entry_for(es.drop_first(), key)
    }
}

/// The field `key` of `v`, where `v` is an object that has it.
pub open spec fn json_field(v: JsonValue, key: Seq<char>) -> Option<JsonValue> {
    match v {
        JsonValue::Object(es) => entry_for(es@, key),
        _ => None,
    }
}

/// The texts among the entry values of `es`, in order.
pub open spec fn text_values(es: Seq<(String, JsonValue)>) -> Seq<Seq<char>>
    decreases es.len(),
{
    if es.len() == 0 {
        Seq::empty()
    } else {
        let prev = text_values(es.drop_last());
        match es.last().1 {
            JsonValue::Str(s) => prev.push(s@),
            _ => prev,
        }
    }
}

/// The scripts of a `package.json`: the texts among the values of its
/// `scripts` object.
pub open spec fn scripts_of(json: JsonValue) -> Seq<Seq<char>> {
    match json_field(json, "scripts"@) {
        Some(JsonValue::Object(es)) => text_values(es@),
        _ => Seq::empty(),
    }
}

/// The text of field `key` of `json`, where it is a text.
pub open spec fn text_field(json: JsonValue, key: Seq<char>) -> Seq<Seq<char>> {
    match json_field(json, key) {
        Some(JsonValue::Str(s)) => seq![s@],
        _ => Seq::empty(),
    }
}

/// Names what the `regex` crate finds for `pattern` over `text`: for each
/// match, in order, the text of its group 1 where that group took part;
/// nothing where `pattern` does not compile.
pub uninterp spec fn regex_group_captures(pattern: Seq<char>, text: Seq<char>) -> Seq<Option<Seq<char>>>;

/// The views of optional texts.
pub open spec fn opt_views(o: Seq<Option<String>>) -> Seq<Option<Seq<char>>> {
    o.map_values(|x: Option<String>| match x {
        Some(s) => Some(s@),
        None => None,
    })
}

/// The texts that are there, in order.
pub open spec fn present(cs: Seq<Option<Seq<char>>>) -> Seq<Seq<char>>
    decreases cs.len(),
{
    if cs.len() == 0 {
        Seq::empty()
    } else {
        let prev = present(cs.drop_last());
        match cs.last() {
            Some(t) => prev.push(t),
            None => prev,
        }
    }
}

/// The pattern of the texts in a script that name entry points: files with a
/// script extension, and paths under `dist/` or `build/`.
pub open spec fn entry_pattern() -> Seq<char> {
    r"(\S*[a-zA-Z0-9_\-\./]+\.(?:ts|js|tsx|jsx)|\bdist/\S+\b|\bbuild/\S+\b)"@
}

/// The pattern of the globs in a script of files loaded at run time.
pub open spec fn glob_pattern() -> Seq<char> {
    r"([^\s]*(?:/\*\*)?(?:/\*\*)?(?:/\*)?[^\s]*\.(?:ts|js|tsx|jsx|mjs|cjs))"@
}

/// The texts in `script` that name entry points.
pub open spec fn script_path_captures(script: Seq<char>) -> Seq<Seq<char>> {
    present(regex_group_captures(entry_pattern(), script))
}

/// The globs in `script` of files loaded at run time.
pub open spec fn script_glob_captures(script: Seq<char>) -> Seq<Seq<char>> {
    present(regex_group_captures(glob_pattern(), script))
}

/// Wraps `regex::Regex::new` on `pattern` and `Regex::captures_iter` over
/// `text`, taking group 1 of each match (`Captures::get`); empty where the
/// pattern does not compile.
#[verifier::external_body]
fn group_captures(pattern: &str, text: &str) -> (r: Vec<Option<String>>)
    ensures
        opt_views(r@) == regex_group_captures(pattern@, text@),
{
    match regex::Regex::new(pattern) {
        Ok(re) => re.captures_iter(text).map(|c| c.get(1).map(|m| m.as_str().to_string())).collect(),
        Err(_) => Vec::new(),
    }
}

/// The group-1 texts that `pattern` finds in `text`, in order.
fn captures_of(pattern: &str, text: &str) -> (r: Vec<String>)
    ensures
        str_views(r@) == present(regex_group_captures(pattern@, text@)),
{
    let cs = group_captures(pattern, text);
    let ghost cv = opt_views(cs@);
    let mut out: Vec<String> = Vec::new();
    let mut i: usize = 0;
    assert(cv.take(0) =~= Seq::<Option<Seq<char>>>::empty());
    while i < cs.len()
        invariant
            i <= cs@.len(),
            cv == opt_views(cs@),
            str_views(out@) == present(cv.take(i as int)),
        decreases cs@.len() - i,
    {
        proof {
            assert(cv.take(i + 1).drop_last() =~= cv.take(i as int));
            assert(cv.take(i + 1).last() == cv[i as int]);
        }
        match &cs[i] {
            Some(t) => {
                let ghost before = str_views(out@);
                out.push(t.clone());
                assert(str_views(out@) =~= before.push(t@));
            },
            None => {},
        }
        i = i + 1;
    }
    assert(cv.take(cs@.len() as int) =~= cv);
    out
}

/// The texts in `script` that name entry points.
fn path_captures(script: &str) -> (r: Vec<String>)
    ensures
        str_views(r@) == script_path_captures(script@),
{
    captures_of(r"(\S*[a-zA-Z0-9_\-\./]+\.(?:ts|js|tsx|jsx)|\bdist/\S+\b|\bbuild/\S+\b)", script)
}

/// The globs in `script` of files loaded at run time.
fn glob_captures(script: &str) -> (r: Vec<String>)
    ensures
        str_views(r@) == script_glob_captures(script@),
{
    captures_of(r"([^\s]*(?:/\*\*)?(?:/\*\*)?(?:/\*)?[^\s]*\.(?:ts|js|tsx|jsx|mjs|cjs))", script)
}

/// Each of `texts`, concatenated.
pub open spec fn flatten_texts(texts: Seq<Seq<Seq<char>>>) -> Seq<Seq<char>>
    decreases texts.len(),
{
    if texts.len() == 0 {
        Seq::empty()
    } else {
        flatten_texts(texts.drop_last()) + texts.last()
    }
}

/// The candidates of each of `named`, in turn, for the package in `dir`.
pub open spec fn candidates_of(named: Seq<Seq<char>>, dir: Seq<char>) -> Seq<Seq<char>>
    decreases named.len(),
{
    if named.len() == 0 {
        Seq::empty()
    } else {
        candidates_of(named.drop_last(), dir) + entry_candidates(named.last(), dir)
    }
}

/// The dynamic load patterns after `pattern` was offered to `pats`.
pub open spec fn with_pattern(pats: Seq<Seq<char>>, pattern: Seq<char>) -> Seq<Seq<char>> {
    let sp = source_pattern(pattern);
    if pattern.contains('*') && sp.contains('*') && !pats.contains(sp) {
        pats.push(sp)
    } else {
        pats
    }
}

/// The dynamic load patterns after each of `patterns` was offered, in turn.
pub open spec fn with_patterns(pats: Seq<Seq<char>>, patterns: Seq<Seq<char>>) -> Seq<Seq<char>>
    decreases patterns.len(),
{
    if patterns.len() == 0 {
        pats
    } else {
        with_pattern(with_patterns(pats, patterns.drop_last()), patterns.last())
    }
}

/// The texts of a script that name entry points.
pub open spec fn script_paths(scripts: Seq<Seq<char>>) -> Seq<Seq<char>> {
    flatten_texts(scripts.map_values(|s: Seq<char>| script_path_captures(s)))
}

/// The texts of a script that are globs of dynamically loaded files.
pub open spec fn script_globs(scripts: Seq<Seq<char>>) -> Seq<Seq<char>> {
    flatten_texts(scripts.map_values(|s: Seq<char>| script_glob_captures(s)))
}

/// The texts of a `package.json` that name entry points, in the order they
/// are read: `main`, `module`, `browser`, the texts of `exports`, then those
/// found in the scripts.
pub open spec fn named_entries(json: JsonValue) -> Seq<Seq<char>> {
    text_field(json, "main"@) + text_field(json, "module"@) + text_field(json, "browser"@) + (match json_field(
        json,
        "exports"@,
    ) {
        Some(e) => json_strings(e),
        None => Seq::empty(),
    }) + script_paths(scripts_of(json))
}

/// The field `key` of `json`, where it has it.
pub(crate) fn field<'a>(json: &'a JsonValue, key: &str) -> (r: Option<&'a JsonValue>)
    ensures
        match r {
            Some(v) => json_field(*json, key@) == Some(*v),
            None => json_field(*json, key@) is None,
        },
{
    match json {
        JsonValue::Object(es) => {
            let ghost ev = es@;
            let mut i: usize = 0;
            assert(ev.skip(0) =~= ev);
            while i < es.len()
                invariant
                    i <= ev.len(),
                    ev == es@,
                    *json == JsonValue::Object(*es),
                    entry_for(ev, key@) == entry_for(ev.skip(i as int), key@),
                decreases ev.len() - i,
            {
                if str_eq(es[i].0.as_str(), key) {
                    proof {
                        assert(ev.skip(i as int)[0] == ev[i as int]);
                    }
                    return Some(&es[i].1);
                }
                proof {
                    assert(ev.skip(i as int).drop_first() =~= ev.skip(i + 1));
                }
                i = i + 1;
            }
            None
        },
        _ => None,
    }
}

/// Appends the candidates of `matched_path` for the package in `package_dir`.
fn push_candidates(matched_path: &str, package_dir: &str, out: &mut Vec<String>)
    ensures
        str_views(final(out)@) == str_views(old(out)@) + entry_candidates(matched_path@, package_dir@),
{
    let c = PackageJsonParser::entry_point_candidates(matched_path, package_dir);
    let ghost start = str_views(out@);
    let mut i: usize = 0;
    while i < c.len()
        invariant
            i <= c@.len(),
            str_views(out@) == start + str_views(c@).take(i as int),
        decreases c@.len() - i,
    {
        let ghost before = str_views(out@);
        let x = c[i].clone();
        assert(x@ == str_views(c@)[i as int]);
        out.push(x);
        proof {
            assert(str_views(out@) =~= before.push(str_views(c@)[i as int]));
            assert(str_views(c@).take(i + 1) =~= str_views(c@).take(i as int).push(str_views(c@)[i as int]));
            assert(str_views(out@) =~= start + str_views(c@).take(i + 1));
        }
        i = i + 1;
    }
    assert(str_views(c@).take(c@.len() as int) =~= str_views(c@));
}

/// Appends the candidates of each of `named`.
fn push_all_candidates(named: &Vec<String>, package_dir: &str, out: &mut Vec<String>)
    ensures
        str_views(final(out)@) == str_views(old(out)@) + candidates_of(str_views(named@), package_dir@),
{
    let ghost start = str_views(out@);
    let ghost nv = str_views(named@);
    let mut i: usize = 0;
    assert(nv.take(0) =~= Seq::<Seq<char>>::empty());
    assert(start + candidates_of(nv.take(0), package_dir@) =~= start);
    while i < named.len()
        invariant
            i <= named@.len(),
            nv == str_views(named@),
            str_views(out@) == start + candidates_of(nv.take(i as int), package_dir@),
        decreases named@.len() - i,
    {
        push_candidates(named[i].as_str(), package_dir, out);
        proof {
            assert(nv.take(i + 1).drop_last() =~= nv.take(i as int));
            assert(nv.take(i + 1).last() == nv[i as int]);
            assert(str_views(out@) =~= start + candidates_of(nv.take(i + 1), package_dir@));
        }
        i = i + 1;
    }
    assert(nv.take(named@.len() as int) =~= nv);
}

/// Appends each of `more`.
fn append_all(out: &mut Vec<String>, more: Vec<String>)
    ensures
        str_views(final(out)@) == str_views(old(out)@) + str_views(more@),
{
    let ghost start = str_views(out@);
    let mut i: usize = 0;
    while i < more.len()
        invariant
            i <= more@.len(),
            str_views(out@) == start + str_views(more@).take(i as int),
        decreases more@.len() - i,
    {
        let ghost before = str_views(out@);
        let x = more[i].clone();
        assert(x@ == str_views(more@)[i as int]);
        out.push(x);
        proof {
            assert(str_views(out@) =~= before.push(str_views(more@)[i as int]));
            assert(str_views(more@).take(i + 1) =~= str_views(more@).take(i as int).push(str_views(more@)[i as int]));
            assert(str_views(out@) =~= start + str_views(more@).take(i + 1));
        }
        i = i + 1;
    }
    assert(str_views(more@).take(more@.len() as int) =~= str_views(more@));
}

impl PackageJsonParser {
    /// The directory of the package whose `package.json` is at `path`: the
    /// parent of `path`, or `root` where it has none.
    pub fn package_dir(path: &str, root: &str) -> (r: String)
        ensures
            r@ == match path_parent(path@) {
                Some(p) => p,
                None => root@,
            },
    {
        match parent_of(path) {
            Some(p) => p,
            None => root.to_owned(),
        }
    }

    /// The texts found in `script`: those that name entry points, appended to
    /// `named`, and the globs of dynamically loaded files, offered to
    /// `patterns` in turn.
    pub fn parse_script(script: &str, named: &mut Vec<String>, patterns: &mut Vec<String>)
        ensures
            str_views(final(named)@) == str_views(old(named)@) + script_path_captures(script@),
            str_views(final(patterns)@) == with_patterns(str_views(old(patterns)@), script_glob_captures(script@)),
    {
        let paths = path_captures(script);
        append_all(named, paths);
        let globs = glob_captures(script);
        let ghost gv = str_views(globs@);
        let ghost start = str_views(patterns@);
        let mut i: usize = 0;
        assert(gv.take(0) =~= Seq::<Seq<char>>::empty());
        while i < globs.len()
            invariant
                i <= globs@.len(),
                gv == str_views(globs@),
                str_views(patterns@) == with_patterns(start, gv.take(i as int)),
            decreases globs@.len() - i,
        {
            Self::add_dynamic_load_pattern(globs[i].as_str(), patterns);
            proof {
                assert(gv.take(i + 1).drop_last() =~= gv.take(i as int));
                assert(gv.take(i + 1).last() == gv[i as int]);
                let before = with_patterns(start, gv.take(i as int));
                if !(gv[i as int].contains('*') && source_pattern(gv[i as int]).contains('*') && !before.contains(source_pattern(gv[i as int]))) {
                    assert(str_views(patterns@) == before);
                }
            }
            i = i + 1;
        }
        assert(gv.take(globs@.len() as int) =~= gv);
    }

    /// The texts of `exports` that name entry points, in document order.
    pub fn process_exports_value(value: &JsonValue, named: &mut Vec<String>)
        ensures
            str_views(final(named)@) == str_views(old(named)@) + json_strings(*value),
    {
        collect_strings(value, named);
    }

    /// What the `package.json` of the package in `package_dir`, read as
    /// `json`, says: the files that its entry points may stand for are
    /// appended to `candidates`, and the globs in its scripts are offered to
    /// `patterns` in turn.
    pub fn process_package_json(json: &JsonValue, package_dir: &str, candidates: &mut Vec<String>, patterns: &mut Vec<String>)
        ensures
            str_views(final(candidates)@) == str_views(old(candidates)@) + candidates_of(named_entries(*json), package_dir@),
            str_views(final(patterns)@) == with_patterns(str_views(old(patterns)@), script_globs(scripts_of(*json))),
    {
        proof {
            reveal_strlit("main");
            reveal_strlit("module");
            reveal_strlit("browser");
            reveal_strlit("exports");
            reveal_strlit("scripts");
        }
        let mut named: Vec<String> = Vec::new();
        let ghost n0 = str_views(named@);
        match field(json, "main") {
            Some(JsonValue::Str(s)) => named.push(s.clone()),
            _ => {},
        }
        match field(json, "module") {
            Some(JsonValue::Str(s)) => named.push(s.clone()),
            _ => {},
        }
        match field(json, "browser") {
            Some(JsonValue::Str(s)) => named.push(s.clone()),
            _ => {},
        }
        assert(str_views(named@) =~= text_field(*json, "main"@) + text_field(*json, "module"@) + text_field(*json, "browser"@));
        if let Some(e) = field(json, "exports") {
            Self::process_exports_value(e, &mut named);
        }
        let ghost after_exports = str_views(named@);
        let ghost start_patterns = str_views(patterns@);
        let ghost scripts = scripts_of(*json);
        match field(json, "scripts") {
            Some(JsonValue::Object(es)) => {
                let ghost ev = es@;
                let mut i: usize = 0;
                let ghost mut seen: Seq<Seq<char>> = Seq::empty();
                assert(ev.take(0) =~= Seq::<(String, JsonValue)>::empty());
                assert(seen.map_values(|s: Seq<char>| script_path_captures(s)) =~= Seq::<Seq<Seq<char>>>::empty());
                while i < es.len()
                    invariant
                        i <= ev.len(),
                        ev == es@,
                        seen == text_values(ev.take(i as int)),
                        str_views(named@) == after_exports + script_paths(seen),
                        str_views(patterns@) == with_patterns(start_patterns, script_globs(seen)),
                    decreases ev.len() - i,
                {
                    proof {
                        assert(ev.take(i + 1).drop_last() =~= ev.take(i as int));
                        assert(ev.take(i + 1).last() == ev[i as int]);
                    }
                    match &es[i].1 {
                        JsonValue::Str(script) => {
                            let ghost prev_named = str_views(named@);
                            let ghost prev_pats = str_views(patterns@);
                            Self::parse_script(script.as_str(), &mut named, patterns);
                            proof {
                                lemma_with_patterns_append(start_patterns, script_globs(seen), script_glob_captures(script@));
                                lemma_script_texts_push(seen, script@);
                                seen = seen.push(script@);
                            }
                        },
                        _ => {},
                    }
                    i = i + 1;
                }
                assert(ev.take(ev.len() as int) =~= ev);
            },
            _ => {
                assert(script_paths(scripts) =~= Seq::<Seq<char>>::empty());
                assert(script_globs(scripts) =~= Seq::<Seq<char>>::empty());
            },
        }
        assert(str_views(named@) =~= named_entries(*json));
        push_all_candidates(&named, package_dir, candidates);
    }
}

proof fn lemma_with_patterns_append(pats: Seq<Seq<char>>, a: Seq<Seq<char>>, b: Seq<Seq<char>>)
    ensures
        with_patterns(pats, a + b) == with_patterns(with_patterns(pats, a), b),
    decreases b.len(),
{
    if b.len() == 0 {
        assert(a + b =~= a);
    } else {
        lemma_with_patterns_append(pats, a, b.drop_last());
        assert((a + b).drop_last() =~= a + b.drop_last());
    }
}

proof fn lemma_script_texts_push(seen: Seq<Seq<char>>, s: Seq<char>)
    ensures
        script_paths(seen.push(s)) == script_paths(seen) + script_path_captures(s),
        script_globs(seen.push(s)) == script_globs(seen) + script_glob_captures(s),
{
    let f = |x: Seq<char>| script_path_captures(x);
    let g = |x: Seq<char>| script_glob_captures(x);
    assert(seen.push(s).map_values(f).drop_last() =~= seen.map_values(f));
    assert(seen.push(s).map_values(g).drop_last() =~= seen.map_values(g));
}

/// Whether the candidates `part` stand in a row in `all`, from index `i`.
pub open spec fn candidates_at(all: Seq<Seq<char>>, part: Seq<Seq<char>>, i: int) -> bool {
    0 <= i && i + part.len() <= all.len() && all.subrange(i, i + part.len()) == part
}

/// The candidates of two lists of names, one after the other, are those of
/// the first followed by those of the second.
proof fn lemma_candidates_of_concat(a: Seq<Seq<char>>, b: Seq<Seq<char>>, dir: Seq<char>)
    ensures
        candidates_of(a + b, dir) == candidates_of(a, dir) + candidates_of(b, dir),
    decreases b.len(),
{
    if b.len() == 0 {
        assert(a + b =~= a);
        assert(candidates_of(a, dir) + candidates_of(b, dir) =~= candidates_of(a, dir));
    } else {
        assert((a + b).drop_last() =~= a + b.drop_last());
        lemma_candidates_of_concat(a, b.drop_last(), dir);
        assert(candidates_of(a + b, dir) =~= candidates_of(a, dir) + candidates_of(b, dir));
    }
}

/// The candidates of a name that stands between `pre` and `post` follow
/// those of `pre`.
proof fn lemma_candidates_of_one(pre: Seq<Seq<char>>, x: Seq<char>, post: Seq<Seq<char>>, dir: Seq<char>)
    ensures
        candidates_at(candidates_of(pre + seq![x] + post, dir), entry_candidates(x, dir), candidates_of(pre, dir).len() as int),
{
    lemma_candidates_of_concat(pre + seq![x], post, dir);
    lemma_candidates_of_concat(pre, seq![x], dir);
    assert(seq![x].drop_last() =~= Seq::<Seq<char>>::empty());
    assert(seq![x].last() == x);
    assert(candidates_of(Seq::<Seq<char>>::empty(), dir) =~= Seq::<Seq<char>>::empty());
    assert(candidates_of(seq![x], dir) =~= entry_candidates(x, dir));
    let all = candidates_of(pre + seq![x] + post, dir);
    let n = candidates_of(pre, dir).len() as int;
    assert(all =~= candidates_of(pre, dir) + entry_candidates(x, dir) + candidates_of(post, dir));
    assert(all.subrange(n, n + entry_candidates(x, dir).len()) =~= entry_candidates(x, dir));
}

/// A package's `main`, `module` and `browser` fields are entry points: where
/// one of them holds a text, the candidates of that text stand in a row among
/// the candidates of the package's named entries, in the package's directory.
pub proof fn lemma_text_fields_are_entries(json: JsonValue, key: Seq<char>, s: String, dir: Seq<char>)
    requires
        key == "main"@ || key == "module"@ || key == "browser"@,
        json_field(json, key) == Some(JsonValue::Str(s)),
    ensures
        exists|i: int| #[trigger] candidates_at(candidates_of(named_entries(json), dir), entry_candidates(s@, dir), i),
{
    let a = text_field(json, "main"@);
    let b = text_field(json, "module"@);
    let c = text_field(json, "browser"@);
    let rest = (match json_field(json, "exports"@) {
        Some(e) => json_strings(e),
        None => Seq::empty(),
    }) + script_paths(scripts_of(json));
    let named = named_entries(json);
    assert(named =~= a + b + c + rest);
    if key == "main"@ {
        assert(a == seq![s@]);
        assert(named =~= Seq::<Seq<char>>::empty() + seq![s@] + (b + c + rest));
        lemma_candidates_of_one(Seq::empty(), s@, b + c + rest, dir);
        let i = candidates_of(Seq::<Seq<char>>::empty(), dir).len() as int;
        assert(candidates_at(candidates_of(named, dir), entry_candidates(s@, dir), i));
    } else if key == "module"@ {
        assert(b == seq![s@]);
        assert(named =~= a + seq![s@] + (c + rest));
        lemma_candidates_of_one(a, s@, c + rest, dir);
        let i = candidates_of(a, dir).len() as int;
        assert(candidates_at(candidates_of(named, dir), entry_candidates(s@, dir), i));
    } else {
        assert(c == seq![s@]);
        assert(named =~= (a + b) + seq![s@] + rest);
        lemma_candidates_of_one(a + b, s@, rest, dir);
        let i = candidates_of(a + b, dir).len() as int;
        assert(candidates_at(candidates_of(named, dir), entry_candidates(s@, dir), i));
    }
}

/// The texts of a package's `exports` are entry points too: their candidates,
/// in the order of the texts, stand in a row among the candidates of the
/// package's named entries.
pub proof fn lemma_exports_are_entries(json: JsonValue, e: JsonValue, dir: Seq<char>)
    requires
        json_field(json, "exports"@) == Some(e),
    ensures
        exists|i: int| #[trigger] candidates_at(candidates_of(named_entries(json), dir), candidates_of(json_strings(e), dir), i),
{
    let head = text_field(json, "main"@) + text_field(json, "module"@) + text_field(json, "browser"@);
    let x = json_strings(e);
    let sc = script_paths(scripts_of(json));
    let named = named_entries(json);
    assert(named =~= head + x + sc);
    lemma_candidates_of_concat(head + x, sc, dir);
    lemma_candidates_of_concat(head, x, dir);
    let all = candidates_of(named, dir);
    let n = candidates_of(head, dir).len() as int;
    let part = candidates_of(x, dir);
    assert(all =~= candidates_of(head, dir) + part + candidates_of(sc, dir));
    assert(all.subrange(n, n + part.len()) =~= part);
    assert(candidates_at(all, part, n));
}

} // verus!
