//! Package specifiers in `extends` of tsconfig files.

use vstd::prelude::*;
use crate::package_json::{entry_for, field, json_field, JsonValue};
use crate::paths::{join_path, path_join};
use crate::text::{append_str, chars_of, slice_chars, string_of};

verus! {

/// Resolves where an extended tsconfig lives.
pub struct TsConfigResolver;

/// `s` split at its first `c`: the part before it and, where there is one,
/// the part after it.
pub open spec fn split_once(s: Seq<char>, c: char) -> (Seq<char>, Option<Seq<char>>) {
    match s.index_of_first(c) {
        Some(i) => (s.take(i), Some(s.skip(i + 1))),
        None => (s, None),
    }
}

/// A package specifier as package name and subpath: `@scope/pkg/sub` is
/// `@scope/pkg` and `sub`, `pkg/sub` is `pkg` and `sub`.
pub open spec fn package_specifier(s: Seq<char>) -> (Seq<char>, Option<Seq<char>>) {
    let (p0, rest) = split_once(s, '/');
    if s.len() > 0 && s[0] == '@' && rest is Some {
        let (p1, sub) = split_once(rest->0, '/');
        (p0 + seq!['/'] + p1, sub)
    } else {
        (p0, rest)
    }
}

/// `s` split at its first `c`.
fn split_once_chars(s: &[char], c: char) -> (r: (Vec<char>, Option<Vec<char>>))
    ensures
        r.0@ == split_once(s@, c).0,
        match r.1 {
            Some(rest) => split_once(s@, c).1 == Some(rest@),
            None => split_once(s@, c).1 is None,
        },
{
    let mut i: usize = 0;
    while i < s.len() && s[i] != c
        invariant
            i <= s@.len(),
            forall|j: int| 0 <= j < i ==> s@[j] != c,
        decreases s@.len() - i,
    {
        i = i + 1;
    }
    proof {
        s@.index_of_first_ensures(c);
    }
    if i == s.len() {
        let all = slice_chars(s, 0, s.len());
        assert(all@ =~= s@);
        assert(!s@.contains(c));
        (all, None)
    } else {
        proof {
            assert(s@.contains(c));
            let k = s@.index_of_first(c)->0;
            if k < i {
                assert(s@[k] != c);
            } else if i < k {
                assert(s@[i as int] != c);
            }
        }
        let before = slice_chars(s, 0, i);
        let after = slice_chars(s, i + 1, s.len());
        assert(before@ =~= s@.take(i as int));
        assert(after@ =~= s@.skip(i + 1));
        (before, Some(after))
    }
}

impl TsConfigResolver {
    /// Splits a package specifier into the package name and the subpath, if any.
    pub fn parse_package_specifier(specifier: &str) -> (r: (String, Option<String>))
        ensures
            r.0@ == package_specifier(specifier@).0,
            match r.1 {
                Some(sub) => package_specifier(specifier@).1 == Some(sub@),
                None => package_specifier(specifier@).1 is None,
            },
    {
        let cs = chars_of(specifier);
        let (p0, rest) = split_once_chars(cs.as_slice(), '/');
        if cs.len() > 0 && cs[0] == '@' {
            match rest {
                Some(r) => {
                    let (p1, sub) = split_once_chars(r.as_slice(), '/');
                    let mut pkg = p0;
                    pkg.push('/');
                    let mut k: usize = 0;
                    let ghost base = pkg@;
                    while k < p1.len()
                        invariant
                            k <= p1@.len(),
                            pkg@ == base + p1@.take(k as int),
                        decreases p1@.len() - k,
                    {
                        pkg.push(p1[k]);
                        k = k + 1;
                        assert(pkg@ =~= base + p1@.take(k as int));
                    }
                    assert(p1@.take(p1@.len() as int) =~= p1@);
                    let name = string_of(pkg.as_slice());
                    let sub_s = match sub {
                        Some(x) => Some(string_of(x.as_slice())),
                        None => None,
                    };
                    return (name, sub_s);
                },
                None => {
                    return (string_of(p0.as_slice()), None);
                },
            }
        }
        let sub_s = match rest {
            Some(x) => Some(string_of(x.as_slice())),
            None => None,
        };
        (string_of(p0.as_slice()), sub_s)
    }
}

proof fn lemma_split_once_rejoins(s: Seq<char>, c: char)
    ensures
        match split_once(s, c).1 {
            Some(rest) => split_once(s, c).0 + seq![c] + rest == s && !split_once(s, c).0.contains(c),
            None => split_once(s, c).0 == s && !s.contains(c),
        },
{
    s.index_of_first_ensures(c);
    match s.index_of_first(c) {
        Some(i) => {
            assert(s.take(i) + seq![c] + s.skip(i + 1) =~= s);
            if s.take(i).contains(c) {
                let j = choose|j: int| 0 <= j < s.take(i).len() && s.take(i)[j] == c;
                assert(s[j] == c);
            }
        },
        None => {},
    }
}

/// Splitting a package specifier loses nothing: the package name, a `/` and
/// the subpath give the specifier back, and without a subpath the name is the
/// whole specifier.
pub proof fn lemma_package_specifier_rejoins(s: Seq<char>)
    ensures
        match package_specifier(s).1 {
            Some(sub) => package_specifier(s).0 + seq!['/'] + sub == s,
            None => package_specifier(s).0 == s,
        },
{
    lemma_split_once_rejoins(s, '/');
    let (p0, rest) = split_once(s, '/');
    if s.len() > 0 && s[0] == '@' && rest is Some {
        let r = rest->0;
        lemma_split_once_rejoins(r, '/');
        let (p1, sub) = split_once(r, '/');
        match sub {
            Some(x) => {
                assert(p0 + seq!['/'] + p1 + seq!['/'] + x =~= p0 + seq!['/'] + (p1 + seq!['/'] + x));
            },
            None => {
                assert(p0 + seq!['/'] + p1 =~= p0 + seq!['/'] + r);
            },
        }
    }
}

/// The tsconfig that the `tsconfig` field of a package's `package.json`
/// (`pkg_json`, in `pkg_dir`) names, where that field is a text.
pub open spec fn tsconfig_field_target(pkg_dir: Seq<char>, pkg_json: JsonValue) -> Option<Seq<char>> {
    match json_field(pkg_json, "tsconfig"@) {
        Some(JsonValue::Str(s)) => Some(path_join(pkg_dir, s@)),
        _ => None,
    }
}

/// The first of the conditions `types`, `default`, `require` and `import`
/// that a conditional export has, whatever its value.
pub open spec fn first_condition(cond: JsonValue) -> Option<JsonValue> {
    match json_field(cond, "types"@) {
        Some(v) => Some(v),
        None => match json_field(cond, "default"@) {
            Some(v) => Some(v),
            None => match json_field(cond, "require"@) {
                Some(v) => Some(v),
                None => json_field(cond, "import"@),
            },
        },
    }
}

/// The tsconfig that the `exports` of a package's `package.json`
/// (`pkg_json`, in `pkg_dir`) give for `./subpath`: a text target, or the
/// text of the first of its conditions.
pub open spec fn exports_target(pkg_dir: Seq<char>, pkg_json: JsonValue, subpath: Seq<char>) -> Option<Seq<char>> {
    match json_field(pkg_json, "exports"@) {
        Some(JsonValue::Object(es)) => match entry_for(es@, "./"@ + subpath) {
            Some(JsonValue::Str(s)) => Some(path_join(pkg_dir, s@)),
            Some(JsonValue::Object(cs)) => match first_condition(JsonValue::Object(cs)) {
                Some(JsonValue::Str(s)) => Some(path_join(pkg_dir, s@)),
                _ => None,
            },
            _ => None,
        },
        _ => None,
    }
}

impl TsConfigResolver {
    /// The tsconfig named by the `tsconfig` field of the `package.json`
    /// `pkg_json` of the package in `pkg_dir`.
    pub fn resolve_via_package_json_field(pkg_dir: &str, pkg_json: &JsonValue) -> (r: Option<String>)
        ensures
            match r {
                Some(p) => tsconfig_field_target(pkg_dir@, *pkg_json) == Some(p@),
                None => tsconfig_field_target(pkg_dir@, *pkg_json) is None,
            },
    {
        proof {
            reveal_strlit("tsconfig");
        }
        match field(pkg_json, "tsconfig") {
            Some(JsonValue::Str(s)) => Some(join_path(pkg_dir, s.as_str())),
            _ => None,
        }
    }

    /// The tsconfig that the `exports` of the `package.json` `pkg_json` of the
    /// package in `pkg_dir` give for `subpath`.
    pub fn resolve_via_exports(pkg_dir: &str, pkg_json: &JsonValue, subpath: &str) -> (r: Option<String>)
        ensures
            match r {
                Some(p) => exports_target(pkg_dir@, *pkg_json, subpath@) == Some(p@),
                None => exports_target(pkg_dir@, *pkg_json, subpath@) is None,
            },
    {
        proof {
            reveal_strlit("exports");
            reveal_strlit("./");
            reveal_strlit("types");
            reveal_strlit("default");
            reveal_strlit("require");
            reveal_strlit("import");
        }
        let exports = match field(pkg_json, "exports") {
            Some(e) => e,
            None => return None,
        };
        if let JsonValue::Object(_) = exports {
        } else {
            return None;
        }
        let mut key = "./".to_owned();
        append_str(&mut key, subpath);
        let target = match field(exports, key.as_str()) {
            Some(t) => t,
            None => return None,
        };
        match target {
            JsonValue::Str(s) => Some(join_path(pkg_dir, s.as_str())),
            JsonValue::Object(_) => {
                let chosen = match field(target, "types") {
                    Some(v) => Some(v),
                    None => match field(target, "default") {
                        Some(v) => Some(v),
                        None => match field(target, "require") {
                            Some(v) => Some(v),
                            None => field(target, "import"),
                        },
                    },
                };
                match chosen {
                    Some(JsonValue::Str(s)) => Some(join_path(pkg_dir, s.as_str())),
                    _ => None,
                }
            },
            _ => None,
        }
    }
}

} // verus!
