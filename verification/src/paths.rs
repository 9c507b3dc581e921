//! Paths as text: stripping a base directory and normalising separators.

use vstd::prelude::*;
use crate::text::{chars_of, replace_char, replace_char_spec, str_eq, string_of};

verus! {

/// Names what `Path::strip_prefix` gives for `path` and `base`, made text: the
/// rest of `path` after the leading components that make up `base`, or `None`
/// where `base` is not a prefix of `path` by components.
pub uninterp spec fn path_strip_prefix(path: Seq<char>, base: Seq<char>) -> Option<Seq<char>>;

/// Wraps `Path::strip_prefix` (and `Path::to_string_lossy` on its result).
#[verifier::external_body]
pub(crate) fn strip_path_prefix(path: &str, base: &str) -> (r: Option<String>)
    ensures
        match r {
            Some(rest) => path_strip_prefix(path@, base@) == Some(rest@),
            None => path_strip_prefix(path@, base@) is None,
        },
{
    match std::path::Path::new(path).strip_prefix(base) {
        Ok(rest) => Some(rest.to_string_lossy().into_owned()),
        Err(_) => None,
    }
}

/// `path` relative to `root` where it lies under it, else `path` itself, with
/// every `\` turned into `/`.
pub open spec fn relative_to(path: Seq<char>, root: Seq<char>) -> Seq<char> {
    let rel = match path_strip_prefix(path, root) {
        Some(rest) => rest,
        None => path,
    };
    replace_char_spec(rel, '\\', '/')
}

/// `path` relative to `root`, with `/` as the separator.
pub fn relative_path(path: &str, root: &str) -> (r: String)
    ensures
        r@ == relative_to(path@, root@),
{
    let rel = match strip_path_prefix(path, root) {
        Some(rest) => rest,
        None => path.to_owned(),
    };
    let cs = chars_of(rel.as_str());
    let replaced = replace_char(cs.as_slice(), '\\', '/');
    string_of(replaced.as_slice())
}

/// Names what `Path::parent` gives for `path`, made text: `None` for a path
/// that ends in a root or prefix, or is empty.
pub uninterp spec fn path_parent(path: Seq<char>) -> Option<Seq<char>>;

/// Wraps `Path::parent` (and `Path::to_string_lossy` on its result). The
/// parent is `path` without its final component, so it is shorter.
#[verifier::external_body]
pub(crate) fn parent_of(path: &str) -> (r: Option<String>)
    ensures
        match r {
            Some(p) => path_parent(path@) == Some(p@) && p@.len() < path@.len(),
            None => path_parent(path@) is None,
        },
{
    match std::path::Path::new(path).parent() {
        Some(p) => Some(p.to_string_lossy().into_owned()),
        None => None,
    }
}

/// Names the components of `path`, in order, as `Path::components` yields
/// them: each as whether it is a normal component (`Component::Normal`) and its text.
pub uninterp spec fn path_components(path: Seq<char>) -> Seq<(bool, Seq<char>)>;

/// Wraps `Path::components`.
#[verifier::external_body]
fn components_of(path: &str) -> (r: Vec<(bool, String)>)
    ensures
        r@.map_values(|c: (bool, String)| (c.0, c.1@)) == path_components(path@),
{
    let mut out = Vec::new();
    for c in std::path::Path::new(path).components() {
        match c {
            std::path::Component::Normal(s) => out.push((true, s.to_string_lossy().into_owned())),
            other => out.push((false, other.as_os_str().to_string_lossy().into_owned())),
        }
    }
    out
}

/// The normal components of `cs`, in order.
pub open spec fn normal_only(cs: Seq<(bool, Seq<char>)>) -> Seq<Seq<char>>
    decreases cs.len(),
{
    if cs.len() == 0 {
        Seq::empty()
    } else {
        let prev = normal_only(cs.drop_last());
        if cs.last().0 { prev.push(cs.last().1) } else { prev }
    }
}

/// The normal components of `path`, in order.
pub fn normal_components(path: &str) -> (r: Vec<String>)
    ensures
        crate::text::str_views(r@) == normal_only(path_components(path@)),
{
    let all = components_of(path);
    let ghost av = all@.map_values(|c: (bool, String)| (c.0, c.1@));
    let mut out: Vec<String> = Vec::new();
    let mut i: usize = 0;
    while i < all.len()
        invariant
            i <= all@.len(),
            av == all@.map_values(|c: (bool, String)| (c.0, c.1@)),
            crate::text::str_views(out@) == normal_only(av.take(i as int)),
        decreases all@.len() - i,
    {
        proof {
            assert(av.take(i + 1).drop_last() =~= av.take(i as int));
        }
        if all[i].0 {
            let ghost before = crate::text::str_views(out@);
            out.push(all[i].1.clone());
            assert(crate::text::str_views(out@) =~= before.push(all@[i as int].1@));
        }
        i = i + 1;
    }
    assert(av.take(all@.len() as int) =~= av);
    out
}

/// Names what `Path::file_name` gives for `path`: its last component where
/// that is a normal one.
pub uninterp spec fn path_file_name(path: Seq<char>) -> Option<Seq<char>>;

/// Wraps `Path::file_name` (and `OsStr::to_str` on its result).
#[verifier::external_body]
pub(crate) fn file_name_of(path: &str) -> (r: Option<String>)
    ensures
        match r {
            Some(n) => path_file_name(path@) == Some(n@),
            None => path_file_name(path@) is None,
        },
{
    match std::path::Path::new(path).file_name() {
        Some(n) => match n.to_str() {
            Some(t) => Some(t.to_owned()),
            None => None,
        },
        None => None,
    }
}

/// Names what `Path::join` gives for `base` and `rest`, made text: `rest`
/// appended to `base` with a separator, or `rest` alone where it is absolute.
pub uninterp spec fn path_join(base: Seq<char>, rest: Seq<char>) -> Seq<char>;

/// Wraps `Path::join` (and `Path::to_string_lossy` on its result).
#[verifier::external_body]
pub(crate) fn join_path(base: &str, rest: &str) -> (r: String)
    ensures
        r@ == path_join(base@, rest@),
{
    std::path::Path::new(base).join(rest).to_string_lossy().into_owned()
}

/// Names what `Path::with_extension` gives for `path` and `ext`, made text.
pub uninterp spec fn path_with_extension(path: Seq<char>, ext: Seq<char>) -> Seq<char>;

/// Wraps `Path::with_extension` (and `Path::to_string_lossy` on its result).
/// It panics on an extension that holds a path separator, so none is admitted.
#[verifier::external_body]
pub(crate) fn with_extension(path: &str, ext: &str) -> (r: String)
    requires
        forall|i: int| 0 <= i < ext@.len() ==> ext@[i] != '/' && ext@[i] != '\\',
    ensures
        r@ == path_with_extension(path@, ext@),
{
    std::path::Path::new(path).with_extension(ext).to_string_lossy().into_owned()
}

/// Names what `Path::extension` gives for `path`, made text.
pub uninterp spec fn path_extension(path: Seq<char>) -> Option<Seq<char>>;

/// Wraps `Path::extension` (and `OsStr::to_string_lossy` on its result).
#[verifier::external_body]
pub(crate) fn extension_of(path: &str) -> (r: Option<String>)
    ensures
        match r {
            Some(e) => path_extension(path@) == Some(e@),
            None => path_extension(path@) is None,
        },
{
    match std::path::Path::new(path).extension() {
        Some(e) => Some(e.to_string_lossy().into_owned()),
        None => None,
    }
}

/// Whether `Path::is_absolute` holds of `path`: on Unix, whether it begins
/// with `/`; on Windows, whether it has a prefix and a root. The rule is fixed
/// for the platform the library is built for, so the answer is a function of
/// the path; it is named, not spelled out.
pub uninterp spec fn path_is_absolute(path: Seq<char>) -> bool;

/// Wraps `Path::is_absolute`: the answer is `path_is_absolute` of the path.
#[verifier::external_body]
pub(crate) fn is_absolute_path(path: &str) -> (r: bool)
    ensures
        r == path_is_absolute(path@),
{
    std::path::Path::new(path).is_absolute()
}

/// Whether two paths are equal as `Path`s are compared: component by
/// component.
pub(crate) fn same_path(a: &str, b: &str) -> (r: bool)
    ensures
        r == (path_components(a@) == path_components(b@)),
{
    let ca = components_of(a);
    let cb = components_of(b);
    let ghost va = ca@.map_values(|c: (bool, String)| (c.0, c.1@));
    let ghost vb = cb@.map_values(|c: (bool, String)| (c.0, c.1@));
    if ca.len() != cb.len() {
        assert(va.len() != vb.len());
        return false;
    }
    let mut i: usize = 0;
    while i < ca.len()
        invariant
            i <= ca@.len(),
            ca@.len() == cb@.len(),
            va == ca@.map_values(|c: (bool, String)| (c.0, c.1@)),
            vb == cb@.map_values(|c: (bool, String)| (c.0, c.1@)),
            va == path_components(a@),
            vb == path_components(b@),
            forall|k: int| 0 <= k < i ==> va[k] == vb[k],
        decreases ca@.len() - i,
    {
        if ca[i].0 != cb[i].0 || !str_eq(ca[i].1.as_str(), cb[i].1.as_str()) {
            assert(va[i as int] != vb[i as int]);
            assert(va != vb);
            return false;
        }
        assert(va[i as int] == vb[i as int]);
        i = i + 1;
    }
    assert(va =~= vb);
    true
}

} // verus!
