//! Finding the tsconfig file of a project and following its `extends` chain.
//! Whether files exist, and what they hold, is learned by the caller; the
//! choices made from that are here.

use vstd::prelude::*;
use crate::error::AnalysisError;
use crate::paths::{is_absolute_path, join_path, path_is_absolute, parent_of, path_join, path_parent, path_with_extension, with_extension};
use crate::project_root::{ancestors, is_ancestor_chain};
use crate::text::{list_contains, str_starts_with, str_views};
use crate::tsconfig::types::TsConfig;

verus! {

/// The file that `find_and_load` looks at: `explicit` under `root`, or
/// `tsconfig.json` there.
pub open spec fn tsconfig_path(root: Seq<char>, explicit: Option<Seq<char>>) -> Seq<char> {
    match explicit {
        Some(p) => path_join(root, p),
        None => path_join(root, "tsconfig.json"@),
    }
}

/// The view of an optional text.
pub open spec fn opt_view(o: Option<&str>) -> Option<Seq<char>> {
    match o {
        Some(s) => Some(s@),
        None => None,
    }
}

/// The files tried for an `extends` that names `p`: `p` itself, `p` with the
/// extension `json`, and `tsconfig.json` inside `p`.
pub open spec fn fallbacks(p: Seq<char>) -> Seq<Seq<char>> {
    seq![p, path_with_extension(p, "json"@), path_join(p, "tsconfig.json"@)]
}

/// The files tried for a package `spec` from the directories of `chain`,
/// nearest first: the fallbacks of `spec` inside each one's `node_modules`.
pub open spec fn node_modules_candidates(chain: Seq<Seq<char>>, spec: Seq<char>) -> Seq<Seq<char>>
    decreases chain.len(),
{
    if chain.len() == 0 {
        Seq::empty()
    } else {
        node_modules_candidates(chain.drop_last(), spec) + fallbacks(
            path_join(path_join(chain.last(), "node_modules"@), spec),
        )
    }
}

/// The files tried, in order, for the `extends` value `ext` of a file in
/// `base`: relative to `base` where `ext` starts with `.`; `ext` itself where
/// it is absolute; else inside the `node_modules` of `base` and of each of
/// its ancestors (`chain`).
pub open spec fn extends_candidates_for(base: Seq<char>, ext: Seq<char>, absolute: bool, chain: Seq<Seq<char>>) -> Seq<Seq<char>> {
    if ext.len() > 0 && ext[0] == '.' {
        fallbacks(path_join(base, ext))
    } else if absolute {
        fallbacks(ext)
    } else {
        node_modules_candidates(chain, ext)
    }
}

/// The first of `candidates` that is a file (`is_file[k]` says whether the
/// `k`-th is), if any.
pub open spec fn first_file(candidates: Seq<Seq<char>>, is_file: Seq<bool>) -> Option<Seq<char>>
    decreases candidates.len(),
{
    if candidates.len() == 0 || is_file.len() == 0 {
        None
    } else if is_file[0] {
        Some(candidates[0])
    } else {
        first_file(candidates.drop_first(), is_file.drop_first())
    }
}

/// Appends the fallbacks of `p`.
fn push_fallbacks(out: &mut Vec<String>, p: String)
    ensures
        str_views(final(out)@) == str_views(old(out)@) + fallbacks(p@),
{
    proof {
        reveal_strlit("json");
    }
    let with_json = with_extension(p.as_str(), "json");
    let inner = join_path(p.as_str(), "tsconfig.json");
    let ghost before = str_views(out@);
    out.push(p);
    out.push(with_json);
    out.push(inner);
    proof {
        reveal_strlit("json");
        reveal_strlit("tsconfig.json");
        assert(str_views(out@) =~= before + fallbacks(p@));
    }
}

impl TsConfig {
    /// The directory that the `extends` value of the file `path` is resolved
    /// from: the parent of `path`, or `.` where it has none.
    pub fn extends_base(path: &str) -> (r: String)
        ensures
            r@ == match path_parent(path@) {
                Some(p) => p,
                None => "."@,
            },
    {
        match parent_of(path) {
            Some(p) => p,
            None => ".".to_owned(),
        }
    }

    /// The file that `find_and_load` looks at.
    pub fn tsconfig_location(project_root: &str, explicit_path: Option<&str>) -> (r: String)
        ensures
            r@ == tsconfig_path(project_root@, opt_view(explicit_path)),
    {
        match explicit_path {
            Some(p) => join_path(project_root, p),
            None => join_path(project_root, "tsconfig.json"),
        }
    }

    /// Which tsconfig file of `project_root` to load, given whether the file
    /// that `tsconfig_location` names exists: that file where it exists;
    /// nothing where no explicit path was asked for and `tsconfig.json` is
    /// missing; an error naming the file where an explicit path is missing.
    pub fn find_and_load(project_root: &str, explicit_path: Option<&str>, exists: bool) -> (r: Result<Option<String>, AnalysisError>)
        ensures
            exists ==> (r matches Ok(Some(p)) && p@ == tsconfig_path(project_root@, opt_view(explicit_path))),
            !exists && explicit_path is None ==> r matches Ok(None),
            !exists && explicit_path is Some ==> (r matches Err(AnalysisError::TsConfigNotFound(p)) && p@ == tsconfig_path(
                project_root@,
                opt_view(explicit_path),
            )),
    {
        let path = Self::tsconfig_location(project_root, explicit_path);
        if exists {
            Ok(Some(path))
        } else {
            match explicit_path {
                Some(_) => Err(AnalysisError::TsConfigNotFound(path)),
                None => Ok(None),
            }
        }
    }

    /// The files tried, in order, for the `extends` value `extends` of a file
    /// in `base_dir`, where `absolute` says whether `extends` is an absolute
    /// path.
    pub fn extends_candidates(base_dir: &str, extends: &str, absolute: bool) -> (r: Vec<String>)
        ensures
            exists|chain: Seq<Seq<char>>|
                is_ancestor_chain(base_dir@, chain) && str_views(r@) == #[trigger] extends_candidates_for(
                    base_dir@,
                    extends@,
                    absolute,
                    chain,
                ),
    {
        let chain = ancestors(base_dir);
        let ghost cv = str_views(chain@);
        let mut out: Vec<String> = Vec::new();
        if str_starts_with(extends, ".") {
            proof {
                reveal_strlit(".");
                assert("."@[0] == '.');
                assert(extends@.subrange(0, 1)[0] == extends@[0]);
                assert(extends@.len() > 0 && extends@[0] == '.');
            }
            push_fallbacks(&mut out, join_path(base_dir, extends));
            assert(str_views(out@) =~= extends_candidates_for(base_dir@, extends@, absolute, cv));
        } else {
            proof {
                reveal_strlit(".");
                assert(!(extends@.len() > 0 && extends@[0] == '.')) by {
                    if extends@.len() > 0 && extends@[0] == '.' {
                        assert(extends@.take(1) =~= "."@);
                    }
                }
            }
            if absolute {
                push_fallbacks(&mut out, extends.to_owned());
                assert(str_views(out@) =~= extends_candidates_for(base_dir@, extends@, absolute, cv));
            } else {
                let mut k: usize = 0;
                assert(cv.take(0) =~= Seq::<Seq<char>>::empty());
                assert(str_views(out@) =~= node_modules_candidates(cv.take(0), extends@));
                while k < chain.len()
                    invariant
                        k <= chain@.len(),
                        cv == str_views(chain@),
                        str_views(out@) == node_modules_candidates(cv.take(k as int), extends@),
                    decreases chain@.len() - k,
                {
                    let nm = join_path(chain[k].as_str(), "node_modules");
                    let p = join_path(nm.as_str(), extends);
                    push_fallbacks(&mut out, p);
                    proof {
                        reveal_strlit("node_modules");
                        assert(cv.take(k + 1).drop_last() =~= cv.take(k as int));
                        assert(cv.take(k + 1).last() == cv[k as int]);
                    }
                    k = k + 1;
                }
                assert(cv.take(chain@.len() as int) =~= cv);
                assert(str_views(out@) == extends_candidates_for(base_dir@, extends@, absolute, cv));
            }
        }
        assert(is_ancestor_chain(base_dir@, cv));
        out
    }

    /// The files tried, in order, for the `extends` value `extends` of a file
    /// in `base_dir`, the value counting as absolute where `Path::is_absolute`
    /// says so; `chain` in the contract is the chain of `base_dir` and its
    /// ancestors, of which there is one only.
    pub fn resolve_extends_candidates(base_dir: &str, extends: &str) -> (r: Vec<String>)
        ensures
            exists|chain: Seq<Seq<char>>|
                is_ancestor_chain(base_dir@, chain) && str_views(r@) == #[trigger] extends_candidates_for(
                    base_dir@,
                    extends@,
                    path_is_absolute(extends@),
                    chain,
                ),
    {
        let absolute = is_absolute_path(extends);
        Self::extends_candidates(base_dir, extends, absolute)
    }

    /// The file that an `extends` value resolves to: the first of its
    /// candidates that is a file, where `is_file[k]` says whether the `k`-th
    /// is; an error naming the value where none is.
    pub fn resolve_extends_path(candidates: &Vec<String>, is_file: &[bool], extends: &str) -> (r: Result<String, AnalysisError>)
        ensures
            match first_file(str_views(candidates@), is_file@) {
                Some(p) => r matches Ok(q) && q@ == p,
                None => r matches Err(AnalysisError::UnresolvedExtends(e)) && e@ == extends@,
            },
    {
        let ghost cv = str_views(candidates@);
        let mut k: usize = 0;
        assert(cv.skip(0) =~= cv);
        assert(is_file@.skip(0) =~= is_file@);
        while k < candidates.len() && k < is_file.len()
            invariant
                k <= candidates@.len(),
                k <= is_file@.len(),
                cv == str_views(candidates@),
                first_file(cv, is_file@) == first_file(cv.skip(k as int), is_file@.skip(k as int)),
            decreases candidates@.len() - k,
        {
            if is_file[k] {
                let r = candidates[k].clone();
                proof {
                    assert(cv.skip(k as int)[0] == cv[k as int]);
                    assert(is_file@.skip(k as int)[0] == is_file@[k as int]);
                }
                return Ok(r);
            }
            proof {
                assert(cv.skip(k as int).drop_first() =~= cv.skip(k + 1));
                assert(is_file@.skip(k as int).drop_first() =~= is_file@.skip(k + 1));
            }
            k = k + 1;
        }
        Err(AnalysisError::UnresolvedExtends(extends.to_owned()))
    }
}

/// The files entered so far while following an `extends` chain, by their
/// canonical paths.
pub struct ExtendsChain {
    /// Canonical paths of the files entered, in order.
    pub visited: Vec<String>,
}

impl ExtendsChain {
    /// A chain that has entered no file.
    pub fn new() -> (r: Self)
        ensures
            r.visited@.len() == 0,
    {
        ExtendsChain { visited: Vec::new() }
    }

    /// Enters the file `path`, whose canonical path is `canonical`: refused,
    /// with an error naming `path`, where that file was entered before.
    pub fn enter(&mut self, canonical: &str, path: &str) -> (r: Result<(), AnalysisError>)
        ensures
            str_views(old(self).visited@).contains(canonical@) ==> (r matches Err(AnalysisError::CircularExtends(p)) && p@ == path@
                && final(self).visited@ == old(self).visited@),
            !str_views(old(self).visited@).contains(canonical@) ==> (r is Ok && str_views(final(self).visited@) == str_views(
                old(self).visited@,
            ).push(canonical@)),
    {
        if list_contains(self.visited.as_slice(), canonical) {
            proof {
                let i = choose|i: int| 0 <= i < self.visited@.len() && #[trigger] self.visited@[i]@ == canonical@;
                assert(str_views(self.visited@)[i] == canonical@);
            }
            return Err(AnalysisError::CircularExtends(path.to_owned()));
        }
        let ghost before = str_views(self.visited@);
        proof {
            assert forall|i: int| 0 <= i < before.len() implies before[i] != canonical@ by {
                assert(self.visited@[i]@ == before[i]);
            }
        }
        self.visited.push(canonical.to_owned());
        assert(str_views(self.visited@) =~= before.push(canonical@));
        Ok(())
    }
}

} // verus!
