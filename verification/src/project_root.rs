//! Finding the root of a project: the nearest enclosing directory that holds
//! a project marker.

use vstd::prelude::*;
use crate::paths::{join_path, parent_of, path_join, path_parent};
use crate::text::str_views;

verus! {

/// The files whose presence marks a project root.
pub open spec fn marker_names() -> Seq<Seq<char>> {
    seq![".git"@, "package.json"@, "pnpm-workspace.yaml"@, "tsconfig.json"@, "yarn.lock"@, "package-lock.json"@]
}

/// Whether `chain` lists `start` and then each parent of the one before, up to
/// a path that has no parent.
pub open spec fn is_ancestor_chain(start: Seq<char>, chain: Seq<Seq<char>>) -> bool {
    &&& chain.len() > 0
    &&& chain[0] == start
    &&& forall|k: int| 0 <= k < chain.len() - 1 ==> path_parent(#[trigger] chain[k]) == Some(chain[k + 1])
    &&& path_parent(chain.last()) is None
}

/// `start` and each of its ancestors, nearest first.
pub fn ancestors(start: &str) -> (r: Vec<String>)
    ensures
        is_ancestor_chain(start@, str_views(r@)),
{
    let mut chain: Vec<String> = Vec::new();
    let mut current = start.to_owned();
    chain.push(current.clone());
    loop
        invariant
            chain@.len() > 0,
            str_views(chain@)[0] == start@,
            str_views(chain@).last() == current@,
            forall|k: int| 0 <= k < chain@.len() - 1 ==> path_parent(#[trigger] str_views(chain@)[k]) == Some(str_views(chain@)[k + 1]),
        ensures
            is_ancestor_chain(start@, str_views(chain@)),
        decreases current@.len(),
    {
        match parent_of(current.as_str()) {
            Some(p) => {
                let ghost before = str_views(chain@);
                chain.push(p.clone());
                proof {
                    let now = str_views(chain@);
                    assert(now =~= before.push(p@));
                    assert forall|k: int| 0 <= k < now.len() - 1 implies path_parent(#[trigger] now[k]) == Some(now[k + 1]) by {
                        if k < before.len() - 1 {
                            assert(now[k] == before[k] && now[k + 1] == before[k + 1]);
                        } else {
                            assert(now[k] == current@);
                        }
                    }
                }
                current = p;
            },
            None => {
                break;
            },
        }
    }
    chain
}

/// The paths whose existence marks `dir` as a project root.
pub fn marker_paths(dir: &str) -> (r: Vec<String>)
    ensures
        str_views(r@) == marker_names().map_values(|m: Seq<char>| path_join(dir@, m)),
{
    let mut r: Vec<String> = Vec::new();
    r.push(join_path(dir, ".git"));
    r.push(join_path(dir, "package.json"));
    r.push(join_path(dir, "pnpm-workspace.yaml"));
    r.push(join_path(dir, "tsconfig.json"));
    r.push(join_path(dir, "yarn.lock"));
    r.push(join_path(dir, "package-lock.json"));
    assert(str_views(r@) =~= marker_names().map_values(|m: Seq<char>| path_join(dir@, m)));
    r
}

/// The directory the search for a root starts from: the parent of `target`
/// when `target` is a file (or `target` itself where it has none), else
/// `target`.
pub open spec fn search_start(target: Seq<char>, is_file: bool) -> Seq<char> {
    if is_file {
        match path_parent(target) {
            Some(p) => p,
            None => target,
        }
    } else {
        target
    }
}

/// The root chosen from `chain`, where `marked[k]` says whether `chain[k]`
/// holds a project marker: the first marked one, or `fallback` where none is.
pub open spec fn first_marked(chain: Seq<Seq<char>>, marked: Seq<bool>, fallback: Seq<char>) -> Seq<char>
    decreases chain.len(),
{
    if chain.len() == 0 {
        fallback
    } else if marked.len() > 0 && marked[0] {
        chain[0]
    } else {
        first_marked(chain.drop_first(), if marked.len() > 0 { marked.drop_first() } else { marked }, fallback)
    }
}

/// Where the search for the root of `target` starts, given whether `target`
/// is a file.
pub fn start_dir(target: &str, is_file: bool) -> (r: String)
    ensures
        r@ == search_start(target@, is_file),
{
    if is_file {
        match parent_of(target) {
            Some(p) => p,
            None => target.to_owned(),
        }
    } else {
        target.to_owned()
    }
}

/// Whether a directory is a project root, given for each of its marker paths
/// (see `marker_paths`) whether it exists.
pub fn is_project_root(marker_exists: &[bool]) -> (r: bool)
    ensures
        r == exists|k: int| 0 <= k < marker_exists@.len() && marker_exists@[k],
{
    let mut k: usize = 0;
    while k < marker_exists.len()
        invariant
            k <= marker_exists@.len(),
            forall|j: int| 0 <= j < k ==> !marker_exists@[j],
        decreases marker_exists@.len() - k,
    {
        if marker_exists[k] {
            return true;
        }
        k = k + 1;
    }
    false
}

/// The project root for a search that starts at `start`: the nearest of
/// `start` and its ancestors (see `ancestors`) that is marked, where
/// `marked[k]` says whether the `k`-th of them holds a project marker, or
/// `start` itself where none does.
pub fn detect_project_root(start: &str, marked: &[bool]) -> (r: String)
    ensures
        exists|chain: Seq<Seq<char>>| is_ancestor_chain(start@, chain) && r@ == #[trigger] first_marked(chain, marked@, start@),
{
    let chain = ancestors(start);
    let ghost cv = str_views(chain@);
    let mut k: usize = 0;
    assert(cv.skip(0) =~= cv);
    assert(marked@.skip(0) =~= marked@);
    while k < chain.len()
        invariant
            k <= chain@.len(),
            cv == str_views(chain@),
            is_ancestor_chain(start@, cv),
            first_marked(cv, marked@, start@) == first_marked(cv.skip(k as int), if k <= marked@.len() { marked@.skip(k as int) } else { Seq::<bool>::empty() }, start@),
        decreases chain@.len() - k,
    {
        let ghost rest = cv.skip(k as int);
        let ghost mrest = if k <= marked@.len() { marked@.skip(k as int) } else { Seq::<bool>::empty() };
        if k < marked.len() && marked[k] {
            proof {
                assert(rest[0] == cv[k as int]);
                assert(mrest[0] == marked@[k as int]);
                assert(first_marked(rest, mrest, start@) == rest[0]);
            }
            let r = chain[k].clone();
            assert(r@ == first_marked(cv, marked@, start@));
            return r;
        }
        proof {
            assert(rest.drop_first() =~= cv.skip(k + 1));
            if k < marked@.len() {
                assert(mrest.drop_first() =~= marked@.skip(k + 1));
            } else {
                assert(mrest =~= Seq::<bool>::empty());
            }
        }
        k = k + 1;
    }
    proof {
        assert(cv.skip(k as int) =~= Seq::<Seq<char>>::empty());
    }
    let r = start.to_owned();
    assert(r@ == first_marked(cv, marked@, start@));
    r
}

/// There is one chain of ancestors of a path: a path has at most one parent.
pub proof fn lemma_ancestor_chain_unique(start: Seq<char>, a: Seq<Seq<char>>, b: Seq<Seq<char>>)
    requires
        is_ancestor_chain(start, a),
        is_ancestor_chain(start, b),
    ensures
        a == b,
{
    assert forall|k: int| 0 <= k < a.len() && k < b.len() implies a[k] == b[k] by {
        lemma_chains_agree(start, a, b, k);
    }
    if a.len() < b.len() {
        lemma_chains_agree(start, a, b, a.len() - 1);
        assert(path_parent(b[a.len() - 1]) == Some(b[a.len() as int]));
    } else if b.len() < a.len() {
        lemma_chains_agree(start, a, b, b.len() - 1);
        assert(path_parent(a[b.len() - 1]) == Some(a[b.len() as int]));
    }
    assert(a =~= b);
}

proof fn lemma_chains_agree(start: Seq<char>, a: Seq<Seq<char>>, b: Seq<Seq<char>>, k: int)
    requires
        is_ancestor_chain(start, a),
        is_ancestor_chain(start, b),
        0 <= k < a.len(),
        k < b.len(),
    ensures
        a[k] == b[k],
    decreases k,
{
    if k > 0 {
        lemma_chains_agree(start, a, b, k - 1);
        assert(path_parent(a[k - 1]) == Some(a[k]));
        assert(path_parent(b[k - 1]) == Some(b[k]));
    }
}

} // verus!
