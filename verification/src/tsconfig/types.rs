//! The parts of a `tsconfig.json` that the analysis reads, and how a
//! configuration is merged with the one it extends.

use vstd::prelude::*;
use crate::text::{str_eq, str_views};

verus! {

/// Whether some alias of `s` has key `k`.
pub open spec fn has_alias(s: Seq<(String, Vec<String>)>, k: Seq<char>) -> bool {
    exists|i: int| 0 <= i < s.len() && (#[trigger] s[i]).0@ == k
}

/// The map from alias pattern to target patterns that a list of entries stands for.
pub open spec fn alias_map(s: Seq<(String, Vec<String>)>) -> Map<Seq<char>, Seq<Seq<char>>> {
    Map::new(
        |k: Seq<char>| has_alias(s, k),
        |k: Seq<char>| str_views(s[choose|i: int| 0 <= i < s.len() && (#[trigger] s[i]).0@ == k].1@),
    )
}

/// No two entries of `s` share a key.
pub open spec fn alias_keys_unique(s: Seq<(String, Vec<String>)>) -> bool {
    forall|i: int, j: int| 0 <= i < j < s.len() ==> (#[trigger] s[i]).0@ != (#[trigger] s[j]).0@
}

proof fn lemma_alias_map_at(s: Seq<(String, Vec<String>)>, i: int)
    requires
        alias_keys_unique(s),
        0 <= i < s.len(),
    ensures
        alias_map(s).dom().contains(s[i].0@),
        alias_map(s)[s[i].0@] == str_views(s[i].1@),
{
    let k = s[i].0@;
    assert(has_alias(s, k));
    let j = choose|j: int| 0 <= j < s.len() && (#[trigger] s[j]).0@ == k;
    if j < i {
        assert(s[j].0@ != s[i].0@);
    } else if i < j {
        assert(s[i].0@ != s[j].0@);
    }
}

/// The `paths` of `compilerOptions`: alias patterns, each with its target patterns.
pub struct PathAliases {
    entries: Vec<(String, Vec<String>)>,
}

impl View for PathAliases {
    type V = Map<Seq<char>, Seq<Seq<char>>>;

    closed spec fn view(&self) -> Map<Seq<char>, Seq<Seq<char>>> {
        alias_map(self.entries@)
    }
}

impl PathAliases {
    /// Each alias is held once.
    pub closed spec fn wf(&self) -> bool {
        alias_keys_unique(self.entries@)
    }

    /// No alias.
    pub fn new() -> (r: Self)
        ensures
            r.wf(),
            r@ == Map::<Seq<char>, Seq<Seq<char>>>::empty(),
    {
        let r = PathAliases { entries: Vec::new() };
        assert(r@ =~= Map::<Seq<char>, Seq<Seq<char>>>::empty());
        r
    }

    fn find(&self, key: &str) -> (r: Option<usize>)
        ensures
            match r {
                Some(i) => i < self.entries@.len() && self.entries@[i as int].0@ == key@,
                None => !has_alias(self.entries@, key@),
            },
    {
        let mut i: usize = 0;
        while i < self.entries.len()
            invariant
                i <= self.entries@.len(),
                forall|j: int| 0 <= j < i ==> (#[trigger] self.entries@[j]).0@ != key@,
            decreases self.entries@.len() - i,
        {
            if str_eq(self.entries[i].0.as_str(), key) {
                return Some(i);
            }
            i = i + 1;
        }
        None
    }

    /// The targets of alias `key`, if it has one.
    pub fn get(&self, key: &str) -> (r: Option<&Vec<String>>)
        requires
            self.wf(),
        ensures
            match r {
                Some(v) => self@.dom().contains(key@) && str_views(v@) == self@[key@],
                None => !self@.dom().contains(key@),
            },
    {
        match self.find(key) {
            Some(i) => {
                proof {
                    lemma_alias_map_at(self.entries@, i as int);
                }
                Some(&self.entries[i].1)
            },
            None => None,
        }
    }

    /// Adds alias `key` with `targets`, unless it is there already.
    pub fn insert_if_absent(&mut self, key: String, targets: Vec<String>)
        requires
            old(self).wf(),
        ensures
            final(self).wf(),
            final(self)@ == (if old(self)@.dom().contains(key@) { old(self)@ } else { old(self)@.insert(
                key@,
                str_views(targets@),
            ) }),
    {
        let ghost s0 = self.entries@;
        match self.find(key.as_str()) {
            Some(i) => {
                assert(has_alias(s0, key@));
            },
            None => {
                let ghost k = key@;
                let ghost tv = str_views(targets@);
                self.entries.push((key, targets));
                proof {
                    let s1 = self.entries@;
                    assert forall|a: int, b: int| 0 <= a < b < s1.len() implies (#[trigger] s1[a]).0@
                        != (#[trigger] s1[b]).0@ by {
                        if b < s0.len() {
                            assert(s0[a].0@ != s0[b].0@);
                        } else {
                            assert(s1[a] == s0[a]);
                        }
                    }
                    assert forall|q: Seq<char>| #[trigger] has_alias(s1, q) == (has_alias(s0, q) || q == k) by {
                        if has_alias(s0, q) {
                            let j = choose|j: int| 0 <= j < s0.len() && (#[trigger] s0[j]).0@ == q;
                            assert(s1[j].0@ == q);
                        }
                        if has_alias(s1, q) {
                            let j = choose|j: int| 0 <= j < s1.len() && (#[trigger] s1[j]).0@ == q;
                            if j < s0.len() {
                                assert(s0[j].0@ == q);
                            }
                        }
                        if q == k {
                            assert(s1[s0.len() as int].0@ == q);
                        }
                    }
                    assert forall|q: Seq<char>| #[trigger] has_alias(s1, q) implies alias_map(s1)[q]
                        == alias_map(s0).insert(k, tv)[q] by {
                        let j = choose|j: int| 0 <= j < s1.len() && (#[trigger] s1[j]).0@ == q;
                        lemma_alias_map_at(s1, j);
                        if j < s0.len() {
                            lemma_alias_map_at(s0, j);
                        }
                    }
                    assert(self@ =~= alias_map(s0).insert(k, tv));
                }
            },
        }
    }

    /// The aliases, each once, in the order they were added.
    pub fn entries(&self) -> (r: &Vec<(String, Vec<String>)>)
        requires
            self.wf(),
        ensures
            alias_keys_unique(r@),
            alias_map(r@) == self@,
    {
        &self.entries
    }
}

/// The aliases of an optional `paths`, as a map.
pub open spec fn aliases_of(p: Option<PathAliases>) -> Option<Map<Seq<char>, Seq<Seq<char>>>> {
    match p {
        Some(a) => Some(a@),
        None => None,
    }
}

/// Whether an optional `paths` is well formed.
pub open spec fn aliases_wf(p: Option<PathAliases>) -> bool {
    match p {
        Some(a) => a.wf(),
        None => true,
    }
}

/// `mine`, with the aliases of `other` that it lacks added.
pub open spec fn merged_aliases(
    mine: Option<Map<Seq<char>, Seq<Seq<char>>>>,
    other: Option<Map<Seq<char>, Seq<Seq<char>>>>,
) -> Option<Map<Seq<char>, Seq<Seq<char>>>> {
    match other {
        None => mine,
        Some(o) => match mine {
            Some(m) => Some(o.union_prefer_right(m)),
            None => Some(o),
        },
    }
}

/// The `compilerOptions` section of a tsconfig file.
pub struct CompilerOptions {
    /// Path mapping aliases.
    pub paths: Option<PathAliases>,
    /// Base directory to resolve non-relative module names.
    pub base_url: Option<String>,
    /// Output directory for compiled files.
    pub out_dir: Option<String>,
    /// Root directory of source files.
    pub root_dir: Option<String>,
}

/// `mine` where it is set, else `other`.
pub open spec fn first_set(mine: Option<String>, other: Option<String>) -> Option<String> {
    if mine is Some { mine } else { other }
}

impl CompilerOptions {
    /// No option set.
    pub fn new() -> (r: Self)
        ensures
            r.paths is None,
            r.base_url is None,
            r.out_dir is None,
            r.root_dir is None,
    {
        CompilerOptions { paths: None, base_url: None, out_dir: None, root_dir: None }
    }

    /// Merges `other` into these options; what is set here takes precedence.
    pub fn merge(&mut self, other: CompilerOptions)
        requires
            aliases_wf(old(self).paths),
            aliases_wf(other.paths),
        ensures
            aliases_wf(final(self).paths),
            aliases_of(final(self).paths) == merged_aliases(aliases_of(old(self).paths), aliases_of(other.paths)),
            final(self).base_url == first_set(old(self).base_url, other.base_url),
            final(self).out_dir == first_set(old(self).out_dir, other.out_dir),
            final(self).root_dir == first_set(old(self).root_dir, other.root_dir),
    {
        let CompilerOptions { paths, base_url, out_dir, root_dir } = other;
        match paths {
            Some(other_paths) => {
                let mut mine = match self.paths.take() {
                    Some(p) => p,
                    None => PathAliases::new(),
                };
                let ghost m0 = mine@;
                let ghost o = other_paths@;
                let PathAliases { entries } = other_paths;
                let ghost es = entries@;
                let n: usize = entries.len();
                let mut i: usize = 0;
                let mut rest = entries;
                proof {
                    assert(alias_map(es.take(0)) =~= Map::<Seq<char>, Seq<Seq<char>>>::empty());
                    assert(alias_map(es.take(0)).union_prefer_right(m0) =~= m0);
                }
                while i < n
                    invariant
                        n == es.len(),
                        i <= es.len(),
                        alias_keys_unique(es),
                        alias_map(es) == o,
                        rest@.len() == es.len() - i,
                        forall|j: int| 0 <= j < rest@.len() ==> #[trigger] rest@[j] == es[i + j],
                        mine.wf(),
                        mine@ == alias_map(es.take(i as int)).union_prefer_right(m0),
                    decreases es.len() - i,
                {
                    let (k, v) = rest.remove(0);
                    let ghost e = es[i as int];
                    assert(k == e.0 && v == e.1);
                    mine.insert_if_absent(k, v);
                    proof {
                        let pre = es.take(i as int);
                        let nxt = es.take(i + 1);
                        assert(nxt =~= pre.push(e));
                        assert forall|a: int, b: int| 0 <= a < b < nxt.len() implies (#[trigger] nxt[a]).0@
                            != (#[trigger] nxt[b]).0@ by {
                            assert(es[a].0@ != es[b].0@);
                        }
                        assert forall|a: int, b: int| 0 <= a < b < pre.len() implies (#[trigger] pre[a]).0@
                            != (#[trigger] pre[b]).0@ by {
                            assert(es[a].0@ != es[b].0@);
                        }
                        assert(!has_alias(pre, e.0@)) by {
                            if has_alias(pre, e.0@) {
                                let j = choose|j: int| 0 <= j < pre.len() && (#[trigger] pre[j]).0@ == e.0@;
                                assert(es[j].0@ != es[i as int].0@);
                            }
                        }
                        assert forall|q: Seq<char>| #[trigger] has_alias(nxt, q) == (has_alias(pre, q) || q == e.0@) by {
                            if has_alias(pre, q) {
                                let j = choose|j: int| 0 <= j < pre.len() && (#[trigger] pre[j]).0@ == q;
                                assert(nxt[j].0@ == q);
                            }
                            if has_alias(nxt, q) {
                                let j = choose|j: int| 0 <= j < nxt.len() && (#[trigger] nxt[j]).0@ == q;
                                if j < pre.len() {
                                    assert(pre[j].0@ == q);
                                }
                            }
                            if q == e.0@ {
                                assert(nxt[pre.len() as int].0@ == q);
                            }
                        }
                        assert forall|q: Seq<char>| #[trigger] has_alias(nxt, q) implies alias_map(nxt)[q]
                            == alias_map(pre).insert(e.0@, str_views(e.1@))[q] by {
                            let j = choose|j: int| 0 <= j < nxt.len() && (#[trigger] nxt[j]).0@ == q;
                            lemma_alias_map_at(nxt, j);
                            if j < pre.len() {
                                lemma_alias_map_at(pre, j);
                            }
                        }
                        assert(alias_map(nxt) =~= alias_map(pre).insert(e.0@, str_views(e.1@)));
                        assert(mine@ =~= alias_map(nxt).union_prefer_right(m0));
                        assert forall|j: int| 0 <= j < rest@.len() implies #[trigger] rest@[j] == es[(i + 1) + j] by {
                        }
                    }
                    i = i + 1;
                }
                proof {
                    assert(es.take(es.len() as int) =~= es);
                }
                self.paths = Some(mine);
            },
            None => {},
        }
        if self.base_url.is_none() {
            self.base_url = base_url;
        }
        if self.out_dir.is_none() {
            self.out_dir = out_dir;
        }
        if self.root_dir.is_none() {
            self.root_dir = root_dir;
        }
    }
}

/// A TypeScript configuration file (`tsconfig.json`).
pub struct TsConfig {
    /// Compiler options section.
    pub compiler_options: Option<CompilerOptions>,
    /// Patterns to exclude from the project.
    pub exclude: Vec<String>,
    /// Path to a parent configuration file to extend.
    pub extends: Option<String>,
}

/// `mine` followed by each of `theirs` that is not among what comes before it.
pub open spec fn merged_excludes(mine: Seq<Seq<char>>, theirs: Seq<Seq<char>>) -> Seq<Seq<char>>
    decreases theirs.len(),
{
    if theirs.len() == 0 {
        mine
    } else {
        let prev = merged_excludes(mine, theirs.drop_last());
        if prev.contains(theirs.last()) {
            prev
        } else {
            prev.push(theirs.last())
        }
    }
}

/// Whether the compiler options, where present, are well formed.
pub open spec fn options_wf(o: Option<CompilerOptions>) -> bool {
    match o {
        Some(c) => aliases_wf(c.paths),
        None => true,
    }
}

impl TsConfig {
    /// Merges the configuration `parent` that this one extends into it; this
    /// configuration's values take precedence.
    pub fn merge_with_parent(self, parent: TsConfig) -> (r: TsConfig)
        requires
            options_wf(self.compiler_options),
            options_wf(parent.compiler_options),
        ensures
            options_wf(r.compiler_options),
            r.extends == self.extends,
            str_views(r.exclude@) == merged_excludes(str_views(self.exclude@), str_views(parent.exclude@)),
            match parent.compiler_options {
                None => r.compiler_options == self.compiler_options,
                Some(po) => r.compiler_options is Some && ({
                    let ro = r.compiler_options->0;
                    let (mp, mb, mo, mr) = match self.compiler_options {
                        Some(so) => (aliases_of(so.paths), so.base_url, so.out_dir, so.root_dir),
                        None => (None, None, None, None),
                    };
                    &&& aliases_of(ro.paths) == merged_aliases(mp, aliases_of(po.paths))
                    &&& ro.base_url == first_set(mb, po.base_url)
                    &&& ro.out_dir == first_set(mo, po.out_dir)
                    &&& ro.root_dir == first_set(mr, po.root_dir)
                }),
            },
    {
        let TsConfig { compiler_options, exclude, extends } = self;
        let TsConfig { compiler_options: parent_options, exclude: parent_exclude, extends: _ } = parent;
        let options = match parent_options {
            Some(po) => {
                let mut mine = match compiler_options {
                    Some(so) => so,
                    None => CompilerOptions::new(),
                };
                mine.merge(po);
                Some(mine)
            },
            None => compiler_options,
        };
        let mut merged = exclude;
        let ghost mine0 = str_views(merged@);
        let ghost theirs = str_views(parent_exclude@);
        let mut i: usize = 0;
        while i < parent_exclude.len()
            invariant
                i <= parent_exclude@.len(),
                theirs == str_views(parent_exclude@),
                str_views(merged@) == merged_excludes(mine0, theirs.take(i as int)),
            decreases parent_exclude@.len() - i,
        {
            let ex = &parent_exclude[i];
            proof {
                assert(theirs.take(i + 1).drop_last() =~= theirs.take(i as int));
                assert(theirs.take(i + 1).last() == ex@);
            }
            if !crate::text::list_contains(merged.as_slice(), ex.as_str()) {
                let ghost before = str_views(merged@);
                merged.push(ex.clone());
                assert(str_views(merged@) =~= before.push(ex@));
            } else {
                proof {
                    let j = choose|j: int| 0 <= j < merged@.len() && #[trigger] merged@[j]@ == ex@;
                    assert(str_views(merged@)[j] == ex@);
                }
            }
            proof {
                let prev = merged_excludes(mine0, theirs.take(i as int));
                if prev.contains(ex@) {
                    let j = choose|j: int| 0 <= j < prev.len() && prev[j] == ex@;
                    assert(merged@[j]@ == ex@);
                }
            }
            i = i + 1;
        }
        assert(theirs.take(parent_exclude@.len() as int) =~= theirs);
        TsConfig { compiler_options: options, exclude: merged, extends }
    }
}

/// In a merge, what the child sets wins: the merged aliases hold every alias
/// of both, each child alias with the child's targets.
pub proof fn lemma_child_aliases_win(
    mine: Map<Seq<char>, Seq<Seq<char>>>,
    theirs: Map<Seq<char>, Seq<Seq<char>>>,
    k: Seq<char>,
)
    ensures
        ({
            let m = merged_aliases(Some(mine), Some(theirs))->0;
            &&& m.dom() == mine.dom().union(theirs.dom())
            &&& mine.dom().contains(k) ==> m[k] == mine[k]
            &&& !mine.dom().contains(k) && theirs.dom().contains(k) ==> m[k] == theirs[k]
        }),
{
    let m = merged_aliases(Some(mine), Some(theirs))->0;
    assert(m.dom() =~= mine.dom().union(theirs.dom()));
}

/// Merging excludes keeps the child's list in front, adds each of the
/// parent's that is missing, and adds nothing else.
pub proof fn lemma_merged_excludes(mine: Seq<Seq<char>>, theirs: Seq<Seq<char>>, x: Seq<char>)
    ensures
        merged_excludes(mine, theirs).take(mine.len() as int) == mine,
        merged_excludes(mine, theirs).len() >= mine.len(),
        merged_excludes(mine, theirs).contains(x) == (mine.contains(x) || theirs.contains(x)),
    decreases theirs.len(),
{
    if theirs.len() == 0 {
        assert(mine.take(mine.len() as int) =~= mine);
    } else {
        let pt = theirs.drop_last();
        lemma_merged_excludes(mine, pt, x);
        lemma_merged_excludes(mine, pt, theirs.last());
        let prev = merged_excludes(mine, pt);
        crate::text::lemma_push_contains(pt, theirs.last(), x);
        assert(theirs =~= pt.push(theirs.last()));
        if !prev.contains(theirs.last()) {
            crate::text::lemma_push_contains(prev, theirs.last(), x);
            assert(prev.push(theirs.last()).take(mine.len() as int) =~= prev.take(mine.len() as int));
        }
    }
}

} // verus!
