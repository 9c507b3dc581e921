//! Where an import specifier may point: the files to try, in order.
//!
//! The first of these candidates that is a file is what the import resolves
//! to; checking the file system is left to the caller.

use vstd::prelude::*;
use crate::error::AnalysisError;
use crate::paths::{join_path, parent_of, path_join, path_parent, path_with_extension, with_extension};
use crate::text::{append_str, chars_of, has_prefix, has_suffix, slice_chars, str_ends_with, str_starts_with, str_views, string_of, trim_end_by};

verus! {

/// Resolves import specifiers of a project against its root and path aliases.
pub struct PathResolver {
    root: String,
    aliases: Vec<(String, String)>,
    extensions: Vec<String>,
}

/// Selects `*`.
pub open spec fn star_pred() -> spec_fn(char) -> bool {
    |c: char| c == '*'
}

/// The files to try for `base`: itself; for `.js` and `.jsx`, the TypeScript
/// file of the same stem; `base` with each extension appended; the index file
/// of each extension inside `base`.
pub open spec fn file_candidates(base: Seq<char>, exts: Seq<Seq<char>>) -> Seq<Seq<char>> {
    let esm = if has_suffix(base, ".js"@) {
        seq![path_with_extension(base, "ts"@)]
    } else if has_suffix(base, ".jsx"@) {
        seq![path_with_extension(base, "tsx"@)]
    } else {
        Seq::empty()
    };
    seq![base] + esm + exts.map_values(|e: Seq<char>| base + seq!['.'] + e) + exts.map_values(
        |e: Seq<char>| path_join(base, "index."@ + e),
    )
}

/// The files tried for a path, in order: the path itself; for an ESM-style
/// import ending in `.js`, the path with its extension replaced by `ts`, and
/// for one ending in `.jsx`, by `tsx`; then the path with `.` and each
/// extension added, in the order of the extensions; then `index.` with each
/// extension, inside the path.
pub proof fn lemma_file_candidates_order(base: Seq<char>, exts: Seq<Seq<char>>)
    ensures
        file_candidates(base, exts)[0] == base,
        has_suffix(base, ".js"@) ==> file_candidates(base, exts)[1] == path_with_extension(base, "ts"@),
        has_suffix(base, ".jsx"@) ==> file_candidates(base, exts)[1] == path_with_extension(base, "tsx"@),
        ({
            let first = if has_suffix(base, ".js"@) || has_suffix(base, ".jsx"@) { 2int } else { 1int };
            &&& file_candidates(base, exts).len() == first + 2 * exts.len()
            &&& forall|i: int| 0 <= i < exts.len() ==> file_candidates(base, exts)[first + i] == base + seq!['.'] + #[trigger] exts[i]
            &&& forall|i: int| 0 <= i < exts.len() ==> file_candidates(base, exts)[first + exts.len() + i] == path_join(base, "index."@ + #[trigger] exts[i])
        }),
{
    reveal_strlit(".js");
    reveal_strlit(".jsx");
    if has_suffix(base, ".jsx"@) {
        let n = base.len() as int;
        assert(base[n - 1] == base.subrange(n - 4, n)[3]);
        assert(base[n - 1] == 'x');
        if has_suffix(base, ".js"@) {
            assert(base[n - 1] == base.subrange(n - 3, n)[2]);
        }
        assert(!has_suffix(base, ".js"@));
    }
}

/// The first alias whose pattern (without trailing `*`) starts `import`, as
/// the index of that alias.
pub open spec fn first_alias(aliases: Seq<(Seq<char>, Seq<char>)>, import: Seq<char>) -> Option<int>
    decreases aliases.len(),
{
    if aliases.len() == 0 {
        None
    } else {
        match first_alias(aliases.drop_last(), import) {
            Some(i) => Some(i),
            None => if has_prefix(import, trim_end_by(aliases.last().0, star_pred())) {
                Some(aliases.len() - 1)
            } else {
                None
            },
        }
    }
}

/// The files to try for a non-relative `import`: through the first matching
/// alias, then under the root, then under the root's `src`.
pub open spec fn bare_candidates(
    root: Seq<char>,
    aliases: Seq<(Seq<char>, Seq<char>)>,
    exts: Seq<Seq<char>>,
    import: Seq<char>,
) -> Seq<Seq<char>> {
    let via_alias = match first_alias(aliases, import) {
        Some(i) => {
            let prefix = trim_end_by(aliases[i].0, star_pred());
            let target = trim_end_by(aliases[i].1, star_pred());
            file_candidates(path_join(root, target + import.skip(prefix.len() as int)), exts)
        },
        None => Seq::empty(),
    };
    via_alias + file_candidates(path_join(root, import), exts) + file_candidates(
        path_join(path_join(root, "src"@), import),
        exts,
    )
}

/// The aliases as plain values.
pub open spec fn alias_views(a: Seq<(String, String)>) -> Seq<(Seq<char>, Seq<char>)> {
    a.map_values(|p: (String, String)| (p.0@, p.1@))
}

/// `s` without its trailing `*`s.
fn trim_stars(s: &str) -> (r: String)
    ensures
        r@ == trim_end_by(s@, star_pred()),
{
    let cs = chars_of(s);
    let mut b = cs.len();
    while b > 0 && cs[b - 1] == '*'
        invariant
            b <= cs@.len(),
            cs@ == s@,
            forall|j: int| b <= j < cs@.len() ==> #[trigger] cs@[j] == '*',
        decreases b,
    {
        b = b - 1;
    }
    proof {
        let k = cs@.len() - b;
        assert forall|i: int| cs@.len() - k <= i < cs@.len() implies star_pred()(#[trigger] cs@[i]) by {}
        crate::text::lemma_trail_count_unique(cs@, star_pred(), k);
    }
    let r = slice_chars(cs.as_slice(), 0, b);
    string_of(r.as_slice())
}

/// How `Debug` writes the path `path`: quoted, with its characters escaped as
/// the platform's path type escapes them. The rule is fixed for the platform
/// the library is built for, so the text is a function of the path; it is
/// named, not spelled out.
pub uninterp spec fn path_debug_text(path: Seq<char>) -> Seq<char>;

/// Wraps the `Debug` formatting of a path.
#[verifier::external_body]
fn path_debug(path: &str) -> (r: String)
    ensures
        r@ == path_debug_text(path@),
{
    format!("{:?}", std::path::Path::new(path))
}

/// The files tried for `import` from `from` by a resolver of the project at
/// `root` with `aliases` and `exts`; `None` where a relative import comes
/// from a path without a parent.
pub open spec fn candidates_outcome(
    root: Seq<char>,
    aliases: Seq<(Seq<char>, Seq<char>)>,
    exts: Seq<Seq<char>>,
    import: Seq<char>,
    from: Seq<char>,
) -> Option<Seq<Seq<char>>> {
    if import.len() > 0 && import[0] == '.' {
        match path_parent(from) {
            Some(dir) => Some(file_candidates(path_join(dir, import), exts)),
            None => None,
        }
    } else {
        Some(bare_candidates(root, aliases, exts, import))
    }
}

/// Two resolvers made with the same root, aliases and extensions try the
/// same files for every import: nothing else reaches a resolver.
pub proof fn lemma_resolution_depends_on_settings(a: PathResolver, b: PathResolver, import: Seq<char>, from: Seq<char>)
    requires
        a.root_view() == b.root_view(),
        a.aliases_view() == b.aliases_view(),
        a.extensions_view() == b.extensions_view(),
    ensures
        candidates_outcome(a.root_view(), a.aliases_view(), a.extensions_view(), import, from) == candidates_outcome(
            b.root_view(),
            b.aliases_view(),
            b.extensions_view(),
            import,
            from,
        ),
{
}

impl PathResolver {
    /// The project root.
    pub closed spec fn root_view(&self) -> Seq<char> {
        self.root@
    }

    /// The aliases, in order: pattern and target.
    pub closed spec fn aliases_view(&self) -> Seq<(Seq<char>, Seq<char>)> {
        alias_views(self.aliases@)
    }

    /// The extensions tried, in order.
    pub closed spec fn extensions_view(&self) -> Seq<Seq<char>> {
        str_views(self.extensions@)
    }

    /// A resolver for the project at `root`, with `aliases` (pattern and
    /// target) and the source `extensions` to try.
    pub fn new(root: &str, aliases: Vec<(String, String)>, extensions: Vec<String>) -> (r: Self)
        ensures
            r.root_view() == root@,
            r.aliases_view() == alias_views(aliases@),
            r.extensions_view() == str_views(extensions@),
    {
        PathResolver { root: root.to_owned(), aliases, extensions }
    }

    /// The files to try for `base`, in order.
    fn try_candidates(&self, base: &str, out: &mut Vec<String>)
        ensures
            str_views(final(out)@) == str_views(old(out)@) + file_candidates(base@, self.extensions_view()),
    {
        let ghost start = str_views(out@);
        let ghost ev = str_views(self.extensions@);
        out.push(base.to_owned());
        proof {
            reveal_strlit(".js");
            reveal_strlit(".jsx");
            reveal_strlit("index.");
            reveal_strlit("ts");
            reveal_strlit("tsx");
        }
        if str_ends_with(base, ".js") {
            out.push(with_extension(base, "ts"));
        } else if str_ends_with(base, ".jsx") {
            out.push(with_extension(base, "tsx"));
        }
        let ghost mid = str_views(out@);
        proof {
            let esm = if has_suffix(base@, ".js"@) {
                seq![path_with_extension(base@, "ts"@)]
            } else if has_suffix(base@, ".jsx"@) {
                seq![path_with_extension(base@, "tsx"@)]
            } else {
                Seq::empty()
            };
            assert(mid =~= start + seq![base@] + esm);
        }
        let mut i: usize = 0;
        while i < self.extensions.len()
            invariant
                i <= self.extensions@.len(),
                ev == str_views(self.extensions@),
                str_views(out@) == mid + ev.take(i as int).map_values(|e: Seq<char>| base@ + seq!['.'] + e),
            decreases self.extensions@.len() - i,
        {
            let mut p = base.to_owned();
            crate::text::push_char(&mut p, '.');
            append_str(&mut p, self.extensions[i].as_str());
            assert(p@ =~= base@ + seq!['.'] + ev[i as int]);
            let ghost before = str_views(out@);
            out.push(p);
            proof {
                assert(str_views(out@) =~= before.push(p@));
                assert(ev.take(i + 1).map_values(|e: Seq<char>| base@ + seq!['.'] + e) =~= ev.take(i as int).map_values(|e: Seq<char>| base@ + seq!['.'] + e).push(base@ + seq!['.'] + ev[i as int]));
            }
            i = i + 1;
        }
        let ghost mid2 = str_views(out@);
        let mut k: usize = 0;
        while k < self.extensions.len()
            invariant
                k <= self.extensions@.len(),
                ev == str_views(self.extensions@),
                str_views(out@) == mid2 + ev.take(k as int).map_values(|e: Seq<char>| path_join(base@, "index."@ + e)),
            decreases self.extensions@.len() - k,
        {
            let mut name = "index.".to_owned();
            append_str(&mut name, self.extensions[k].as_str());
            let p = join_path(base, name.as_str());
            let ghost before = str_views(out@);
            out.push(p);
            proof {
                assert(str_views(out@) =~= before.push(p@));
                assert(ev.take(k + 1).map_values(|e: Seq<char>| path_join(base@, "index."@ + e)) =~= ev.take(k as int).map_values(|e: Seq<char>| path_join(base@, "index."@ + e)).push(path_join(base@, "index."@ + ev[k as int])));
            }
            k = k + 1;
        }
        proof {
            assert(ev.take(ev.len() as int) =~= ev);
            assert(str_views(out@) =~= str_views(old(out)@) + file_candidates(base@, self.extensions_view()));
        }
    }

    /// The index of the first alias that applies to `import_path`, if any.
    fn find_alias(&self, import_path: &str) -> (r: Option<usize>)
        ensures
            match r {
                Some(i) => first_alias(self.aliases_view(), import_path@) == Some(i as int),
                None => first_alias(self.aliases_view(), import_path@) is None,
            },
    {
        let ghost av = self.aliases_view();
        let mut i: usize = 0;
        while i < self.aliases.len()
            invariant
                i <= self.aliases@.len(),
                av == alias_views(self.aliases@),
                first_alias(av.take(i as int), import_path@) is None,
            decreases self.aliases@.len() - i,
        {
            let prefix = trim_stars(self.aliases[i].0.as_str());
            proof {
                assert(av.take(i + 1).drop_last() =~= av.take(i as int));
            }
            if str_starts_with(import_path, prefix.as_str()) {
                proof {
                    lemma_first_alias_prefix(av, import_path@, i as int);
                }
                return Some(i);
            }
            i = i + 1;
        }
        assert(av.take(self.aliases@.len() as int) =~= av);
        None
    }

    /// The files to try for `import_path` imported from `from_file`, in the
    /// order in which the first existing one is taken. A relative import from
    /// a file without a parent directory is refused.
    pub fn resolution_candidates(&self, import_path: &str, from_file: &str) -> (r: Result<Vec<String>, AnalysisError>)
        ensures
            import_path@.len() > 0 && import_path@[0] == '.' ==> match path_parent(from_file@) {
                None => r is Err && r->Err_0 is PathResolution && r->Err_0->PathResolution_0@ == "Invalid file path: "@
                    + path_debug_text(from_file@),
                Some(dir) => r is Ok && str_views(r->Ok_0@) == file_candidates(path_join(dir, import_path@), self.extensions_view()),
            },
            !(import_path@.len() > 0 && import_path@[0] == '.') ==> r is Ok && str_views(r->Ok_0@) == bare_candidates(
                self.root_view(),
                self.aliases_view(),
                self.extensions_view(),
                import_path@,
            ),
            match r {
                Ok(v) => candidates_outcome(self.root_view(), self.aliases_view(), self.extensions_view(), import_path@, from_file@)
                    == Some(str_views(v@)),
                Err(_) => candidates_outcome(self.root_view(), self.aliases_view(), self.extensions_view(), import_path@, from_file@) is None,
            },
    {
        let mut out: Vec<String> = Vec::new();
        assert(str_views(out@) =~= Seq::<Seq<char>>::empty());
        if import_path.unicode_len() > 0 && import_path.get_char(0) == '.' {
            match parent_of(from_file) {
                Some(dir) => {
                    let base = join_path(dir.as_str(), import_path);
                    self.try_candidates(base.as_str(), &mut out);
                    assert(str_views(out@) =~= file_candidates(path_join(dir@, import_path@), self.extensions_view()));
                    return Ok(out);
                },
                None => {
                    let mut message = "Invalid file path: ".to_owned();
                    let shown = path_debug(from_file);
                    append_str(&mut message, shown.as_str());
                    return Err(AnalysisError::PathResolution(message));
                },
            }
        }
        let ghost av = self.aliases_view();
        match self.find_alias(import_path) {
            Some(i) => {
                proof {
                    lemma_first_alias_found(av, import_path@, i as int);
                }
                let prefix = trim_stars(self.aliases[i].0.as_str());
                let target = trim_stars(self.aliases[i].1.as_str());
                let ic = chars_of(import_path);
                let rest = slice_chars(ic.as_slice(), prefix.unicode_len(), ic.len());
                let mut relative = target.clone();
                let rest_s = string_of(rest.as_slice());
                append_str(&mut relative, rest_s.as_str());
                assert(relative@ =~= target@ + import_path@.skip(prefix@.len() as int));
                let base = join_path(self.root.as_str(), relative.as_str());
                self.try_candidates(base.as_str(), &mut out);
            },
            None => {},
        }
        let ghost after_alias = str_views(out@);
        let root_base = join_path(self.root.as_str(), import_path);
        self.try_candidates(root_base.as_str(), &mut out);
        let src_dir = join_path(self.root.as_str(), "src");
        let src_base = join_path(src_dir.as_str(), import_path);
        self.try_candidates(src_base.as_str(), &mut out);
        assert(str_views(out@) =~= bare_candidates(self.root_view(), self.aliases_view(), self.extensions_view(), import_path@));
        Ok(out)
    }
}

/// The alias at `i` applies where none before it does and its pattern starts `import`.
proof fn lemma_first_alias_prefix(aliases: Seq<(Seq<char>, Seq<char>)>, import: Seq<char>, i: int)
    requires
        0 <= i < aliases.len(),
        first_alias(aliases.take(i), import) is None,
        has_prefix(import, trim_end_by(aliases[i].0, star_pred())),
    ensures
        first_alias(aliases, import) == Some(i),
{
    lemma_first_alias_extend(aliases, import, i + 1);
    assert(aliases.take(i + 1).drop_last() =~= aliases.take(i));
    assert(first_alias(aliases.take(i + 1), import) == Some(i));
}

/// Once an alias applies in a prefix, it is the first one of the whole list.
proof fn lemma_first_alias_extend(aliases: Seq<(Seq<char>, Seq<char>)>, import: Seq<char>, n: int)
    requires
        0 <= n <= aliases.len(),
    ensures
        first_alias(aliases.take(n), import) is Some ==> first_alias(aliases, import) == first_alias(aliases.take(n), import),
    decreases aliases.len() - n,
{
    if n < aliases.len() {
        lemma_first_alias_extend(aliases, import, n + 1);
        assert(aliases.take(n + 1).drop_last() =~= aliases.take(n));
    } else {
        assert(aliases.take(n) =~= aliases);
    }
}

/// The first alias that applies does apply.
proof fn lemma_first_alias_found(aliases: Seq<(Seq<char>, Seq<char>)>, import: Seq<char>, i: int)
    requires
        first_alias(aliases, import) == Some(i),
    ensures
        0 <= i < aliases.len(),
        has_prefix(import, trim_end_by(aliases[i].0, star_pred())),
    decreases aliases.len(),
{
    if aliases.len() > 0 {
        match first_alias(aliases.drop_last(), import) {
            Some(j) => {
                lemma_first_alias_found(aliases.drop_last(), import, j);
            },
            None => {},
        }
    }
}

} // verus!
