//! Compiled matching for user-supplied path patterns.
//!
//! Patterns come from the configuration and are written by hand, so they are
//! normalised first: a plain path such as `src/legacy` means "this entry and
//! everything below it", while anything containing glob syntax is kept
//! verbatim. Matching is done against the path relative to the project root.

use vstd::prelude::*;
use crate::globs::{glob_compiles, glob_match, glob_matches, glob_valid};
use crate::paths::{relative_path, relative_to};
use crate::text::{
    chars_of, contains_char, lead_count, lemma_lead_count_unique, lemma_trail_count_unique,
    replace_char, replace_char_spec, slice_chars, split_char, split_on, str_views, string_of,
    trail_count, trim_end_by, trim_start_by, has_prefix,
};

verus! {

/// Selects `/`.
pub open spec fn slash_pred() -> spec_fn(char) -> bool {
    |c: char| c == '/'
}

/// `s` with every leading `./` removed.
pub open spec fn strip_dot_slash(s: Seq<char>) -> Seq<char>
    decreases s.len(),
{
    if has_prefix(s, seq!['.', '/']) {
        strip_dot_slash(s.skip(2))
    } else {
        s
    }
}

/// The path part of a pattern: separators normalised to `/`, leading and
/// trailing `/` removed, then leading `./` removed.
pub open spec fn pattern_path(raw: Seq<char>) -> Seq<char> {
    let n = replace_char_spec(raw, '\\', '/');
    strip_dot_slash(trim_end_by(trim_start_by(n, slash_pred()), slash_pred()))
}

/// Whether `p` holds glob syntax.
pub open spec fn is_glob(p: Seq<char>) -> bool {
    p.contains('*') || p.contains('?') || p.contains('[')
}

/// The globs that the pattern `raw` stands for: none where it is empty or
/// climbs out with `..`; itself where it is a glob (with `/**` appended where it
/// ends with a separator); otherwise the entry and everything below it, at any depth.
pub open spec fn expanded_globs(raw: Seq<char>) -> Seq<Seq<char>> {
    let n = replace_char_spec(raw, '\\', '/');
    let is_directory = n.len() > 0 && n.last() == '/';
    let p = pattern_path(raw);
    if p.len() == 0 || split_on(p, '/').contains(seq!['.', '.']) {
        Seq::empty()
    } else if is_glob(p) {
        if is_directory {
            seq![p + "/**"@]
        } else {
            seq![p]
        }
    } else {
        seq!["**/"@ + p + "/**"@, "**/"@ + p]
    }
}

/// `s` without its leading and trailing `/`.
fn trim_slashes(s: &[char]) -> (r: Vec<char>)
    ensures
        r@ == trim_end_by(trim_start_by(s@, slash_pred()), slash_pred()),
{
    let mut a: usize = 0;
    while a < s.len() && s[a] == '/'
        invariant
            a <= s@.len(),
            forall|j: int| 0 <= j < a ==> #[trigger] s@[j] == '/',
        decreases s@.len() - a,
    {
        a = a + 1;
    }
    let mut b = s.len();
    while b > a && s[b - 1] == '/'
        invariant
            a <= b <= s@.len(),
            forall|j: int| b <= j < s@.len() ==> #[trigger] s@[j] == '/',
        decreases b,
    {
        b = b - 1;
    }
    proof {
        lemma_lead_count_unique(s@, slash_pred(), a as int);
        let t = trim_start_by(s@, slash_pred());
        assert(t =~= s@.subrange(a as int, s@.len() as int));
        let k = s@.len() - b;
        assert forall|i: int| t.len() - k <= i < t.len() implies slash_pred()(#[trigger] t[i]) by {
            assert(t[i] == s@[a + i]);
        }
        if k < t.len() {
            assert(t[t.len() - k - 1] == s@[b - 1]);
        }
        lemma_trail_count_unique(t, slash_pred(), k);
    }
    let r = slice_chars(s, a, b);
    assert(r@ =~= trim_end_by(trim_start_by(s@, slash_pred()), slash_pred()));
    r
}

proof fn lemma_strip_dot_slash_step(t: Seq<char>)
    requires
        t.len() >= 2,
        t[0] == '.',
        t[1] == '/',
    ensures
        strip_dot_slash(t) == strip_dot_slash(t.skip(2)),
{
    assert(t.subrange(0, 2) =~= seq!['.', '/']);
}

proof fn lemma_strip_dot_slash_stop(t: Seq<char>)
    requires
        !(t.len() >= 2 && t[0] == '.' && t[1] == '/'),
    ensures
        strip_dot_slash(t) == t,
{
    if has_prefix(t, seq!['.', '/']) {
        assert(t.subrange(0, 2)[0] == t[0]);
        assert(t.subrange(0, 2)[1] == t[1]);
    }
}

/// `s` with every leading `./` removed.
fn strip_leading_dot_slash(s: &[char]) -> (r: Vec<char>)
    ensures
        r@ == strip_dot_slash(s@),
{
    let mut i: usize = 0;
    assert(s@.skip(0) =~= s@);
    while s.len() - i >= 2 && s[i] == '.' && s[i + 1] == '/'
        invariant
            i <= s@.len(),
            strip_dot_slash(s@) == strip_dot_slash(s@.skip(i as int)),
        decreases s@.len() - i,
    {
        proof {
            let t = s@.skip(i as int);
            lemma_strip_dot_slash_step(t);
            assert(t.skip(2) =~= s@.skip(i + 2));
        }
        i = i + 2;
    }
    proof {
        lemma_strip_dot_slash_stop(s@.skip(i as int));
    }
    let r = slice_chars(s, i, s.len());
    assert(r@ =~= s@.skip(i as int));
    r
}

/// Expands one user-written pattern into the globs it stands for; none for a
/// pattern that cannot be used (empty, or climbing out of the project with `..`).
pub fn expand_pattern(raw: &str) -> (r: Vec<String>)
    ensures
        str_views(r@) == expanded_globs(raw@),
{
    let cs = chars_of(raw);
    let normalized = replace_char(cs.as_slice(), '\\', '/');
    let is_directory = normalized.len() > 0 && normalized[normalized.len() - 1] == '/';
    let trimmed = trim_slashes(normalized.as_slice());
    let path = strip_leading_dot_slash(trimmed.as_slice());
    assert(path@ == pattern_path(raw@));
    let mut out: Vec<String> = Vec::new();
    if path.len() == 0 {
        assert(str_views(out@) =~= expanded_globs(raw@));
        return out;
    }
    let parts = split_char(path.as_slice(), '/');
    let ghost pv = parts@.map_values(|w: Vec<char>| w@);
    let mut k: usize = 0;
    while k < parts.len()
        invariant
            k <= parts@.len(),
            pv == parts@.map_values(|w: Vec<char>| w@),
            pv == split_on(path@, '/'),
            path@ == pattern_path(raw@),
            path@.len() > 0,
            out@.len() == 0,
            forall|j: int| 0 <= j < k ==> pv[j] != seq!['.', '.'],
        decreases parts@.len() - k,
    {
        let p = &parts[k];
        if p.len() == 2 && p[0] == '.' && p[1] == '.' {
            assert(pv[k as int] =~= seq!['.', '.']);
            assert(pv.contains(seq!['.', '.']));
            assert(str_views(out@) =~= expanded_globs(raw@));
            return out;
        }
        assert(pv[k as int] != seq!['.', '.']);
        k = k + 1;
    }
    assert(!pv.contains(seq!['.', '.']));
    let p = string_of(path.as_slice());
    proof {
        reveal_strlit("/**");
        reveal_strlit("**/");
    }
    if contains_char(path.as_slice(), '*') || contains_char(path.as_slice(), '?') || contains_char(path.as_slice(), '[') {
        if is_directory {
            let mut g = p;
            crate::text::append_str(&mut g, "/**");
            out.push(g);
        } else {
            out.push(p);
        }
    } else {
        let mut below = "**/".to_owned();
        crate::text::append_str(&mut below, p.as_str());
        crate::text::append_str(&mut below, "/**");
        let mut itself = "**/".to_owned();
        crate::text::append_str(&mut itself, p.as_str());
        out.push(below);
        out.push(itself);
    }
    assert(str_views(out@) =~= expanded_globs(raw@));
    out
}

/// The globs that compile, of those that `raws` expand to, in order.
pub open spec fn compiled_globs(raws: Seq<Seq<char>>) -> Seq<Seq<char>>
    decreases raws.len(),
{
    if raws.len() == 0 {
        Seq::empty()
    } else {
        compiled_globs(raws.drop_last()) + expanded_globs(raws.last()).filter(|g: Seq<char>| glob_valid(g))
    }
}

/// A set of path patterns, matched relative to a project root.
pub struct PathMatcher {
    root: String,
    patterns: Vec<String>,
}

impl PathMatcher {
    /// The project root.
    pub closed spec fn root_view(&self) -> Seq<char> {
        self.root@
    }

    /// The globs, each of which compiles.
    pub closed spec fn globs(&self) -> Seq<Seq<char>> {
        str_views(self.patterns@)
    }

    /// Compiles `raw_patterns`, skipping those that cannot be used and the
    /// globs that do not compile.
    pub fn new(root: &str, raw_patterns: &[String]) -> (r: Self)
        ensures
            r.root_view() == root@,
            r.globs() == compiled_globs(str_views(raw_patterns@)),
    {
        let ghost rv = str_views(raw_patterns@);
        let mut patterns: Vec<String> = Vec::new();
        let mut i: usize = 0;
        assert(rv.take(0) =~= Seq::<Seq<char>>::empty());
        while i < raw_patterns.len()
            invariant
                i <= raw_patterns@.len(),
                rv == str_views(raw_patterns@),
                str_views(patterns@) == compiled_globs(rv.take(i as int)),
            decreases raw_patterns@.len() - i,
        {
            let expanded = expand_pattern(raw_patterns[i].as_str());
            let ghost ev = str_views(expanded@);
            let ghost base = str_views(patterns@);
            let mut j: usize = 0;
            assert(ev.take(0).filter(|g: Seq<char>| glob_valid(g)) =~= Seq::<Seq<char>>::empty()) by {
                reveal(Seq::filter);
            }
            assert(base + Seq::<Seq<char>>::empty() =~= base);
            while j < expanded.len()
                invariant
                    j <= expanded@.len(),
                    ev == str_views(expanded@),
                    str_views(patterns@) == base + ev.take(j as int).filter(|g: Seq<char>| glob_valid(g)),
                decreases expanded@.len() - j,
            {
                let g = &expanded[j];
                proof {
                    assert(ev.take(j + 1) =~= ev.take(j as int).push(ev[j as int]));
                    reveal(Seq::filter);
                    assert(ev.take(j + 1).drop_last() =~= ev.take(j as int));
                }
                if glob_compiles(g.as_str()) {
                    let ghost before = str_views(patterns@);
                    patterns.push(g.clone());
                    assert(str_views(patterns@) =~= before.push(g@));
                    assert(str_views(patterns@) =~= base + ev.take(j + 1).filter(|g: Seq<char>| glob_valid(g)));
                } else {
                    assert(str_views(patterns@) =~= base + ev.take(j + 1).filter(|g: Seq<char>| glob_valid(g)));
                }
                j = j + 1;
            }
            proof {
                assert(ev.take(expanded@.len() as int) =~= ev);
                assert(rv.take(i + 1).drop_last() =~= rv.take(i as int));
                assert(rv.take(i + 1).last() == rv[i as int]);
            }
            i = i + 1;
        }
        assert(rv.take(raw_patterns@.len() as int) =~= rv);
        PathMatcher { root: root.to_owned(), patterns }
    }

    /// Whether no glob was kept.
    pub fn is_empty(&self) -> (r: bool)
        ensures
            r == (self.globs().len() == 0),
    {
        self.patterns.len() == 0
    }

    /// Whether `path`, taken relative to the root (as it is where it does not
    /// lie under it), matches one of the globs.
    pub fn matches(&self, path: &str) -> (r: bool)
        ensures
            r == exists|i: int|
                0 <= i < self.globs().len() && glob_matches(#[trigger] self.globs()[i], relative_to(path@, self.root_view())),
    {
        if self.patterns.len() == 0 {
            return false;
        }
        let relative = relative_path(path, self.root.as_str());
        let mut i: usize = 0;
        while i < self.patterns.len()
            invariant
                i <= self.patterns@.len(),
                relative@ == relative_to(path@, self.root@),
                forall|j: int| 0 <= j < i ==> !glob_matches(#[trigger] str_views(self.patterns@)[j], relative@),
            decreases self.patterns@.len() - i,
        {
            if glob_match(self.patterns[i].as_str(), relative.as_str()) {
                assert(glob_matches(self.globs()[i as int], relative@));
                return true;
            }
            i = i + 1;
        }
        false
    }
}

proof fn lemma_lead_count_cons(c: char, t: Seq<char>, p: spec_fn(char) -> bool)
    ensures
        p(c) ==> lead_count(seq![c] + t, p) == 1 + lead_count(t, p),
        !p(c) ==> lead_count(seq![c] + t, p) == 0,
{
    assert((seq![c] + t).drop_first() =~= t);
    assert((seq![c] + t)[0] == c);
}

proof fn lemma_lead_count_snoc(t: Seq<char>, c: char, p: spec_fn(char) -> bool)
    requires
        lead_count(t, p) < t.len(),
    ensures
        lead_count(t.push(c), p) == lead_count(t, p),
    decreases t.len(),
{
    assert(t.push(c)[0] == t[0]);
    if p(t[0]) {
        assert(t.push(c).drop_first() =~= t.drop_first().push(c));
        lemma_lead_count_snoc(t.drop_first(), c, p);
    }
}

proof fn lemma_trail_count_snoc(t: Seq<char>, c: char, p: spec_fn(char) -> bool)
    ensures
        p(c) ==> trail_count(t.push(c), p) == 1 + trail_count(t, p),
{
    assert(t.push(c).drop_last() =~= t);
}

proof fn lemma_trail_count_prefix(pre: Seq<char>, t: Seq<char>, p: spec_fn(char) -> bool)
    requires
        trail_count(t, p) < t.len(),
    ensures
        trail_count(pre + t, p) == trail_count(t, p),
    decreases t.len(),
{
    assert((pre + t).last() == t.last());
    if p(t.last()) {
        assert((pre + t).drop_last() =~= pre + t.drop_last());
        lemma_trail_count_prefix(pre, t.drop_last(), p);
    }
}

/// Backslashes in a pattern count as separators: a pattern gives the globs
/// that it gives with every `\` turned into `/`.
pub proof fn lemma_backslashes_normalized(raw: Seq<char>)
    ensures
        expanded_globs(raw) == expanded_globs(replace_char_spec(raw, '\\', '/')),
{
    let once = replace_char_spec(raw, '\\', '/');
    assert(replace_char_spec(once, '\\', '/') =~= once);
}

/// A leading separator does not change a pattern.
pub proof fn lemma_leading_slash_ignored(raw: Seq<char>)
    ensures
        expanded_globs(seq!['/'] + raw) == expanded_globs(raw),
{
    let n0 = replace_char_spec(raw, '\\', '/');
    let n1 = replace_char_spec(seq!['/'] + raw, '\\', '/');
    assert(n1 =~= seq!['/'] + n0);
    lemma_lead_count_cons('/', n0, slash_pred());
    crate::text::lemma_lead_count_bound(n0, slash_pred());
    assert(trim_start_by(n1, slash_pred()) =~= trim_start_by(n0, slash_pred()));
    assert(pattern_path(seq!['/'] + raw) == pattern_path(raw));
    if raw.len() > 0 {
        assert(n1.last() == n0.last());
    }
}

/// A trailing separator does not change a plain (non-glob) pattern.
pub proof fn lemma_trailing_slash_ignored_for_plain_paths(raw: Seq<char>)
    requires
        !is_glob(pattern_path(raw)),
    ensures
        expanded_globs(raw.push('/')) == expanded_globs(raw),
{
    let n0 = replace_char_spec(raw, '\\', '/');
    let n1 = replace_char_spec(raw.push('/'), '\\', '/');
    assert(n1 =~= n0.push('/'));
    crate::text::lemma_lead_count_bound(n0, slash_pred());
    crate::text::lemma_lead_count_bound(n1, slash_pred());
    if lead_count(n0, slash_pred()) < n0.len() {
        lemma_lead_count_snoc(n0, '/', slash_pred());
        let s0 = trim_start_by(n0, slash_pred());
        let s1 = trim_start_by(n1, slash_pred());
        assert(s1 =~= s0.push('/'));
        lemma_trail_count_snoc(s0, '/', slash_pred());
        crate::text::lemma_trail_count_bound(s0, slash_pred());
        assert(trim_end_by(s1, slash_pred()) =~= trim_end_by(s0, slash_pred()));
    } else {
        assert forall|i: int| 0 <= i < n1.len() implies slash_pred()(#[trigger] n1[i]) by {
            if i < n0.len() {
                assert(n1[i] == n0[i]);
            }
        }
        crate::text::lemma_lead_count_unique(n1, slash_pred(), n1.len() as int);
        assert(trim_start_by(n1, slash_pred()) =~= Seq::<char>::empty());
        assert(trim_start_by(n0, slash_pred()) =~= Seq::<char>::empty());
        assert(trim_end_by(Seq::<char>::empty(), slash_pred()) =~= Seq::<char>::empty());
    }
}

/// A leading `./` does not change a pattern that does not start with a separator.
pub proof fn lemma_leading_dot_slash_ignored(raw: Seq<char>)
    requires
        raw.len() > 0,
        raw[0] != '/',
        raw[0] != '\\',
    ensures
        expanded_globs(seq!['.', '/'] + raw) == expanded_globs(raw),
{
    let n0 = replace_char_spec(raw, '\\', '/');
    let n1 = replace_char_spec(seq!['.', '/'] + raw, '\\', '/');
    assert(n1 =~= seq!['.', '/'] + n0);
    assert(n0[0] != '/');
    lemma_lead_count_cons('.', seq!['/'] + n0, slash_pred());
    assert(seq!['.'] + (seq!['/'] + n0) =~= n1);
    lemma_lead_count_cons(n0[0], n0.drop_first(), slash_pred());
    assert(seq![n0[0]] + n0.drop_first() =~= n0);
    assert(trim_start_by(n1, slash_pred()) =~= n1);
    assert(trim_start_by(n0, slash_pred()) =~= n0);
    crate::text::lemma_trail_count_bound(n0, slash_pred());
    if trail_count(n0, slash_pred()) == n0.len() {
        assert(slash_pred()(n0[0]));
    }
    lemma_trail_count_prefix(seq!['.', '/'], n0, slash_pred());
    let e0 = trim_end_by(n0, slash_pred());
    assert(trim_end_by(n1, slash_pred()) =~= seq!['.', '/'] + e0);
    assert(has_prefix(seq!['.', '/'] + e0, seq!['.', '/'])) by {
        assert((seq!['.', '/'] + e0).subrange(0, 2) =~= seq!['.', '/']);
    }
    assert((seq!['.', '/'] + e0).skip(2) =~= e0);
    assert(n1.last() == n0.last());
}

} // verus!
