//! Import classification and ignore-comment handling.
//!
//! Ignore comments are directives written in source comments:
//! `archlint-disable [rules]` opens a block, `archlint-enable [rules]` closes
//! it, `archlint-disable-line` and `archlint-disable-next-line` mark a single
//! line. Rules are a comma-separated list; no list means every rule (`*`).

use vstd::prelude::*;
use crate::text::{
    chars_of, has_prefix, has_suffix, join, join_chars, slice_chars, split_char, split_on,
    split_whitespace, split_ws, starts_with, ends_with, str_starts_with, string_of, trim,
    trim_chars, trim_start_by, trim_start_chars, ws_pred, lead_count, lemma_lead_count_unique,
};
use crate::text::{contains_char, lemma_push_contains, list_contains, str_eq, str_views};
use crate::error::AnalysisError;
use crate::parser::line_index::{LineIndex, line_number};
use crate::parser::ignore::{
    ActiveBlocks, IgnoredRules, IgnoreScan, all_rules, empty_scan, apply_directive, block_marks, close_blocks,
    entries_map, entry_marks, keys_unique, lemma_entries_map_at, lemma_entry_marks_all,
    line_marks, open_blocks, range_marks,
};

verus! {

/// Parses source files and classifies import specifiers.
pub struct ImportParser;

/// Whether `c` is one of the characters that decorate a comment (`/` or `*`).
pub open spec fn is_comment_decor(c: char) -> bool {
    c == '/' || c == '*'
}

/// Selects comment decoration characters.
pub open spec fn decor_pred() -> spec_fn(char) -> bool {
    |c: char| is_comment_decor(c)
}

/// `t` without a leading `//`, or without a leading `/*` and (if present) a trailing `*/`.
pub open spec fn strip_comment_markers(t: Seq<char>) -> Seq<char> {
    if has_prefix(t, seq!['/', '/']) {
        t.skip(2)
    } else if has_prefix(t, seq!['/', '*']) {
        let s = t.skip(2);
        if has_suffix(s, seq!['*', '/']) {
            s.take(s.len() - 2)
        } else {
            s
        }
    } else {
        t
    }
}

/// The text of a comment line that a directive is read from: trimmed, comment
/// markers removed, then leading `/` and `*` and whitespace removed.
pub open spec fn directive_text(text: Seq<char>) -> Seq<char> {
    trim_start_by(
        trim_start_by(trim(strip_comment_markers(trim(text))), decor_pred()),
        ws_pred(),
    )
}

/// The first whitespace-separated word of `s`, or empty.
pub open spec fn first_word(s: Seq<char>) -> Seq<char> {
    let w = split_ws(s);
    if w.len() > 0 {
        w[0]
    } else {
        Seq::empty()
    }
}

/// The non-empty first words of `chunks`, in order.
pub open spec fn rule_words(chunks: Seq<Seq<char>>) -> Seq<Seq<char>>
    decreases chunks.len(),
{
    if chunks.len() == 0 {
        Seq::empty()
    } else {
        let r = rule_words(chunks.drop_last());
        let w = first_word(chunks.last());
        if w.len() > 0 {
            r.push(w)
        } else {
            r
        }
    }
}

/// The rules named after the command word `parts[0]`: the words after it are
/// joined with spaces and split at commas, and the first word of each piece
/// is a rule. With none, every rule (`*`).
pub open spec fn directive_rules(parts: Seq<Seq<char>>) -> Seq<Seq<char>> {
    let found = if parts.len() > 1 {
        rule_words(split_on(join(parts.skip(1), seq![' ']), ','))
    } else {
        Seq::empty()
    };
    if found.len() == 0 {
        seq![seq!['*']]
    } else {
        found
    }
}

/// The directive that a comment line holds: its command word and its rules,
/// or `None` where the line does not start with `archlint-disable` or
/// `archlint-enable`.
pub open spec fn ignore_directive(text: Seq<char>) -> Option<(Seq<char>, Seq<Seq<char>>)> {
    let t = directive_text(text);
    if !has_prefix(t, "archlint-disable"@) && !has_prefix(t, "archlint-enable"@) {
        None
    } else {
        let parts = split_ws(t);
        if parts.len() == 0 {
            None
        } else {
            Some((parts[0], directive_rules(parts)))
        }
    }
}

/// `str::trim_start_matches(['/', '*'])`.
fn trim_start_decor(s: &[char]) -> (r: Vec<char>)
    ensures
        r@ == trim_start_by(s@, decor_pred()),
{
    let mut i: usize = 0;
    while i < s.len() && (s[i] == '/' || s[i] == '*')
        invariant
            i <= s@.len(),
            forall|j: int| 0 <= j < i ==> is_comment_decor(#[trigger] s@[j]),
        decreases s@.len() - i,
    {
        i = i + 1;
    }
    proof {
        lemma_lead_count_unique(s@, decor_pred(), i as int);
    }
    slice_chars(s, i, s.len())
}

/// Removes the comment markers around a trimmed comment line.
fn strip_markers(t: &[char]) -> (r: Vec<char>)
    ensures
        r@ == strip_comment_markers(t@),
{
    let line_open = vec!['/', '/'];
    let block_open = vec!['/', '*'];
    let block_close = vec!['*', '/'];
    assert(line_open@ =~= seq!['/', '/']);
    assert(block_open@ =~= seq!['/', '*']);
    assert(block_close@ =~= seq!['*', '/']);
    if starts_with(t, line_open.as_slice()) {
        slice_chars(t, 2, t.len())
    } else if starts_with(t, block_open.as_slice()) {
        let s = slice_chars(t, 2, t.len());
        assert(s@ =~= t@.skip(2));
        if ends_with(s.as_slice(), block_close.as_slice()) {
            let r = slice_chars(s.as_slice(), 0, s.len() - 2);
            assert(r@ =~= s@.take(s@.len() - 2));
            r
        } else {
            s
        }
    } else {
        let r = slice_chars(t, 0, t.len());
        assert(r@ =~= t@);
        r
    }
}

/// The first words of `chunks` that are not empty.
fn collect_rule_words(chunks: &Vec<Vec<char>>) -> (r: Vec<String>)
    ensures
        r@.map_values(|w: String| w@) == rule_words(chunks@.map_values(|c: Vec<char>| c@)),
{
    let ghost cv = chunks@.map_values(|c: Vec<char>| c@);
    let mut r: Vec<String> = Vec::new();
    let mut i: usize = 0;
    while i < chunks.len()
        invariant
            i <= chunks@.len(),
            cv == chunks@.map_values(|c: Vec<char>| c@),
            r@.map_values(|w: String| w@) == rule_words(cv.subrange(0, i as int)),
        decreases chunks@.len() - i,
    {
        let words = split_whitespace(chunks[i].as_slice());
        let ghost pre = cv.subrange(0, i as int);
        proof {
            assert(cv.subrange(0, i + 1).drop_last() =~= pre);
            assert(cv.subrange(0, i + 1).last() == chunks@[i as int]@);
        }
        if words.len() > 0 {
            let w = string_of(words[0].as_slice());
            if w.unicode_len() > 0 {
                let ghost before = r@.map_values(|w: String| w@);
                r.push(w);
                assert(r@.map_values(|w: String| w@) =~= before.push(w@));
            }
        }
        i = i + 1;
    }
    assert(cv.subrange(0, chunks@.len() as int) =~= cv);
    r
}

/// `str::lines`: the pieces of `t` between `'\n'`s, without an empty last
/// piece, each piece that a `'\n'` follows stripped of one trailing `'\r'`.
pub open spec fn text_lines(t: Seq<char>) -> Seq<Seq<char>> {
    let pieces = split_on(t, '\n');
    let kept = if pieces.last().len() == 0 { pieces.drop_last() } else { pieces };
    Seq::new(
        kept.len(),
        |i: int|
            if i < pieces.len() - 1 && has_suffix(kept[i], seq!['\r']) {
                kept[i].drop_last()
            } else {
                kept[i]
            },
    )
}

/// The directives of `lines`, the first of which is on line `base`, applied in order.
pub open spec fn apply_line_directives(st: IgnoreScan, lines: Seq<Seq<char>>, base: int) -> IgnoreScan
    decreases lines.len(),
{
    if lines.len() == 0 {
        st
    } else {
        let prev = apply_line_directives(st, lines.drop_last(), base);
        let line = base + lines.len() - 1;
        match ignore_directive(lines.last()) {
            Some(d) => if line <= usize::MAX {
                apply_directive(prev, d.0, d.1, line as usize)
            } else {
                prev
            },
            None => prev,
        }
    }
}

/// The directives of a comment with text `text` that starts on line `line`:
/// one per line of a comment that spans lines, else at most one.
pub open spec fn apply_comment(st: IgnoreScan, text: Seq<char>, line: usize) -> IgnoreScan {
    if text.contains('\n') {
        apply_line_directives(st, text_lines(text), line as int)
    } else {
        match ignore_directive(text) {
            Some(d) => apply_directive(st, d.0, d.1, line),
            None => st,
        }
    }
}

/// The directives of `comments` (text and start offset), in order, where
/// `starts` are the line starts of the source.
pub open spec fn apply_comments(st: IgnoreScan, comments: Seq<(Seq<char>, u32)>, starts: Seq<int>) -> IgnoreScan
    decreases comments.len(),
{
    if comments.len() == 0 {
        st
    } else {
        let c = comments.last();
        apply_comment(apply_comments(st, comments.drop_last(), starts), c.0, line_number(starts, c.1 as int) as usize)
    }
}

/// The (line, rule) pairs that the ignore comments of a source mark.
pub open spec fn ignored_lines(comments: Seq<(Seq<char>, u32)>, starts: Seq<int>) -> Set<(usize, Seq<char>)> {
    close_blocks(apply_comments(empty_scan(), comments, starts), starts.len() as usize)
}

/// A comment of a source: where it starts (a byte offset) and its text.
pub struct SourceComment {
    pub start: u32,
    pub text: String,
}

/// The text and start of each comment.
pub open spec fn comment_views(cs: Seq<SourceComment>) -> Seq<(Seq<char>, u32)> {
    cs.map_values(|c: SourceComment| (c.text@, c.start))
}

/// `str::lines`.
fn split_lines(t: &[char]) -> (r: Vec<Vec<char>>)
    ensures
        r@.map_values(|w: Vec<char>| w@) == text_lines(t@),
{
    let pieces = split_char(t, '\n');
    let ghost pv = pieces@.map_values(|w: Vec<char>| w@);
    let n = pieces.len();
    assert(pv.len() >= 1);
    let keep = if pieces[n - 1].len() == 0 { n - 1 } else { n };
    let ghost kept = if pv.last().len() == 0 { pv.drop_last() } else { pv };
    assert(kept.len() == keep);
    let mut out: Vec<Vec<char>> = Vec::new();
    let mut i: usize = 0;
    while i < keep
        invariant
            i <= keep,
            keep == kept.len(),
            keep <= n,
            n == pieces@.len(),
            pv == pieces@.map_values(|w: Vec<char>| w@),
            pv == split_on(t@, '\n'),
            kept == (if pv.last().len() == 0 { pv.drop_last() } else { pv }),
            out@.len() == i,
            forall|j: int| 0 <= j < i ==> (#[trigger] out@[j])@ == text_lines(t@)[j],
        decreases keep - i,
    {
        let p = &pieces[i];
        let len = p.len();
        assert(kept[i as int] == p@);
        let strip = i + 1 < n && len > 0 && p[len - 1] == '\r';
        proof {
            let cr = seq!['\r'];
            if len > 0 {
                if has_suffix(p@, cr) {
                    assert(p@.subrange(len - 1, len as int)[0] == p@[len - 1]);
                }
                if p@[len - 1] == '\r' {
                    assert(p@.subrange(len - 1, len as int) =~= cr);
                }
            }
        }
        let line = if strip { slice_chars(p.as_slice(), 0, len - 1) } else { slice_chars(p.as_slice(), 0, len) };
        proof {
            if strip {
                assert(line@ =~= p@.drop_last());
            } else {
                assert(line@ =~= p@);
            }
        }
        out.push(line);
        i = i + 1;
    }
    assert(out@.map_values(|w: Vec<char>| w@) =~= text_lines(t@));
    out
}

/// Line 0 marked for `*` where one of the first `n` entries of `s` is a `*`
/// block opened on line 0 or 1.
pub open spec fn star_marks(s: Seq<(String, usize)>, n: int) -> Set<(usize, Seq<char>)> {
    Set::new(
        |p: (usize, Seq<char>)|
            p == (0usize, all_rules()) && exists|k: int|
                0 <= k < n && (#[trigger] s[k]).0@ == all_rules() && s[k].1 <= 1,
    )
}

impl ImportParser {
    /// A parser. Making one cannot fail.
    pub fn new() -> (r: Result<Self, AnalysisError>)
        ensures
            r is Ok,
    {
        Ok(ImportParser)
    }

    /// Whether `import` is relative: it starts with `./` or `../`.
    pub fn is_relative_import(import: &str) -> (r: bool)
        ensures
            r == (has_prefix(import@, "./"@) || has_prefix(import@, "../"@)),
    {
        str_starts_with(import, "./") || str_starts_with(import, "../")
    }

    /// Whether `import` goes through a path alias: it starts with `@` or `~`.
    pub fn is_alias_import(import: &str) -> (r: bool)
        ensures
            r == (import@.len() > 0 && (import@[0] == '@' || import@[0] == '~')),
    {
        if import.unicode_len() == 0 {
            false
        } else {
            let c = import.get_char(0);
            c == '@' || c == '~'
        }
    }

    /// Reads an ignore directive from one comment line: the command word and
    /// the rules it names (`*` for all).
    pub fn parse_ignore_command(&self, text: &str) -> (r: Option<(String, Vec<String>)>)
        ensures
            match ignore_directive(text@) {
                None => r is None,
                Some(d) => match r {
                    Some(found) => found.0@ == d.0 && found.1@.map_values(|w: String| w@) == d.1,
                    None => false,
                },
            },
    {
        let cs = chars_of(text);
        let t1 = trim_chars(cs.as_slice());
        let t2 = strip_markers(t1.as_slice());
        let t3 = trim_chars(t2.as_slice());
        let t4 = trim_start_decor(t3.as_slice());
        let t = trim_start_chars(t4.as_slice());
        assert(t@ == directive_text(text@));
        let disable = chars_of("archlint-disable");
        let enable = chars_of("archlint-enable");
        let is_disable = starts_with(t.as_slice(), disable.as_slice());
        let is_enable = starts_with(t.as_slice(), enable.as_slice());
        if !is_disable && !is_enable {
            return None;
        }
        let parts = split_whitespace(t.as_slice());
        let ghost pv = parts@.map_values(|w: Vec<char>| w@);
        if parts.len() == 0 {
            return None;
        }
        let command = string_of(parts[0].as_slice());
        let mut rules: Vec<String> = Vec::new();
        if parts.len() > 1 {
            let rest = vstd::slice::slice_subrange(parts.as_slice(), 1, parts.len());
            let space = vec![' '];
            let joined = join_chars(rest, space.as_slice());
            proof {
                assert(rest@.map_values(|w: Vec<char>| w@) =~= pv.skip(1));
                assert(space@ =~= seq![' ']);
            }
            let chunks = split_char(joined.as_slice(), ',');
            rules = collect_rule_words(&chunks);
        }
        if rules.len() == 0 {
            let star = "*".to_owned();
            proof {
                reveal_strlit("*");
                assert(star@ =~= seq!['*']);
            }
            let ghost before = rules@;
            rules.push(star);
            assert(rules@ =~= before.push(star));
            assert(before.len() == 0);
            assert(rules@.map_values(|w: String| w@) =~= seq![seq!['*']]);
        }
        Some((command, rules))
    }

    /// Acts on one directive: `command` with `rules`, read on `line`.
    pub fn process_ignore_command(
        &self,
        command: &String,
        rules: &Vec<String>,
        line: usize,
        active: &mut ActiveBlocks,
        ignored: &mut IgnoredRules,
    )
        requires
            old(active).wf(),
        ensures
            final(active).wf(),
            (IgnoreScan { active: final(active)@, ignored: final(ignored)@ }) == apply_directive(
                IgnoreScan { active: old(active)@, ignored: old(ignored)@ },
                command@,
                str_views(rules@),
                line,
            ),
    {
        if str_eq(command.as_str(), "archlint-disable") {
            self.handle_disable(rules, line, active);
        } else if str_eq(command.as_str(), "archlint-enable") {
            self.handle_enable(rules, line, active, ignored);
        } else if str_eq(command.as_str(), "archlint-disable-line") {
            self.mark_line(rules, line, ignored);
        } else if str_eq(command.as_str(), "archlint-disable-next-line") {
            if line < usize::MAX {
                self.mark_line(rules, line + 1, ignored);
            }
        }
    }

    /// Marks `line` for each of `rules`.
    fn mark_line(&self, rules: &Vec<String>, line: usize, ignored: &mut IgnoredRules)
        ensures
            final(ignored)@ == old(ignored)@ + line_marks(str_views(rules@), line),
    {
        let ghost rv = str_views(rules@);
        let mut i: usize = 0;
        while i < rules.len()
            invariant
                i <= rules@.len(),
                rv == str_views(rules@),
                ignored@ == old(ignored)@ + line_marks(rv.take(i as int), line),
            decreases rules@.len() - i,
        {
            proof {
                assert(old(ignored)@ + line_marks(rv.take(0), line) =~= old(ignored)@);
            }
            ignored.insert(line, &rules[i]);
            proof {
                assert(rv.take(i + 1) =~= rv.take(i as int).push(rules@[i as int]@));
                assert forall|q: Seq<char>| #[trigger] rv.take(i + 1).contains(q) == (rv.take(i as int).contains(q) || q == rules@[i as int]@) by {
                    lemma_push_contains(rv.take(i as int), rules@[i as int]@, q);
                }
                assert(line_marks(rv.take(i + 1), line) =~= line_marks(rv.take(i as int), line).insert((line, rules@[i as int]@)));
                assert(ignored@ =~= old(ignored)@ + line_marks(rv.take(i + 1), line));
            }
            i = i + 1;
        }
        assert(rv.take(rules@.len() as int) =~= rv);
    }

    /// Opens a block for each of `rules` at `line`.
    fn handle_disable(&self, rules: &Vec<String>, line: usize, active: &mut ActiveBlocks)
        requires
            old(active).wf(),
        ensures
            final(active).wf(),
            final(active)@ == open_blocks(old(active)@, str_views(rules@), line),
    {
        let ghost rv = str_views(rules@);
        assert(open_blocks(old(active)@, rv.take(0), line) =~= old(active)@);
        let mut i: usize = 0;
        while i < rules.len()
            invariant
                i <= rules@.len(),
                rv == str_views(rules@),
                active.wf(),
                active@ == open_blocks(old(active)@, rv.take(i as int), line),
            decreases rules@.len() - i,
        {
            active.open(&rules[i], line);
            proof {
                assert(rv.take(i + 1) =~= rv.take(i as int).push(rules@[i as int]@));
                assert forall|q: Seq<char>| #[trigger] rv.take(i + 1).contains(q) == (rv.take(i as int).contains(q) || q == rules@[i as int]@) by {
                    lemma_push_contains(rv.take(i as int), rules@[i as int]@, q);
                }
                assert(active@ =~= open_blocks(old(active)@, rv.take(i + 1), line));
            }
            i = i + 1;
        }
        assert(rv.take(rules@.len() as int) =~= rv);
    }

    /// Closes the blocks of `rules` (all blocks where `*` is among them) at
    /// `line`, marking their lines.
    fn handle_enable(&self, rules: &Vec<String>, line: usize, active: &mut ActiveBlocks, ignored: &mut IgnoredRules)
        requires
            old(active).wf(),
        ensures
            final(active).wf(),
            ({
                let rv = str_views(rules@);
                let to_close = if rv.contains(all_rules()) { old(active)@.dom() } else { rv.to_set() };
                &&& final(active)@ == old(active)@.remove_keys(to_close)
                &&& final(ignored)@ == old(ignored)@ + block_marks(old(active)@, to_close, line)
            }),
    {
        let ghost rv = str_views(rules@);
        let star_listed = list_contains(rules.as_slice(), "*");
        proof {
            reveal_strlit("*");
            assert("*"@ =~= all_rules());
            if star_listed {
                let j = choose|j: int| 0 <= j < rules@.len() && #[trigger] rules@[j]@ == "*"@;
                assert(rv[j] == all_rules());
            }
            if rv.contains(all_rules()) {
                let j = choose|j: int| 0 <= j < rv.len() && rv[j] == all_rules();
                assert(rules@[j]@ == "*"@);
            }
        }
        if star_listed {
            let entries = active.entries();
            let ghost es = entries@;
            let mut j: usize = 0;
            assert(entry_marks(es, 0, line) =~= Set::empty());
            assert(old(ignored)@ + entry_marks(es, 0, line) =~= old(ignored)@);
            while j < entries.len()
                invariant
                    j <= es.len(),
                    es == entries@,
                    ignored@ == old(ignored)@ + entry_marks(es, j as int, line),
                decreases es.len() - j,
            {
                self.mark_range_ignored(ignored, entries[j].1, line, &entries[j].0);
                proof {
                    assert(entry_marks(es, j + 1, line) =~= entry_marks(es, j as int, line) + range_marks(es[j as int].0@, es[j as int].1, line));
                    assert(ignored@ =~= old(ignored)@ + entry_marks(es, j + 1, line));
                }
                j = j + 1;
            }
            proof {
                lemma_entry_marks_all(es, line);
                let m = old(active)@;
                assert(block_marks(m, m.dom(), line) =~= block_marks(m, m.dom(), line));
            }
            *active = ActiveBlocks::new();
            assert(active@ =~= old(active)@.remove_keys(old(active)@.dom()));
        } else {
            let ghost a0 = old(active)@;
            let mut i: usize = 0;
            assert(a0.remove_keys(rv.take(0).to_set()) =~= a0);
            assert(block_marks(a0, rv.take(0).to_set(), line) =~= Set::empty());
            assert(old(ignored)@ + Set::empty() =~= old(ignored)@);
            while i < rules.len()
                invariant
                    i <= rules@.len(),
                    rv == str_views(rules@),
                    a0 == old(active)@,
                    active.wf(),
                    active@ == a0.remove_keys(rv.take(i as int).to_set()),
                    ignored@ == old(ignored)@ + block_marks(a0, rv.take(i as int).to_set(), line),
                decreases rules@.len() - i,
            {
                let ghost pre = rv.take(i as int).to_set();
                let ghost nxt = rv.take(i + 1).to_set();
                proof {
                    assert(rv.take(i + 1) =~= rv.take(i as int).push(rv[i as int]));
                    rv.take(i as int).lemma_push_to_set_commute(rv[i as int]);
                    assert(nxt =~= pre.insert(rv[i as int]));
                }
                let r = &rules[i];
                match active.take(r.as_str()) {
                    Some(start) => {
                        self.mark_range_ignored(ignored, start, line, r);
                        proof {
                            assert(!pre.contains(rv[i as int]));
                            assert(a0[rv[i as int]] == start);
                            assert(block_marks(a0, nxt, line) =~= block_marks(a0, pre, line) + range_marks(rv[i as int], start, line));
                            assert(ignored@ =~= old(ignored)@ + block_marks(a0, nxt, line));
                        }
                    },
                    None => {
                        proof {
                            assert(block_marks(a0, nxt, line) =~= block_marks(a0, pre, line));
                        }
                    },
                }
                proof {
                    assert(active@ =~= a0.remove_keys(nxt));
                }
                i = i + 1;
            }
            assert(rv.take(rules@.len() as int) =~= rv);
        }
    }

    /// Closes every block still open at `total_lines`; a `*` block opened on
    /// line 0 or 1 also marks line 0.
    pub fn close_remaining_blocks(&self, active: ActiveBlocks, total_lines: usize, ignored: &mut IgnoredRules)
        requires
            active.wf(),
        ensures
            final(ignored)@ == close_blocks(IgnoreScan { active: active@, ignored: old(ignored)@ }, total_lines),
    {
        let entries = active.entries();
        let ghost es = entries@;
        let ghost m = active@;
        let mut j: usize = 0;
        proof {
            reveal_strlit("*");
        }
        assert(old(ignored)@ + entry_marks(es, 0, total_lines) + star_marks(es, 0) =~= old(ignored)@);
        while j < entries.len()
            invariant
                j <= es.len(),
                es == entries@,
                ignored@ == old(ignored)@ + entry_marks(es, j as int, total_lines) + star_marks(es, j as int),
            decreases es.len() - j,
        {
            let ghost before = ignored@;
            let rule = &entries[j].0;
            let start = entries[j].1;
            let is_star = str_eq(rule.as_str(), "*");
            if is_star && start <= 1 {
                ignored.insert(0, rule);
            }
            self.mark_range_ignored(ignored, start, total_lines, rule);
            proof {
                reveal_strlit("*");
                assert("*"@ =~= all_rules());
                assert(entry_marks(es, j + 1, total_lines) =~= entry_marks(es, j as int, total_lines) + range_marks(es[j as int].0@, start, total_lines));
                if is_star && start <= 1 {
                    assert(es[j as int].0@ == all_rules());
                    assert(star_marks(es, j + 1).contains((0usize, all_rules())));
                    assert(star_marks(es, j + 1) =~= star_marks(es, j as int).insert((0usize, all_rules())));
                    assert(ignored@ =~= before.insert((0usize, all_rules())) + range_marks(es[j as int].0@, start, total_lines));
                } else {
                    assert(star_marks(es, j + 1) =~= star_marks(es, j as int));
                    assert(ignored@ =~= before + range_marks(es[j as int].0@, start, total_lines));
                }
                assert(ignored@ =~= old(ignored)@ + entry_marks(es, j + 1, total_lines) + star_marks(es, j + 1));
            }
            j = j + 1;
        }
        proof {
            lemma_entry_marks_all(es, total_lines);
            let extra = if m.dom().contains(all_rules()) && m[all_rules()] <= 1 {
                set![(0usize, all_rules())]
            } else {
                Set::empty()
            };
            assert forall|p: (usize, Seq<char>)| #[trigger] star_marks(es, es.len() as int).contains(p) == extra.contains(p) by {
                if star_marks(es, es.len() as int).contains(p) {
                    let k = choose|k: int| 0 <= k < es.len() && (#[trigger] es[k]).0@ == all_rules() && es[k].1 <= 1;
                    lemma_entries_map_at(es, k);
                }
                if extra.contains(p) {
                    let k = choose|k: int| 0 <= k < es.len() && (#[trigger] es[k]).0@ == all_rules();
                    lemma_entries_map_at(es, k);
                }
            }
            assert(star_marks(es, es.len() as int) =~= extra);
        }
    }

    /// Marks `rule` as ignored on lines `start..=end`.
    pub fn mark_range_ignored(&self, ignored: &mut IgnoredRules, start: usize, end: usize, rule: &String)
        ensures
            final(ignored)@ == old(ignored)@ + range_marks(rule@, start, end),
    {
        ignored.insert_range(start, end, rule);
    }

    /// Acts on the directives of one comment that starts on `line`.
    fn apply_comment_directives(&self, text: &String, line: usize, active: &mut ActiveBlocks, ignored: &mut IgnoredRules)
        requires
            old(active).wf(),
        ensures
            final(active).wf(),
            (IgnoreScan { active: final(active)@, ignored: final(ignored)@ }) == apply_comment(
                IgnoreScan { active: old(active)@, ignored: old(ignored)@ },
                text@,
                line,
            ),
    {
        let cs = chars_of(text.as_str());
        if contains_char(cs.as_slice(), '\n') {
            let lines = split_lines(cs.as_slice());
            let ghost lv = lines@.map_values(|w: Vec<char>| w@);
            let ghost st0 = IgnoreScan { active: old(active)@, ignored: old(ignored)@ };
            let mut k: usize = 0;
            while k < lines.len()
                invariant
                    k <= lines@.len(),
                    lv == lines@.map_values(|w: Vec<char>| w@),
                    lv == text_lines(text@),
                    active.wf(),
                    (IgnoreScan { active: active@, ignored: ignored@ }) == apply_line_directives(st0, lv.take(k as int), line as int),
                decreases lines@.len() - k,
            {
                let ghost pre = IgnoreScan { active: active@, ignored: ignored@ };
                proof {
                    assert(lv.take(k + 1).drop_last() =~= lv.take(k as int));
                    assert(lv.take(k + 1).last() == lines@[k as int]@);
                }
                match line.checked_add(k) {
                    Some(l) => {
                        let s = string_of(lines[k].as_slice());
                        match self.parse_ignore_command(s.as_str()) {
                            Some(found) => {
                                self.process_ignore_command(&found.0, &found.1, l, active, ignored);
                            },
                            None => {},
                        }
                    },
                    None => {},
                }
                k = k + 1;
            }
            assert(lv.take(lines@.len() as int) =~= lv);
        } else {
            match self.parse_ignore_command(text.as_str()) {
                Some(found) => {
                    self.process_ignore_command(&found.0, &found.1, line, active, ignored);
                },
                None => {},
            }
        }
    }

    /// The lines on which rules are ignored, as the ignore comments of a
    /// source mark them; `index` is the line index of that source.
    pub fn parse_ignore_comments(&self, comments: &[SourceComment], index: &LineIndex) -> (r: IgnoredRules)
        requires
            index.wf(),
            forall|i: int| 0 <= i < comments@.len() ==> (#[trigger] comments@[i]).start < u32::MAX,
        ensures
            r@ == ignored_lines(comment_views(comments@), index@),
    {
        let ghost cv = comment_views(comments@);
        let mut active = ActiveBlocks::new();
        let mut ignored = IgnoredRules::new();
        let mut i: usize = 0;
        assert(IgnoreScan { active: active@, ignored: ignored@ } == empty_scan());
        while i < comments.len()
            invariant
                i <= comments@.len(),
                cv == comment_views(comments@),
                index.wf(),
                forall|j: int| 0 <= j < comments@.len() ==> (#[trigger] comments@[j]).start < u32::MAX,
                active.wf(),
                (IgnoreScan { active: active@, ignored: ignored@ }) == apply_comments(empty_scan(), cv.take(i as int), index@),
            decreases comments@.len() - i,
        {
            let c = &comments[i];
            let offset = c.start as usize;
            assert((offset as u32) == c.start);
            let line = index.line(offset);
            proof {
                assert(cv.take(i + 1).drop_last() =~= cv.take(i as int));
                assert(cv.take(i + 1).last() == (c.text@, c.start));
            }
            self.apply_comment_directives(&c.text, line, &mut active, &mut ignored);
            i = i + 1;
        }
        assert(cv.take(comments@.len() as int) =~= cv);
        let total = index.line_count();
        self.close_remaining_blocks(active, total, &mut ignored);
        ignored
    }
}

} // verus!
