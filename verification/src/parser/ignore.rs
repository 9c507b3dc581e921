//! The state that ignore directives act on: the blocks that are open and the
//! (line, rule) pairs that are ignored, with their mathematical model.

use vstd::prelude::*;
use crate::text::str_eq;

verus! {

/// Lines `start..=end`, each marked for `rule`.
pub open spec fn range_marks(rule: Seq<char>, start: usize, end: usize) -> Set<(usize, Seq<char>)> {
    Set::new(|p: (usize, Seq<char>)| p.1 == rule && start <= p.0 && p.0 <= end)
}

/// Lines from `start` up to, not including, `hi`, each marked for `rule`.
pub open spec fn marks_before(rule: Seq<char>, start: usize, hi: int) -> Set<(usize, Seq<char>)> {
    Set::new(|p: (usize, Seq<char>)| p.1 == rule && start <= p.0 && p.0 < hi)
}

/// For each open block whose rule is in `rules`, the lines from its start to `end`.
pub open spec fn block_marks(
    active: Map<Seq<char>, usize>,
    rules: Set<Seq<char>>,
    end: usize,
) -> Set<(usize, Seq<char>)> {
    Set::new(
        |p: (usize, Seq<char>)|
            rules.contains(p.1) && active.dom().contains(p.1) && active[p.1] <= p.0 && p.0 <= end,
    )
}

/// Line `line` marked for each of `rules`.
pub open spec fn line_marks(rules: Seq<Seq<char>>, line: usize) -> Set<(usize, Seq<char>)> {
    Set::new(|p: (usize, Seq<char>)| p.0 == line && rules.contains(p.1))
}

/// `active` with a block for each of `rules` opened at `line`.
pub open spec fn open_blocks(active: Map<Seq<char>, usize>, rules: Seq<Seq<char>>, line: usize) -> Map<
    Seq<char>,
    usize,
> {
    active.union_prefer_right(Map::new(|k: Seq<char>| rules.contains(k), |k: Seq<char>| line))
}

/// The rule name that stands for every rule.
pub open spec fn all_rules() -> Seq<char> {
    seq!['*']
}

/// What the ignore directives read so far leave behind: the open blocks
/// (rule to start line) and the (line, rule) pairs marked as ignored.
pub struct IgnoreScan {
    pub active: Map<Seq<char>, usize>,
    pub ignored: Set<(usize, Seq<char>)>,
}

/// Nothing open, nothing ignored.
pub open spec fn empty_scan() -> IgnoreScan {
    IgnoreScan { active: Map::empty(), ignored: Set::empty() }
}

/// The effect of directive `cmd` with `rules` on line `line`:
/// - `archlint-disable` opens a block for each rule at `line`;
/// - `archlint-enable` closes the blocks of its rules (all open blocks where
///   `*` is among them), marking each closed block's lines up to `line`;
/// - `archlint-disable-line` marks `line` for each rule;
/// - `archlint-disable-next-line` marks the line after `line`, where there is one;
/// - any other command changes nothing.
pub open spec fn apply_directive(st: IgnoreScan, cmd: Seq<char>, rules: Seq<Seq<char>>, line: usize) -> IgnoreScan {
    if cmd == "archlint-disable"@ {
        IgnoreScan { active: open_blocks(st.active, rules, line), ignored: st.ignored }
    } else if cmd == "archlint-enable"@ {
        let to_close = if rules.contains(all_rules()) { st.active.dom() } else { rules.to_set() };
        IgnoreScan {
            active: st.active.remove_keys(to_close),
            ignored: st.ignored + block_marks(st.active, to_close, line),
        }
    } else if cmd == "archlint-disable-line"@ {
        IgnoreScan { active: st.active, ignored: st.ignored + line_marks(rules, line) }
    } else if cmd == "archlint-disable-next-line"@ && line < usize::MAX {
        IgnoreScan { active: st.active, ignored: st.ignored + line_marks(rules, (line + 1) as usize) }
    } else {
        st
    }
}

/// The ignored pairs once the blocks still open are closed at line `total`;
/// a `*` block opened on line 0 or 1 also marks line 0.
pub open spec fn close_blocks(st: IgnoreScan, total: usize) -> Set<(usize, Seq<char>)> {
    let extra = if st.active.dom().contains(all_rules()) && st.active[all_rules()] <= 1 {
        set![(0usize, all_rules())]
    } else {
        Set::empty()
    };
    st.ignored + block_marks(st.active, st.active.dom(), total) + extra
}

/// The lines marked for the first `n` entries of `s`, each from its start to `end`.
pub open spec fn entry_marks(s: Seq<(String, usize)>, n: int, end: usize) -> Set<(usize, Seq<char>)> {
    Set::new(
        |p: (usize, Seq<char>)|
            exists|j: int| 0 <= j < n && (#[trigger] s[j]).0@ == p.1 && s[j].1 <= p.0 && p.0 <= end,
    )
}

/// With unique keys, marking every entry marks every open block.
pub proof fn lemma_entry_marks_all(s: Seq<(String, usize)>, end: usize)
    requires
        keys_unique(s),
    ensures
        entry_marks(s, s.len() as int, end) == block_marks(entries_map(s), entries_map(s).dom(), end),
{
    let m = entries_map(s);
    assert forall|p: (usize, Seq<char>)| #[trigger] entry_marks(s, s.len() as int, end).contains(p)
        == block_marks(m, m.dom(), end).contains(p) by {
        if entry_marks(s, s.len() as int, end).contains(p) {
            let j = choose|j: int| 0 <= j < s.len() && (#[trigger] s[j]).0@ == p.1 && s[j].1 <= p.0 && p.0 <= end;
            lemma_entries_map_at(s, j);
        }
        if block_marks(m, m.dom(), end).contains(p) {
            let j = choose|j: int| 0 <= j < s.len() && (#[trigger] s[j]).0@ == p.1;
            lemma_entries_map_at(s, j);
        }
    }
    assert(entry_marks(s, s.len() as int, end) =~= block_marks(m, m.dom(), end));
}

/// Whether some entry of `s` has key `k`.
pub open spec fn has_key(s: Seq<(String, usize)>, k: Seq<char>) -> bool {
    exists|i: int| 0 <= i < s.len() && (#[trigger] s[i]).0@ == k
}

/// The map from rule to start line that a list of entries stands for.
pub open spec fn entries_map(s: Seq<(String, usize)>) -> Map<Seq<char>, usize> {
    Map::new(
        |k: Seq<char>| has_key(s, k),
        |k: Seq<char>| s[choose|i: int| 0 <= i < s.len() && (#[trigger] s[i]).0@ == k].1,
    )
}

/// No two entries of `s` share a key.
pub open spec fn keys_unique(s: Seq<(String, usize)>) -> bool {
    forall|i: int, j: int| 0 <= i < j < s.len() ==> (#[trigger] s[i]).0@ != (#[trigger] s[j]).0@
}

/// With unique keys, the map sends each entry's key to that entry's line.
pub proof fn lemma_entries_map_at(s: Seq<(String, usize)>, i: int)
    requires
        keys_unique(s),
        0 <= i < s.len(),
    ensures
        entries_map(s).dom().contains(s[i].0@),
        entries_map(s)[s[i].0@] == s[i].1,
{
    let k = s[i].0@;
    assert(has_key(s, k));
    let j = choose|j: int| 0 <= j < s.len() && (#[trigger] s[j]).0@ == k;
    if j < i {
        assert(s[j].0@ != s[i].0@);
    } else if i < j {
        assert(s[i].0@ != s[j].0@);
    }
}

/// The blocks opened by `archlint-disable` that are not closed yet: each rule
/// with the line on which its block starts.
pub struct ActiveBlocks {
    entries: Vec<(String, usize)>,
}

impl View for ActiveBlocks {
    type V = Map<Seq<char>, usize>;

    closed spec fn view(&self) -> Map<Seq<char>, usize> {
        entries_map(self.entries@)
    }
}

impl ActiveBlocks {
    /// Each rule is held at most once.
    pub closed spec fn wf(&self) -> bool {
        keys_unique(self.entries@)
    }

    /// No open block.
    pub fn new() -> (r: Self)
        ensures
            r.wf(),
            r@ == Map::<Seq<char>, usize>::empty(),
    {
        let r = ActiveBlocks { entries: Vec::new() };
        assert(r@ =~= Map::<Seq<char>, usize>::empty());
        r
    }

    /// The index of the entry for `rule`, if any.
    fn find(&self, rule: &str) -> (r: Option<usize>)
        requires
            self.wf(),
        ensures
            match r {
                Some(i) => i < self.entries@.len() && self.entries@[i as int].0@ == rule@,
                None => !has_key(self.entries@, rule@),
            },
    {
        let mut i: usize = 0;
        while i < self.entries.len()
            invariant
                i <= self.entries@.len(),
                forall|j: int| 0 <= j < i ==> (#[trigger] self.entries@[j]).0@ != rule@,
            decreases self.entries@.len() - i,
        {
            if str_eq(self.entries[i].0.as_str(), rule) {
                return Some(i);
            }
            i = i + 1;
        }
        None
    }

    /// Opens (or reopens) the block of `rule` at `line`.
    pub fn open(&mut self, rule: &String, line: usize)
        requires
            old(self).wf(),
        ensures
            final(self).wf(),
            final(self)@ == old(self)@.insert(rule@, line),
    {
        let ghost s0 = self.entries@;
        match self.find(rule.as_str()) {
            Some(i) => {
                self.entries.set(i, (rule.clone(), line));
                proof {
                    let s1 = self.entries@;
                    assert forall|a: int, b: int| 0 <= a < b < s1.len() implies (#[trigger] s1[a]).0@
                        != (#[trigger] s1[b]).0@ by {
                        assert(s0[a].0@ != s0[b].0@);
                    }
                    assert forall|k: Seq<char>| #[trigger] has_key(s1, k) == (has_key(s0, k) || k == rule@) by {
                        if has_key(s0, k) {
                            let j = choose|j: int| 0 <= j < s0.len() && (#[trigger] s0[j]).0@ == k;
                            assert(s1[j].0@ == k);
                        }
                        if has_key(s1, k) {
                            let j = choose|j: int| 0 <= j < s1.len() && (#[trigger] s1[j]).0@ == k;
                            if j != i {
                                assert(s0[j].0@ == k);
                            }
                        }
                        if k == rule@ {
                            assert(s1[i as int].0@ == k);
                        }
                    }
                    assert forall|k: Seq<char>| #[trigger] has_key(s1, k) implies entries_map(s1)[k]
                        == old(self)@.insert(rule@, line)[k] by {
                        let j = choose|j: int| 0 <= j < s1.len() && (#[trigger] s1[j]).0@ == k;
                        lemma_entries_map_at(s1, j);
                        if j != i {
                            lemma_entries_map_at(s0, j);
                        }
                    }
                    assert(self@ =~= old(self)@.insert(rule@, line));
                }
            },
            None => {
                self.entries.push((rule.clone(), line));
                proof {
                    let s1 = self.entries@;
                    assert forall|a: int, b: int| 0 <= a < b < s1.len() implies (#[trigger] s1[a]).0@
                        != (#[trigger] s1[b]).0@ by {
                        if b < s0.len() {
                            assert(s0[a].0@ != s0[b].0@);
                        } else {
                            assert(s1[a] == s0[a]);
                        }
                    }
                    assert forall|k: Seq<char>| #[trigger] has_key(s1, k) == (has_key(s0, k) || k == rule@) by {
                        if has_key(s0, k) {
                            let j = choose|j: int| 0 <= j < s0.len() && (#[trigger] s0[j]).0@ == k;
                            assert(s1[j].0@ == k);
                        }
                        if has_key(s1, k) {
                            let j = choose|j: int| 0 <= j < s1.len() && (#[trigger] s1[j]).0@ == k;
                            if j < s0.len() {
                                assert(s0[j].0@ == k);
                            }
                        }
                        if k == rule@ {
                            assert(s1[s0.len() as int].0@ == k);
                        }
                    }
                    assert forall|k: Seq<char>| #[trigger] has_key(s1, k) implies entries_map(s1)[k]
                        == old(self)@.insert(rule@, line)[k] by {
                        let j = choose|j: int| 0 <= j < s1.len() && (#[trigger] s1[j]).0@ == k;
                        lemma_entries_map_at(s1, j);
                        if j < s0.len() {
                            lemma_entries_map_at(s0, j);
                        }
                    }
                    assert(self@ =~= old(self)@.insert(rule@, line));
                }
            },
        }
    }

    /// Closes the block of `rule`, giving back the line it started on, if it was open.
    pub fn take(&mut self, rule: &str) -> (r: Option<usize>)
        requires
            old(self).wf(),
        ensures
            final(self).wf(),
            final(self)@ == old(self)@.remove(rule@),
            r == (if old(self)@.dom().contains(rule@) { Some(old(self)@[rule@]) } else { None::<usize> }),
    {
        let ghost s0 = self.entries@;
        match self.find(rule) {
            Some(i) => {
                let start = self.entries[i].1;
                proof {
                    lemma_entries_map_at(s0, i as int);
                }
                self.entries.remove(i);
                proof {
                    let s1 = self.entries@;
                    assert(s1 =~= s0.remove(i as int));
                    assert forall|a: int, b: int| 0 <= a < b < s1.len() implies (#[trigger] s1[a]).0@
                        != (#[trigger] s1[b]).0@ by {
                        let a0 = if a < i { a } else { a + 1 };
                        let b0 = if b < i { b } else { b + 1 };
                        assert(s1[a] == s0[a0]);
                        assert(s1[b] == s0[b0]);
                        assert(s0[a0].0@ != s0[b0].0@);
                    }
                    assert forall|k: Seq<char>| #[trigger] has_key(s1, k) == (has_key(s0, k) && k != rule@) by {
                        if has_key(s0, k) && k != rule@ {
                            let j = choose|j: int| 0 <= j < s0.len() && (#[trigger] s0[j]).0@ == k;
                            assert(j != i);
                            let j1 = if j < i { j } else { j - 1 };
                            assert(s1[j1] == s0[j]);
                        }
                        if has_key(s1, k) {
                            let j = choose|j: int| 0 <= j < s1.len() && (#[trigger] s1[j]).0@ == k;
                            let j0 = if j < i { j } else { j + 1 };
                            assert(s1[j] == s0[j0]);
                            assert(s0[j0].0@ != s0[i as int].0@);
                        }
                    }
                    assert forall|k: Seq<char>| #[trigger] has_key(s1, k) implies entries_map(s1)[k]
                        == old(self)@.remove(rule@)[k] by {
                        let j = choose|j: int| 0 <= j < s1.len() && (#[trigger] s1[j]).0@ == k;
                        let j0 = if j < i { j } else { j + 1 };
                        assert(s1[j] == s0[j0]);
                        lemma_entries_map_at(s1, j);
                        lemma_entries_map_at(s0, j0);
                    }
                    assert(self@ =~= old(self)@.remove(rule@));
                }
                Some(start)
            },
            None => {
                assert(self@ =~= old(self)@.remove(rule@));
                None
            },
        }
    }

    /// The open blocks, one entry per rule.
    pub fn entries(&self) -> (r: &Vec<(String, usize)>)
        requires
            self.wf(),
        ensures
            keys_unique(r@),
            entries_map(r@) == self@,
    {
        &self.entries
    }
}

/// Whether some entry of `s` marks line `p.0` for rule `p.1`.
pub open spec fn has_mark(s: Seq<(usize, String)>, p: (usize, Seq<char>)) -> bool {
    exists|i: int| 0 <= i < s.len() && (#[trigger] s[i]).0 == p.0 && s[i].1@ == p.1
}

/// The lines on which rules are ignored.
pub struct IgnoredRules {
    entries: Vec<(usize, String)>,
}

impl View for IgnoredRules {
    type V = Set<(usize, Seq<char>)>;

    closed spec fn view(&self) -> Set<(usize, Seq<char>)> {
        Set::new(|p: (usize, Seq<char>)| has_mark(self.entries@, p))
    }
}

impl IgnoredRules {
    /// Nothing ignored.
    pub fn new() -> (r: Self)
        ensures
            r@ == Set::<(usize, Seq<char>)>::empty(),
    {
        let r = IgnoredRules { entries: Vec::new() };
        assert(r@ =~= Set::<(usize, Seq<char>)>::empty());
        r
    }

    /// Marks `rule` as ignored on `line`.
    pub fn insert(&mut self, line: usize, rule: &String)
        ensures
            final(self)@ == old(self)@.insert((line, rule@)),
    {
        let ghost s0 = self.entries@;
        self.entries.push((line, rule.clone()));
        proof {
            let s1 = self.entries@;
            assert forall|p: (usize, Seq<char>)| #[trigger] has_mark(s1, p) == (has_mark(s0, p) || p == (line, rule@)) by {
                if has_mark(s0, p) {
                    let j = choose|j: int| 0 <= j < s0.len() && (#[trigger] s0[j]).0 == p.0 && s0[j].1@ == p.1;
                    assert(s1[j] == s0[j]);
                }
                if has_mark(s1, p) {
                    let j = choose|j: int| 0 <= j < s1.len() && (#[trigger] s1[j]).0 == p.0 && s1[j].1@ == p.1;
                    if j < s0.len() {
                        assert(s1[j] == s0[j]);
                    }
                }
                if p == (line, rule@) {
                    assert(s1[s0.len() as int].0 == p.0);
                }
            }
            assert(self@ =~= old(self)@.insert((line, rule@)));
        }
    }

    /// Marks `rule` as ignored on every line from `start` to `end`, both included.
    pub fn insert_range(&mut self, start: usize, end: usize, rule: &String)
        ensures
            final(self)@ == old(self)@ + range_marks(rule@, start, end),
    {
        if start > end {
            assert(range_marks(rule@, start, end) =~= Set::empty());
            assert(self@ =~= old(self)@ + range_marks(rule@, start, end));
            return;
        }
        let mut l: usize = start;
        assert(old(self)@ + marks_before(rule@, start, start as int) =~= old(self)@);
        loop
            invariant_except_break
                start <= l <= end,
                self@ == old(self)@ + marks_before(rule@, start, l as int),
            ensures
                self@ == old(self)@ + range_marks(rule@, start, end),
            decreases end - l,
        {
            self.insert(l, rule);
            assert(self@ =~= old(self)@ + marks_before(rule@, start, l + 1));
            if l == end {
                assert(marks_before(rule@, start, l + 1) =~= range_marks(rule@, start, end));
                break;
            }
            l = l + 1;
        }
    }

    /// Whether `rule` is ignored on `line`.
    pub fn contains(&self, line: usize, rule: &str) -> (r: bool)
        ensures
            r == self@.contains((line, rule@)),
    {
        let mut i: usize = 0;
        while i < self.entries.len()
            invariant
                i <= self.entries@.len(),
                forall|j: int| 0 <= j < i ==> !((#[trigger] self.entries@[j]).0 == line && self.entries@[j].1@ == rule@),
            decreases self.entries@.len() - i,
        {
            if self.entries[i].0 == line && str_eq(self.entries[i].1.as_str(), rule) {
                assert(has_mark(self.entries@, (line, rule@)));
                return true;
            }
            i = i + 1;
        }
        false
    }
}

/// Directives only ever add ignored lines: what was ignored stays ignored,
/// through any directive and through closing the blocks left open.
pub proof fn lemma_ignored_only_grows(st: IgnoreScan, cmd: Seq<char>, rules: Seq<Seq<char>>, line: usize, total: usize)
    ensures
        st.ignored.subset_of(apply_directive(st, cmd, rules, line).ignored),
        st.ignored.subset_of(close_blocks(st, total)),
{
}

/// `archlint-disable-line` ignores each of its rules on its own line.
pub proof fn lemma_disable_line_marks_its_line(st: IgnoreScan, rules: Seq<Seq<char>>, line: usize, r: Seq<char>)
    requires
        rules.contains(r),
    ensures
        apply_directive(st, "archlint-disable-line"@, rules, line).ignored.contains((line, r)),
{
    reveal_strlit("archlint-disable-line");
    reveal_strlit("archlint-disable");
    reveal_strlit("archlint-enable");
    assert("archlint-disable-line"@ != "archlint-disable"@) by {
        assert("archlint-disable-line"@.len() != "archlint-disable"@.len());
    }
    assert("archlint-disable-line"@ != "archlint-enable"@) by {
        assert("archlint-disable-line"@.len() != "archlint-enable"@.len());
    }
    assert(line_marks(rules, line).contains((line, r)));
}

/// A block opened for rule `r` on line `a` and closed for `r` on line `b`
/// ignores `r` on every line from `a` to `b`, and leaves no block open for `r`.
pub proof fn lemma_block_ignores_its_lines(st: IgnoreScan, r: Seq<char>, a: usize, b: usize, l: usize)
    requires
        a <= l <= b,
    ensures
        ({
            let opened = apply_directive(st, "archlint-disable"@, seq![r], a);
            let closed = apply_directive(opened, "archlint-enable"@, seq![r], b);
            closed.ignored.contains((l, r)) && !closed.active.dom().contains(r)
        }),
{
    reveal_strlit("archlint-disable");
    reveal_strlit("archlint-enable");
    assert("archlint-enable"@ != "archlint-disable"@) by {
        assert("archlint-enable"@.len() != "archlint-disable"@.len());
    }
    let opened = apply_directive(st, "archlint-disable"@, seq![r], a);
    assert(seq![r].contains(r)) by {
        assert(seq![r][0] == r);
    }
    assert(opened.active.dom().contains(r));
    assert(opened.active[r] == a);
    let to_close = if seq![r].contains(all_rules()) { opened.active.dom() } else { seq![r].to_set() };
    assert(to_close.contains(r)) by {
        if !seq![r].contains(all_rules()) {
            assert(seq![r].to_set().contains(r));
        }
    }
    assert(block_marks(opened.active, to_close, b).contains((l, r)));
}

/// A block still open at the end ignores its rule from its start to the last line.
pub proof fn lemma_open_block_reaches_end(st: IgnoreScan, r: Seq<char>, total: usize, l: usize)
    requires
        st.active.dom().contains(r),
        st.active[r] <= l <= total,
    ensures
        close_blocks(st, total).contains((l, r)),
{
    assert(block_marks(st.active, st.active.dom(), total).contains((l, r)));
}

} // verus!
