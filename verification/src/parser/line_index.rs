//! Line index for O(log n) line/column lookup of byte offsets.

use vstd::prelude::*;
use vstd::string::StringSliceAdditionalSpecFns;

verus! {

/// Whether `s` lists the byte offsets at which the lines of `b` start:
/// 0 first, then one past each `'\n'`, in increasing order.
pub open spec fn are_line_starts(b: Seq<u8>, s: Seq<int>) -> bool {
    &&& s.len() >= 1
    &&& s[0] == 0
    &&& forall|k: int, l: int| 0 <= k < l < s.len() ==> s[k] < s[l]
    &&& forall|k: int| 1 <= k < s.len() ==> 1 <= #[trigger] s[k] <= b.len() && b[s[k] - 1] == 10u8
    &&& forall|i: int| 0 <= i < b.len() && b[i] == 10u8 ==> #[trigger] s.contains(i + 1)
}

/// Wraps `memchr::memchr_iter`: every position of `'\n'` in `bytes`, in increasing order.
#[verifier::external_body]
fn newline_positions(bytes: &[u8]) -> (r: Vec<usize>)
    ensures
        forall|k: int| 0 <= k < r@.len() ==> #[trigger] r@[k] < bytes@.len() && bytes@[r@[k] as int] == 10u8,
        forall|k: int, l: int| 0 <= k < l < r@.len() ==> r@[k] < r@[l],
        forall|i: int| 0 <= i < bytes@.len() && #[trigger] bytes@[i] == 10u8 ==> r@.contains(i as usize),
{
    memchr::memchr_iter(b'\n', bytes).collect()
}

/// Pre-computed start offsets of the lines of a text.
pub struct LineIndex {
    line_starts: Vec<u32>,
}

impl View for LineIndex {
    type V = Seq<int>;

    closed spec fn view(&self) -> Seq<int> {
        self.line_starts@.map_values(|x: u32| x as int)
    }
}

/// Whether `s` is strictly increasing and starts at 0.
pub open spec fn sorted_starts(s: Seq<int>) -> bool {
    &&& s.len() >= 1
    &&& s[0] == 0
    &&& forall|k: int, l: int| 0 <= k < l < s.len() ==> s[k] < s[l]
}

/// The 0-based line of offset `o`: the last line whose start is at most `o`.
pub open spec fn line_of(s: Seq<int>, o: int, k: int) -> bool {
    &&& 0 <= k < s.len()
    &&& s[k] <= o
    &&& (k + 1 == s.len() || o < s[k + 1])
}

/// In a strictly increasing list of starts, an offset lies on one line only.
pub proof fn lemma_line_of_unique(s: Seq<int>, o: int, k1: int, k2: int)
    requires
        sorted_starts(s),
        line_of(s, o, k1),
        line_of(s, o, k2),
    ensures
        k1 == k2,
{
    if k1 < k2 {
        assert(s[k1 + 1] <= s[k2]) by {
            if k1 + 1 < k2 {
                assert(s[k1 + 1] < s[k2]);
            }
        }
    } else if k2 < k1 {
        assert(s[k2 + 1] <= s[k1]) by {
            if k2 + 1 < k1 {
                assert(s[k2 + 1] < s[k1]);
            }
        }
    }
}

/// The 1-based line on which offset `o` lies.
pub open spec fn line_number(s: Seq<int>, o: int) -> int {
    (choose|k: int| line_of(s, o, k)) + 1
}

/// The number of `'\n'` bytes among the first `o` bytes of `b`.
pub open spec fn newlines_before(b: Seq<u8>, o: int) -> nat
    decreases o,
{
    if o <= 0 {
        0
    } else {
        newlines_before(b, o - 1) + if b[o - 1] == 10u8 { 1nat } else { 0nat }
    }
}

proof fn lemma_line_at(b: Seq<u8>, s: Seq<int>, o: int)
    requires
        are_line_starts(b, s),
        0 <= o <= b.len(),
    ensures
        line_of(s, o, newlines_before(b, o) as int),
    decreases o,
{
    if o == 0 {
        if s.len() > 1 {
            assert(s[0] < s[1]);
        }
    } else {
        lemma_line_at(b, s, o - 1);
        let k = newlines_before(b, o - 1) as int;
        if b[o - 1] == 10u8 {
            assert(s.contains((o - 1) + 1));
            let j = choose|j: int| 0 <= j < s.len() && s[j] == o;
            if j <= k {
                if j < k {
                    assert(s[j] < s[k]);
                }
                assert(false);
            }
            assert(j == k + 1) by {
                if j > k + 1 {
                    assert(s[k + 1] < s[j]);
                    assert(s[k + 1] > o - 1);
                }
            }
            if k + 2 < s.len() {
                assert(s[k + 1] < s[k + 2]);
            }
        } else {
            if k + 1 < s.len() {
                assert(s[k + 1] != o) by {
                    if s[k + 1] == o {
                        assert(b[s[k + 1] - 1] == 10u8);
                    }
                }
            }
        }
    }
}

proof fn lemma_newlines_monotone(b: Seq<u8>, o1: int, o2: int)
    requires
        o1 <= o2,
    ensures
        newlines_before(b, o1) <= newlines_before(b, o2),
    decreases o2 - o1,
{
    if o1 < o2 {
        lemma_newlines_monotone(b, o1, o2 - 1);
    }
}

/// In the line starts of a text, the line of an offset within the text is 1
/// and the number of newlines before it; so it lies between 1 and the number
/// of lines, and never decreases as the offset grows.
pub proof fn lemma_line_number_law(b: Seq<u8>, s: Seq<int>, o1: int, o2: int)
    requires
        are_line_starts(b, s),
        0 <= o1 <= o2 <= b.len(),
    ensures
        line_number(s, o1) == 1 + newlines_before(b, o1),
        line_number(s, o2) == 1 + newlines_before(b, o2),
        1 <= line_number(s, o1) <= line_number(s, o2) <= s.len(),
{
    lemma_line_at(b, s, o1);
    lemma_line_at(b, s, o2);
    let k1 = choose|k: int| line_of(s, o1, k);
    let k2 = choose|k: int| line_of(s, o2, k);
    lemma_line_of_unique(s, o1, k1, newlines_before(b, o1) as int);
    lemma_line_of_unique(s, o2, k2, newlines_before(b, o2) as int);
    lemma_newlines_monotone(b, o1, o2);
}

impl LineIndex {
    /// Whether the index is well formed: offsets strictly increasing from 0, each below `u32::MAX`.
    pub closed spec fn wf(&self) -> bool {
        &&& sorted_starts(self@)
        &&& forall|k: int| 0 <= k < self@.len() ==> #[trigger] self@[k] < u32::MAX
    }

    /// Builds the line index of `text`.
    pub fn new(text: &str) -> (r: Self)
        requires
            text.spec_bytes().len() < u32::MAX,
        ensures
            r.wf(),
            are_line_starts(text.spec_bytes(), r@),
    {
        let bytes = text.as_bytes();
        let positions = newline_positions(bytes);
        let mut line_starts: Vec<u32> = Vec::new();
        line_starts.push(0);
        let mut k: usize = 0;
        while k < positions.len()
            invariant
                bytes@ == text.spec_bytes(),
                bytes@.len() < u32::MAX,
                k <= positions@.len(),
                forall|j: int| 0 <= j < positions@.len() ==> #[trigger] positions@[j] < bytes@.len() && bytes@[positions@[j] as int] == 10u8,
                forall|j: int, l: int| 0 <= j < l < positions@.len() ==> positions@[j] < positions@[l],
                line_starts@.len() == k + 1,
                line_starts@[0] == 0,
                forall|j: int| 0 <= j < k ==> #[trigger] line_starts@[j + 1] == positions@[j] + 1,
            decreases positions@.len() - k,
        {
            line_starts.push((positions[k] + 1) as u32);
            k = k + 1;
        }
        let r = LineIndex { line_starts };
        proof {
            let s = r@;
            let b = bytes@;
            assert forall|j: int| 1 <= j < s.len() implies s[j] == positions@[j - 1] + 1 by {
                assert(line_starts@[(j - 1) + 1] == positions@[j - 1] + 1);
            }
            assert forall|j: int, l: int| 0 <= j < l < s.len() implies s[j] < s[l] by {
                if j > 0 {
                    assert(positions@[j - 1] < positions@[l - 1]);
                }
            }
            assert forall|j: int| 1 <= j < s.len() implies 1 <= #[trigger] s[j] <= b.len() && b[s[j] - 1] == 10u8 by {
                assert(positions@[j - 1] < b.len());
            }
            assert forall|i: int| 0 <= i < b.len() && b[i] == 10u8 implies #[trigger] s.contains(i + 1) by {
                assert(positions@.contains(i as usize));
                let j = choose|j: int| 0 <= j < positions@.len() && positions@[j] == i as usize;
                assert(s[j + 1] == i + 1);
            }
            assert forall|j: int| 0 <= j < s.len() implies #[trigger] s[j] < u32::MAX by {
                if j > 0 {
                    assert(positions@[j - 1] < b.len());
                }
            }
        }
        r
    }

    /// The 1-based line and column of byte `offset`. The offset is taken modulo
    /// 2^32, as the index stores 32-bit offsets; on a 32-bit target the column
    /// must fit in `usize`.
    pub fn line_col(&self, offset: usize) -> (r: (usize, usize))
        requires
            self.wf(),
            (offset as u32) < u32::MAX || u32::MAX < usize::MAX,
        ensures
            line_of(self@, (offset as u32) as int, r.0 - 1),
            r.0 == line_number(self@, (offset as u32) as int),
            r.1 == (offset as u32) - self@[r.0 - 1] + 1,
    {
        let o: u32 = offset as u32;
        let starts = &self.line_starts;
        let ghost s = self@;
        assert(starts@.len() == s.len());
        // Binary search for the number of starts at most `o`.
        let mut lo: usize = 0;
        let mut hi: usize = starts.len();
        assert(forall|k: int| 0 <= k < s.len() ==> s[k] == starts@[k] as int);
        while lo < hi
            invariant
                s == self@,
                sorted_starts(s),
                starts@.len() == s.len(),
                forall|k: int| 0 <= k < s.len() ==> s[k] == starts@[k] as int,
                0 <= lo <= hi <= s.len(),
                forall|k: int| 0 <= k < lo ==> s[k] <= o,
                forall|k: int| hi <= k < s.len() ==> s[k] > o,
            decreases hi - lo,
        {
            let mid = lo + (hi - lo) / 2;
            if starts[mid] <= o {
                assert forall|k: int| 0 <= k < mid + 1 implies s[k] <= o by {
                    if k < mid {
                        assert(s[k] < s[mid as int]);
                    }
                }
                lo = mid + 1;
            } else {
                assert forall|k: int| mid <= k < s.len() implies s[k] > o by {
                    if k > mid {
                        assert(s[mid as int] < s[k]);
                    }
                }
                hi = mid;
            }
        }
        assert(s[0] <= o);
        assert(lo > 0);
        let idx = lo - 1;
        let line_start = starts[idx];
        assert(line_start as int == s[idx as int]);
        assert(line_start <= o);
        let column = (o - line_start) as usize + 1;
        proof {
            assert(line_of(self@, o as int, idx as int));
            let k = choose|k: int| line_of(self@, o as int, k);
            lemma_line_of_unique(self@, o as int, k, idx as int);
        }
        (idx + 1, column)
    }

    /// The 1-based line of byte `offset` (taken modulo 2^32).
    pub fn line(&self, offset: usize) -> (r: usize)
        requires
            self.wf(),
            (offset as u32) < u32::MAX || u32::MAX < usize::MAX,
        ensures
            line_of(self@, (offset as u32) as int, r - 1),
            r == line_number(self@, (offset as u32) as int),
    {
        let r = self.line_col(offset).0;
        proof {
            let o = (offset as u32) as int;
            let k = choose|k: int| line_of(self@, o, k);
            lemma_line_of_unique(self@, o, k, r - 1);
        }
        r
    }

    /// Total number of lines.
    pub fn line_count(&self) -> (r: usize)
        ensures
            r == self@.len(),
    {
        self.line_starts.len()
    }
}

} // verus!
