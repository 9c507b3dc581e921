//! The severity settings of a report: which smells it keeps, in what order,
//! and the exit code that its smells call for.

use vstd::prelude::*;
use crate::detectors::{ArchSmell, Explanation, Severity};
use crate::report::summary::{counts_match, SmellCounts};

verus! {

/// The points that a smell of each severity scores.
#[derive(Debug, Clone, Copy)]
pub struct SeverityWeights {
    pub low: u32,
    pub medium: u32,
    pub high: u32,
    pub critical: u32,
}

/// The severity settings of a configuration: the least severity and the
/// least score of a smell that a report keeps, where they are set, and the
/// points of each severity.
#[derive(Debug, Clone, Copy)]
pub struct SeverityConfig {
    pub minimum: Option<Severity>,
    pub minimum_score: Option<u32>,
    pub weights: SeverityWeights,
}

/// The points of severity `s` under `w`.
pub open spec fn weight_of(w: SeverityWeights, s: Severity) -> u32 {
    match s {
        Severity::Low => w.low,
        Severity::Medium => w.medium,
        Severity::High => w.high,
        Severity::Critical => w.critical,
    }
}

/// The rank of a severity, from low to critical.
pub open spec fn severity_rank(s: Severity) -> nat {
    match s {
        Severity::Low => 0,
        Severity::Medium => 1,
        Severity::High => 2,
        Severity::Critical => 3,
    }
}

impl SeverityWeights {
    /// The points of severity `s`.
    pub fn score(&self, s: &Severity) -> (r: u32)
        ensures
            r == weight_of(*self, *s),
    {
        match s {
            Severity::Low => self.low,
            Severity::Medium => self.medium,
            Severity::High => self.high,
            Severity::Critical => self.critical,
        }
    }
}

fn rank(s: &Severity) -> (r: u8)
    ensures
        r == severity_rank(*s),
{
    match s {
        Severity::Low => 0,
        Severity::Medium => 1,
        Severity::High => 2,
        Severity::Critical => 3,
    }
}

/// Whether a smell of severity `s` stays in a report with least severity
/// `min_severity` and least score `min_score`, where they are set.
pub open spec fn passes(s: Severity, min_severity: Option<Severity>, min_score: Option<u32>, w: SeverityWeights) -> bool {
    &&& match min_severity {
        Some(m) => severity_rank(s) >= severity_rank(m),
        None => true,
    }
    &&& match min_score {
        Some(ms) => weight_of(w, s) >= ms,
        None => true,
    }
}

/// The number of leading smells of `t` that score at least `v`.
pub open spec fn lead(t: Seq<(ArchSmell, Explanation)>, v: u32, w: SeverityWeights) -> nat
    decreases t.len(),
{
    if t.len() == 0 {
        0
    } else if weight_of(w, t[0].0.severity) >= v {
        1 + lead(t.drop_first(), v, w)
    } else {
        0
    }
}

/// `t` with `x` put after its leading smells that score at least as much as
/// `x`.
pub open spec fn insert_by_score(t: Seq<(ArchSmell, Explanation)>, x: (ArchSmell, Explanation), w: SeverityWeights) -> Seq<
    (ArchSmell, Explanation),
> {
    t.insert(lead(t, weight_of(w, x.0.severity), w) as int, x)
}

/// `s` sorted by score, highest first, smells of equal score in the order
/// they come in `s` (a stable sort).
pub open spec fn sort_by_score(s: Seq<(ArchSmell, Explanation)>, w: SeverityWeights) -> Seq<(ArchSmell, Explanation)>
    decreases s.len(),
{
    if s.len() == 0 {
        s
    } else {
        insert_by_score(sort_by_score(s.drop_last(), w), s.last(), w)
    }
}

/// The smells of `s` that stay under the settings, sorted by score.
pub open spec fn severity_applied(
    s: Seq<(ArchSmell, Explanation)>,
    min_severity: Option<Severity>,
    min_score: Option<u32>,
    w: SeverityWeights,
) -> Seq<(ArchSmell, Explanation)> {
    sort_by_score(
        s.filter(|p: (ArchSmell, Explanation)| passes(p.0.severity, min_severity, min_score, w)),
        w,
    )
}

/// Whether the smells of `s` score no more the later they come.
pub open spec fn score_sorted(s: Seq<(ArchSmell, Explanation)>, w: SeverityWeights) -> bool {
    forall|i: int, j: int| 0 <= i < j < s.len() ==> weight_of(w, (#[trigger] s[i]).0.severity) >= weight_of(w, (#[trigger] s[j]).0.severity)
}

proof fn lemma_lead_bound(t: Seq<(ArchSmell, Explanation)>, v: u32, w: SeverityWeights)
    ensures
        lead(t, v, w) <= t.len(),
        forall|i: int| 0 <= i < lead(t, v, w) ==> weight_of(w, (#[trigger] t[i]).0.severity) >= v,
        lead(t, v, w) < t.len() ==> weight_of(w, t[lead(t, v, w) as int].0.severity) < v,
    decreases t.len(),
{
    if t.len() > 0 && weight_of(w, t[0].0.severity) >= v {
        lemma_lead_bound(t.drop_first(), v, w);
        assert forall|i: int| 0 <= i < lead(t, v, w) implies weight_of(w, (#[trigger] t[i]).0.severity) >= v by {
            if i > 0 {
                assert(t[i] == t.drop_first()[i - 1]);
            }
        }
    }
}

/// A stable sort by score leaves its smells sorted, highest score first.
pub proof fn lemma_sort_by_score_sorted(s: Seq<(ArchSmell, Explanation)>, w: SeverityWeights)
    ensures
        score_sorted(sort_by_score(s, w), w),
        sort_by_score(s, w).len() == s.len(),
    decreases s.len(),
{
    if s.len() > 0 {
        let t = sort_by_score(s.drop_last(), w);
        lemma_sort_by_score_sorted(s.drop_last(), w);
        let x = s.last();
        let v = weight_of(w, x.0.severity);
        let k = lead(t, v, w) as int;
        lemma_lead_bound(t, v, w);
        t.insert_ensures(k, x);
        let r = t.insert(k, x);
        assert forall|i: int, j: int| 0 <= i < j < r.len() implies weight_of(w, (#[trigger] r[i]).0.severity) >= weight_of(
            w,
            (#[trigger] r[j]).0.severity,
        ) by {
            if j < k {
            } else if j == k {
                assert(r[i] == t[i]);
            } else if i < k {
                assert(r[j] == t[j - 1]);
            } else if i == k {
                assert(r[j] == t[j - 1]);
                if k < t.len() {
                    if j - 1 > k {
                        assert(weight_of(w, t[k].0.severity) >= weight_of(w, t[j - 1].0.severity));
                    }
                }
            } else {
                assert(r[i] == t[i - 1]);
                assert(r[j] == t[j - 1]);
            }
        }
    }
}

/// A stable sort by score keeps every smell, each as often as it came.
pub proof fn lemma_sort_by_score_permutes(s: Seq<(ArchSmell, Explanation)>, w: SeverityWeights)
    ensures
        sort_by_score(s, w).to_multiset() == s.to_multiset(),
    decreases s.len(),
{
    if s.len() > 0 {
        let t = sort_by_score(s.drop_last(), w);
        lemma_sort_by_score_permutes(s.drop_last(), w);
        lemma_lead_bound(t, weight_of(w, s.last().0.severity), w);
        vstd::seq_lib::to_multiset_insert(t, lead(t, weight_of(w, s.last().0.severity), w) as int, s.last());
        vstd::seq_lib::to_multiset_build(s.drop_last(), s.last());
        assert(s.drop_last().push(s.last()) =~= s);
    } else {
        assert(sort_by_score(s, w) == s);
    }
}

fn passes_exec(s: &Severity, min_severity: Option<Severity>, min_score: Option<u32>, w: &SeverityWeights) -> (r: bool)
    ensures
        r == passes(*s, min_severity, min_score, *w),
{
    let severity_ok = match min_severity {
        Some(m) => rank(s) >= rank(&m),
        None => true,
    };
    let score_ok = match min_score {
        Some(ms) => w.score(s) >= ms,
        None => true,
    };
    severity_ok && score_ok
}

/// The first of two settings that is set, if any.
pub open spec fn first_set<T>(a: Option<T>, b: Option<T>) -> Option<T> {
    match a {
        Some(_) => a,
        None => b,
    }
}

/// Keeps the smells of `smells` that stay under the report's own least
/// severity and least score (`min_severity`, `min_score`), or where these are
/// not set, under those of `config`; sorts them by score, highest first,
/// smells of equal score in the order they came; and recounts `counts`.
pub fn apply_severity_config(
    smells: &mut Vec<(ArchSmell, Explanation)>,
    counts: &mut SmellCounts,
    min_severity: Option<Severity>,
    min_score: Option<u32>,
    config: &SeverityConfig,
)
    ensures
        final(smells)@ == severity_applied(
            old(smells)@,
            first_set(min_severity, config.minimum),
            first_set(min_score, config.minimum_score),
            config.weights,
        ),
        score_sorted(final(smells)@, config.weights),
        final(smells)@.to_multiset() == old(smells)@.filter(
            |p: (ArchSmell, Explanation)|
                passes(
                    p.0.severity,
                    first_set(min_severity, config.minimum),
                    first_set(min_score, config.minimum_score),
                    config.weights,
                ),
        ).to_multiset(),
        counts_match(*final(counts), final(smells)@),
{
    let min_sev = match min_severity {
        Some(m) => Some(m),
        None => config.minimum,
    };
    let min_sc = match min_score {
        Some(m) => Some(m),
        None => config.minimum_score,
    };
    let w = config.weights;
    let ghost orig = smells@;
    let ghost pred = |p: (ArchSmell, Explanation)| passes(p.0.severity, min_sev, min_sc, w);
    let mut out: Vec<(ArchSmell, Explanation)> = Vec::new();
    let ghost mut i: int = 0;
    assert(orig.skip(0) =~= orig);
    assert(orig.take(0) =~= Seq::<(ArchSmell, Explanation)>::empty());
    assert(orig.take(0).filter(pred) == orig.take(0)) by {
        reveal(Seq::filter);
    }
    while smells.len() > 0
        invariant
            0 <= i <= orig.len(),
            smells@ == orig.skip(i),
            out@ == sort_by_score(orig.take(i).filter(pred), w),
            pred == (|p: (ArchSmell, Explanation)| passes(p.0.severity, min_sev, min_sc, w)),
        decreases smells@.len(),
    {
        let x = smells.remove(0);
        proof {
            assert(x == orig[i]);
            assert(smells@ =~= orig.skip(i + 1));
            assert(orig.take(i + 1).drop_last() =~= orig.take(i));
        }
        if passes_exec(&x.0.severity, min_sev, min_sc, &w) {
            let v = w.score(&x.0.severity);
            let ghost f = orig.take(i).filter(pred);
            let mut k: usize = 0;
            assert(out@.skip(0) =~= out@);
            while k < out.len() && w.score(&out[k].0.severity) >= v
                invariant
                    k <= out@.len(),
                    v == weight_of(w, x.0.severity),
                    lead(out@, v, w) == k + lead(out@.skip(k as int), v, w),
                decreases out@.len() - k,
            {
                assert(out@.skip(k as int)[0] == out@[k as int]);
                assert(out@.skip(k as int).drop_first() =~= out@.skip(k + 1));
                k = k + 1;
            }
            proof {
                if k < out@.len() {
                    assert(out@.skip(k as int)[0] == out@[k as int]);
                }
                assert(f.push(x).drop_last() =~= f);
            }
            let ghost prev = out@;
            out.insert(k, x);
            proof {
                assert(k == lead(prev, v, w));
                assert(pred(x));
                reveal(Seq::filter);
                let t = orig.take(i + 1);
                assert(t.len() > 0);
                assert(t.last() == x);
                assert(t.drop_last() == orig.take(i));
                assert(t.filter(pred) == t.drop_last().filter(pred).push(t.last()));
                assert(orig.take(i + 1).filter(pred) == f.push(x));
                assert(sort_by_score(f.push(x), w) == insert_by_score(sort_by_score(f, w), x, w));
            }
        } else {
            proof {
                assert(!pred(x));
                reveal(Seq::filter);
                let t = orig.take(i + 1);
                assert(t.len() > 0);
                assert(t.last() == x);
                assert(t.drop_last() == orig.take(i));
                assert(t.filter(pred) == t.drop_last().filter(pred));
                assert(orig.take(i + 1).filter(pred) == orig.take(i).filter(pred));
            }
        }
        proof {
            i = i + 1;
        }
    }
    proof {
        assert(orig.take(i) =~= orig);
        lemma_sort_by_score_sorted(orig.filter(pred), w);
        lemma_sort_by_score_permutes(orig.filter(pred), w);
    }
    *smells = out;
    counts.update_counts(smells.as_slice());
}

/// Whether one of `smells` is of severity `s`.
pub open spec fn has_severity(smells: Seq<(ArchSmell, Explanation)>, s: Severity) -> bool {
    exists|i: int| 0 <= i < smells.len() && (#[trigger] smells[i]).0.severity == s
}

/// The exit code that `smells` call for: 2 where one is critical, else 1
/// where one is of high severity, else 0.
pub open spec fn exit_code_for(smells: Seq<(ArchSmell, Explanation)>) -> i32 {
    if has_severity(smells, Severity::Critical) {
        2
    } else if has_severity(smells, Severity::High) {
        1
    } else {
        0
    }
}

/// The exit code that `smells` call for.
pub fn determine_exit_code(smells: &[(ArchSmell, Explanation)]) -> (r: i32)
    ensures
        r == exit_code_for(smells@),
{
    let mut has_critical = false;
    let mut has_high = false;
    let mut i: usize = 0;
    while i < smells.len()
        invariant
            i <= smells@.len(),
            has_critical == has_severity(smells@.take(i as int), Severity::Critical),
            has_high == has_severity(smells@.take(i as int), Severity::High),
        decreases smells@.len() - i,
    {
        let ghost before = smells@.take(i as int);
        let ghost after = smells@.take(i + 1);
        proof {
            assert forall|j: int| 0 <= j < before.len() implies #[trigger] before[j] == after[j] by {}
            assert(after[i as int] == smells@[i as int]);
            if has_severity(after, Severity::Critical) {
                let j = choose|j: int| 0 <= j < after.len() && (#[trigger] after[j]).0.severity == Severity::Critical;
                if j < i {
                    assert(before[j] == after[j]);
                }
            }
            if has_severity(after, Severity::High) {
                let j = choose|j: int| 0 <= j < after.len() && (#[trigger] after[j]).0.severity == Severity::High;
                if j < i {
                    assert(before[j] == after[j]);
                }
            }
        }
        match smells[i].0.severity {
            Severity::Critical => {
                has_critical = true;
            },
            Severity::High => {
                has_high = true;
            },
            _ => {},
        }
        proof {
            if has_critical {
                if !has_severity(before, Severity::Critical) {
                    assert(after[i as int].0.severity == Severity::Critical);
                }
            }
            if has_high {
                if !has_severity(before, Severity::High) {
                    assert(after[i as int].0.severity == Severity::High);
                }
            }
            if has_severity(before, Severity::Critical) {
                let j = choose|j: int| 0 <= j < before.len() && (#[trigger] before[j]).0.severity == Severity::Critical;
                assert(after[j] == before[j]);
            }
            if has_severity(before, Severity::High) {
                let j = choose|j: int| 0 <= j < before.len() && (#[trigger] before[j]).0.severity == Severity::High;
                assert(after[j] == before[j]);
            }
        }
        i = i + 1;
    }
    assert(smells@.take(smells@.len() as int) =~= smells@);
    if has_critical {
        2
    } else if has_high {
        1
    } else {
        0
    }
}

/// The points of all of `smells` together.
pub open spec fn total_points(smells: Seq<(ArchSmell, Explanation)>, w: SeverityWeights) -> nat
    decreases smells.len(),
{
    if smells.len() == 0 {
        0
    } else {
        total_points(smells.drop_last(), w) + weight_of(w, smells.last().0.severity) as nat
    }
}

proof fn lemma_total_points_prefix(smells: Seq<(ArchSmell, Explanation)>, w: SeverityWeights, i: int)
    requires
        0 <= i <= smells.len(),
    ensures
        total_points(smells.take(i), w) <= total_points(smells, w),
    decreases smells.len(),
{
    if i < smells.len() {
        assert(smells.drop_last().take(i) =~= smells.take(i));
        lemma_total_points_prefix(smells.drop_last(), w, i);
    } else {
        assert(smells.take(i) =~= smells);
    }
}

/// The points of all of `smells` under `weights`.
pub fn total_score(smells: &[(ArchSmell, Explanation)], weights: &SeverityWeights) -> (r: u32)
    requires
        total_points(smells@, *weights) <= u32::MAX,
    ensures
        r == total_points(smells@, *weights),
{
    let mut total: u32 = 0;
    let mut i: usize = 0;
    while i < smells.len()
        invariant
            i <= smells@.len(),
            total_points(smells@, *weights) <= u32::MAX,
            total == total_points(smells@.take(i as int), *weights),
        decreases smells@.len() - i,
    {
        proof {
            assert(smells@.take(i + 1).drop_last() =~= smells@.take(i as int));
            lemma_total_points_prefix(smells@, *weights, i + 1);
        }
        total = total + weights.score(&smells[i].0.severity);
        i = i + 1;
    }
    assert(smells@.take(smells@.len() as int) =~= smells@);
    total
}

} // verus!
