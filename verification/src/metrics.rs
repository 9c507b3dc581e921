//! Per-file metrics.

use vstd::prelude::*;
use crate::text::{str_eq, str_views};

verus! {

/// How many files a file is imported by and imports, and how often it changed.
#[derive(Debug, Clone, Copy, PartialEq, Eq, Structural)]
pub struct FileMetrics {
    pub fan_in: usize,
    pub fan_out: usize,
    pub churn: usize,
}

impl FileMetrics {
    /// Metrics with the given values.
    pub fn new(fan_in: usize, fan_out: usize, churn: usize) -> (r: Self)
        ensures
            r.fan_in == fan_in,
            r.fan_out == fan_out,
            r.churn == churn,
    {
        FileMetrics { fan_in, fan_out, churn }
    }
}

/// How often each tracked file changed in the history walked so far.
pub struct ChurnMap {
    /// Each tracked file, once, with its count of changes.
    pub counts: Vec<(String, usize)>,
}

/// The files of `counts`.
pub open spec fn churn_files(counts: Seq<(String, usize)>) -> Seq<Seq<char>> {
    counts.map_values(|p: (String, usize)| p.0@)
}

/// Each of `files` once, in the order it first occurs.
pub open spec fn first_occurrences(files: Seq<Seq<char>>) -> Seq<Seq<char>>
    decreases files.len(),
{
    if files.len() == 0 {
        files
    } else {
        let prev = first_occurrences(files.drop_last());
        if prev.contains(files.last()) {
            prev
        } else {
            prev.push(files.last())
        }
    }
}

impl ChurnMap {
    /// Each file once.
    pub open spec fn wf(&self) -> bool {
        churn_files(self.counts@).no_duplicates()
    }

    /// A map that tracks `files`, each with no change yet.
    pub fn new(files: &[String]) -> (r: Self)
        ensures
            r.wf(),
            churn_files(r.counts@) == first_occurrences(str_views(files@)),
            forall|i: int| 0 <= i < r.counts@.len() ==> #[trigger] r.counts@[i].1 == 0,
    {
        let mut counts: Vec<(String, usize)> = Vec::new();
        let ghost fv = str_views(files@);
        let mut i: usize = 0;
        assert(fv.take(0) =~= Seq::<Seq<char>>::empty());
        assert(churn_files(counts@) =~= first_occurrences(fv.take(0)));
        while i < files.len()
            invariant
                i <= files@.len(),
                fv == str_views(files@),
                churn_files(counts@) == first_occurrences(fv.take(i as int)),
                churn_files(counts@).no_duplicates(),
                forall|k: int| 0 <= k < counts@.len() ==> #[trigger] counts@[k].1 == 0,
            decreases files@.len() - i,
        {
            proof {
                assert(fv.take(i + 1).drop_last() =~= fv.take(i as int));
                assert(fv.take(i + 1).last() == fv[i as int]);
            }
            let mut k: usize = 0;
            let mut seen = false;
            while k < counts.len()
                invariant
                    k <= counts@.len(),
                    i < files@.len(),
                    seen == exists|j: int| 0 <= j < k && counts@[j].0@ == files@[i as int]@,
                decreases counts@.len() - k,
            {
                if str_eq(counts[k].0.as_str(), files[i].as_str()) {
                    seen = true;
                }
                k = k + 1;
            }
            let ghost before = churn_files(counts@);
            proof {
                if seen {
                    let j = choose|j: int| 0 <= j < counts@.len() && counts@[j].0@ == files@[i as int]@;
                    assert(before[j] == fv[i as int]);
                }
                if before.contains(fv[i as int]) {
                    let j = choose|j: int| 0 <= j < before.len() && before[j] == fv[i as int];
                    assert(counts@[j].0@ == files@[i as int]@);
                }
            }
            if !seen {
                counts.push((files[i].clone(), 0));
                proof {
                    assert(churn_files(counts@) =~= before.push(fv[i as int]));
                    assert forall|a: int, b: int| 0 <= a < b < churn_files(counts@).len() implies churn_files(counts@)[a] != churn_files(counts@)[b] by {
                        if b == before.len() {
                            assert(before.contains(before[a]));
                        }
                    }
                }
            }
            i = i + 1;
        }
        assert(fv.take(files@.len() as int) =~= fv);
        ChurnMap { counts }
    }

    /// Counts a change of the file `path`, where it is tracked; a count at
    /// the largest `usize` stays there.
    pub fn record_change(&mut self, path: &str)
        requires
            old(self).wf(),
        ensures
            final(self).wf(),
            final(self).counts@.len() == old(self).counts@.len(),
            forall|i: int| 0 <= i < final(self).counts@.len() ==> {
                &&& #[trigger] final(self).counts@[i].0 == old(self).counts@[i].0
                &&& final(self).counts@[i].1 == if old(self).counts@[i].0@ == path@ {
                    if old(self).counts@[i].1 < usize::MAX { (old(self).counts@[i].1 + 1) as usize } else { old(self).counts@[i].1 }
                } else {
                    old(self).counts@[i].1
                }
            },
    {
        let mut k: usize = 0;
        while k < self.counts.len()
            invariant
                k <= self.counts@.len(),
                self.counts@ == old(self).counts@,
                churn_files(self.counts@).no_duplicates(),
                forall|j: int| 0 <= j < k ==> #[trigger] self.counts@[j].0@ != path@,
            decreases self.counts@.len() - k,
        {
            if str_eq(self.counts[k].0.as_str(), path) {
                let ghost prev = self.counts@;
                let (name, count) = self.counts.remove(k);
                let next = if count < usize::MAX { count + 1 } else { count };
                self.counts.insert(k, (name, next));
                proof {
                    assert forall|i: int| 0 <= i < self.counts@.len() implies #[trigger] self.counts@[i].0 == prev[i].0 by {
                        if i != k {
                            assert(self.counts@[i] == prev[i]);
                        }
                    }
                    assert forall|i: int| 0 <= i < self.counts@.len() && i != k implies prev[i].0@ != path@ by {
                        let fs = churn_files(prev);
                        if i > k {
                            assert(fs[k as int] != fs[i]);
                        }
                    }
                    assert(churn_files(self.counts@) =~= churn_files(prev));
                }
                return;
            }
            k = k + 1;
        }
    }

    /// The count of changes of `path`, where it is tracked.
    pub fn churn_of(&self, path: &str) -> (r: Option<usize>)
        requires
            self.wf(),
        ensures
            match r {
                Some(c) => exists|i: int| 0 <= i < self.counts@.len() && #[trigger] self.counts@[i].0@ == path@ && self.counts@[i].1 == c,
                None => forall|i: int| 0 <= i < self.counts@.len() ==> #[trigger] self.counts@[i].0@ != path@,
            },
    {
        let mut k: usize = 0;
        while k < self.counts.len()
            invariant
                k <= self.counts@.len(),
                forall|j: int| 0 <= j < k ==> #[trigger] self.counts@[j].0@ != path@,
            decreases self.counts@.len() - k,
        {
            if str_eq(self.counts[k].0.as_str(), path) {
                return Some(self.counts[k].1);
            }
            k = k + 1;
        }
        None
    }
}

} // verus!
