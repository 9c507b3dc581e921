//! The files affected by a change: the changed files and, transitively,
//! every file that imports an affected one.

use vstd::prelude::*;
use crate::text::{list_contains, str_eq, str_views};

verus! {

/// Whether `x` is reached from `from` in at most `n` steps, each step going
/// from a file to a file that imports it (an edge `(file, importer)`).
pub open spec fn reaches(edges: Seq<(Seq<char>, Seq<char>)>, from: Seq<Seq<char>>, x: Seq<char>, n: nat) -> bool
    decreases n,
{
    if n == 0 {
        from.contains(x)
    } else {
        reaches(edges, from, x, (n - 1) as nat) || exists|k: int|
            0 <= k < edges.len() && (#[trigger] edges[k]).1 == x && reaches(edges, from, edges[k].0, (n - 1) as nat)
    }
}

/// Whether `x` is affected by a change of `from`: it is reached in some number of steps.
pub open spec fn is_affected(edges: Seq<(Seq<char>, Seq<char>)>, from: Seq<Seq<char>>, x: Seq<char>) -> bool {
    exists|n: nat| #[trigger] reaches(edges, from, x, n)
}

/// Who imports whom: each edge is a file and a file that imports it.
pub struct ReverseDeps {
    edges: Vec<(String, String)>,
}

/// The edges as plain values.
pub open spec fn edge_views(e: Seq<(String, String)>) -> Seq<(Seq<char>, Seq<char>)> {
    e.map_values(|p: (String, String)| (p.0@, p.1@))
}

/// How many entries of `u` are not in `v`.
pub open spec fn unvisited(u: Seq<Seq<char>>, v: Seq<Seq<char>>) -> nat
    decreases u.len(),
{
    if u.len() == 0 {
        0
    } else {
        unvisited(u.drop_last(), v) + if v.contains(u.last()) { 0nat } else { 1nat }
    }
}

proof fn lemma_unvisited_shrinks(u: Seq<Seq<char>>, v: Seq<Seq<char>>, x: Seq<char>)
    ensures
        unvisited(u, v.push(x)) <= unvisited(u, v),
        u.contains(x) && !v.contains(x) ==> unvisited(u, v.push(x)) < unvisited(u, v),
    decreases u.len(),
{
    if u.len() > 0 {
        lemma_unvisited_shrinks(u.drop_last(), v, x);
        crate::text::lemma_push_contains(v, x, u.last());
        if u.contains(x) && !v.contains(x) && u.last() != x {
            let i = choose|i: int| 0 <= i < u.len() && u[i] == x;
            assert(u.drop_last()[i] == x);
        }
    }
}

/// Reaching in `n` steps reaches in more.
proof fn lemma_reaches_mono(edges: Seq<(Seq<char>, Seq<char>)>, from: Seq<Seq<char>>, x: Seq<char>, n: nat, m: nat)
    requires
        reaches(edges, from, x, n),
        n <= m,
    ensures
        reaches(edges, from, x, m),
    decreases m - n,
{
    if n < m {
        lemma_reaches_mono(edges, from, x, n, (m - 1) as nat);
    }
}

/// A set that holds `from` and every importer of what it holds holds every affected file.
proof fn lemma_closed_holds_affected(
    edges: Seq<(Seq<char>, Seq<char>)>,
    from: Seq<Seq<char>>,
    v: Seq<Seq<char>>,
    x: Seq<char>,
    n: nat,
)
    requires
        forall|c: Seq<char>| from.contains(c) ==> v.contains(c),
        forall|k: int| 0 <= k < edges.len() && v.contains((#[trigger] edges[k]).0) ==> v.contains(edges[k].1),
        reaches(edges, from, x, n),
    ensures
        v.contains(x),
    decreases n,
{
    if n > 0 {
        if reaches(edges, from, x, (n - 1) as nat) {
            lemma_closed_holds_affected(edges, from, v, x, (n - 1) as nat);
        } else {
            let k = choose|k: int| 0 <= k < edges.len() && (#[trigger] edges[k]).1 == x && reaches(edges, from, edges[k].0, (n - 1) as nat);
            lemma_closed_holds_affected(edges, from, v, edges[k].0, (n - 1) as nat);
        }
    }
}

/// The pairs of `s` whose side `importer_side` (the importer where true,
/// the imported file where false) is not `x`, in order.
pub open spec fn pairs_without(s: Seq<(Seq<char>, Seq<char>)>, x: Seq<char>, importer_side: bool) -> Seq<(Seq<char>, Seq<char>)>
    decreases s.len(),
{
    if s.len() == 0 {
        s
    } else {
        let prev = pairs_without(s.drop_last(), x, importer_side);
        let p = s.last();
        if (if importer_side { p.1 } else { p.0 }) == x {
            prev
        } else {
            prev.push(p)
        }
    }
}

/// A pair is kept exactly when it is there and its side is not `x`.
pub proof fn lemma_pairs_without(s: Seq<(Seq<char>, Seq<char>)>, x: Seq<char>, importer_side: bool, p: (Seq<char>, Seq<char>))
    ensures
        pairs_without(s, x, importer_side).contains(p) <==> (s.contains(p) && (if importer_side { p.1 } else { p.0 }) != x),
    decreases s.len(),
{
    if s.len() > 0 {
        lemma_pairs_without(s.drop_last(), x, importer_side, p);
        crate::text::lemma_push_contains(s.drop_last(), s.last(), p);
        assert(s =~= s.drop_last().push(s.last()));
        let prev = pairs_without(s.drop_last(), x, importer_side);
        crate::text::lemma_push_contains(prev, s.last(), p);
    }
}

impl ReverseDeps {
    /// The edges, as plain values.
    pub closed spec fn edges_view(&self) -> Seq<(Seq<char>, Seq<char>)> {
        edge_views(self.edges@)
    }

    /// No edge.
    pub fn new() -> (r: Self)
        ensures
            r.edges_view() == Seq::<(Seq<char>, Seq<char>)>::empty(),
    {
        let r = ReverseDeps { edges: Vec::new() };
        assert(r.edges_view() =~= Seq::<(Seq<char>, Seq<char>)>::empty());
        r
    }

    /// Records that `importer` imports `file`.
    pub fn add_importer(&mut self, file: &str, importer: &str)
        ensures
            final(self).edges_view() == old(self).edges_view().push((file@, importer@)),
    {
        self.edges.push((file.to_owned(), importer.to_owned()));
        assert(self.edges_view() =~= old(self).edges_view().push((file@, importer@)));
    }

    /// Forgets every pair whose side `importer_side` (the importer where true,
    /// the imported file where false) is `x`.
    pub fn remove_pairs(&mut self, x: &str, importer_side: bool)
        ensures
            final(self).edges_view() == pairs_without(old(self).edges_view(), x@, importer_side),
    {
        let ghost ev = self.edges_view();
        let mut kept: Vec<(String, String)> = Vec::new();
        let mut i: usize = 0;
        assert(ev.take(0) =~= Seq::<(Seq<char>, Seq<char>)>::empty());
        assert(edge_views(kept@) =~= pairs_without(ev.take(0), x@, importer_side));
        while i < self.edges.len()
            invariant
                i <= self.edges@.len(),
                ev == self.edges_view(),
                edge_views(kept@) == pairs_without(ev.take(i as int), x@, importer_side),
            decreases self.edges@.len() - i,
        {
            let side = if importer_side { self.edges[i].1.as_str() } else { self.edges[i].0.as_str() };
            proof {
                assert(ev.take(i + 1).drop_last() =~= ev.take(i as int));
                assert(ev.take(i + 1).last() == ev[i as int]);
            }
            if !str_eq(side, x) {
                let ghost before = edge_views(kept@);
                kept.push((self.edges[i].0.clone(), self.edges[i].1.clone()));
                assert(edge_views(kept@) =~= before.push(ev[i as int]));
            }
            i = i + 1;
        }
        assert(ev.take(ev.len() as int) =~= ev);
        self.edges = kept;
    }

    /// Every file affected by a change of `changed`, each once: the changed
    /// files and, transitively, the files that import an affected file.
    pub fn get_affected_files(&self, changed: &[String]) -> (r: Vec<String>)
        ensures
            forall|x: Seq<char>| #[trigger] str_views(r@).contains(x) <==> is_affected(self.edges_view(), str_views(changed@), x),
            forall|i: int, j: int| 0 <= i < j < r@.len() ==> r@[i]@ != r@[j]@,
    {
        let ghost ev = self.edges_view();
        let ghost from = str_views(changed@);
        let ghost universe = from + ev.map_values(|e: (Seq<char>, Seq<char>)| e.1);
        let mut visited: Vec<String> = Vec::new();
        let mut queue: Vec<String> = Vec::new();
        let mut c: usize = 0;
        while c < changed.len()
            invariant
                c <= changed@.len(),
                from == str_views(changed@),
                str_views(queue@) == from.take(c as int),
            decreases changed@.len() - c,
        {
            let ghost before = str_views(queue@);
            queue.push(changed[c].clone());
            assert(str_views(queue@) =~= before.push(from[c as int]));
            assert(from.take(c + 1) =~= from.take(c as int).push(from[c as int]));
            c = c + 1;
        }
        proof {
            assert(from.take(changed@.len() as int) =~= from);
            assert(str_views(queue@) == from);
            assert forall|q: Seq<char>| #[trigger] str_views(queue@).contains(q) implies is_affected(ev, from, q) by {
                assert(from.contains(q));
                assert(reaches(ev, from, q, 0));
            }
            assert forall|q: Seq<char>| #[trigger] str_views(queue@).contains(q) implies universe.contains(q) by {
                let i = choose|i: int| 0 <= i < from.len() && from[i] == q;
                assert(universe[i] == q);
            }
            assert(str_views(visited@) =~= Seq::<Seq<char>>::empty());
        }
        loop
            invariant
                ev == self.edges_view(),
                ev == edge_views(self.edges@),
                from == str_views(changed@),
                universe == from + ev.map_values(|e: (Seq<char>, Seq<char>)| e.1),
                all_affected(ev, from, str_views(visited@)),
                all_affected(ev, from, str_views(queue@)),
                all_in(universe, str_views(visited@)),
                all_in(universe, str_views(queue@)),
                from_covered(from, str_views(visited@), str_views(queue@)),
                closed_via(ev, str_views(visited@), str_views(queue@)),
                forall|i: int, j: int| 0 <= i < j < visited@.len() ==> visited@[i]@ != visited@[j]@,
            ensures
                all_affected(ev, from, str_views(visited@)),
                from_covered(from, str_views(visited@), Seq::empty()),
                closed_via(ev, str_views(visited@), Seq::empty()),
                forall|i: int, j: int| 0 <= i < j < visited@.len() ==> visited@[i]@ != visited@[j]@,
            decreases unvisited(universe, str_views(visited@)), queue@.len(),
        {
            if queue.len() == 0 {
                proof {
                    assert(str_views(queue@) =~= Seq::<Seq<char>>::empty());
                }
                break;
            }
            let ghost q_before = str_views(queue@);
            let ghost queue_before = queue@;
            let file = queue.pop().unwrap();
            let ghost qv = str_views(queue@);
            let ghost vv = str_views(visited@);
            proof {
                assert(queue_before =~= queue@.push(file));
                assert(q_before =~= qv.push(file@));
                lemma_push_contains_all(qv, file@);
                assert(q_before.contains(file@));
            }
            if list_contains(visited.as_slice(), file.as_str()) {
                proof {
                    let j = choose|j: int| 0 <= j < visited@.len() && #[trigger] visited@[j]@ == file@;
                    assert(vv[j] == file@);
                    assert(vv.contains(file@));
                    lemma_pop_keeps(ev, from, universe, vv, qv, file@);
                }
                continue;
            }
            proof {
                lemma_unvisited_shrinks(universe, vv, file@);
                assert(universe.contains(file@));
                assert(is_affected(ev, from, file@));
                assert forall|q: Seq<char>| #[trigger] qv.contains(q) implies is_affected(ev, from, q) by {
                    assert(q_before.contains(q));
                }
                assert forall|q: Seq<char>| #[trigger] qv.contains(q) implies universe.contains(q) by {
                    assert(q_before.contains(q));
                }
                assert(all_affected(ev, from, qv));
                assert(all_in(universe, qv));
            }
            let ghost n_file = choose|n: nat| #[trigger] reaches(ev, from, file@, n);
            visited.push(file.clone());
            let ghost vv1 = str_views(visited@);
            proof {
                assert(vv1 =~= vv.push(file@));
                lemma_push_contains_all(vv, file@);
            }
            let mut k: usize = 0;
            while k < self.edges.len()
                invariant
                    k <= self.edges@.len(),
                    ev == edge_views(self.edges@),
                    from == str_views(changed@),
                    universe == from + ev.map_values(|e: (Seq<char>, Seq<char>)| e.1),
                    vv1 == str_views(visited@),
                    reaches(ev, from, file@, n_file),
                    all_affected(ev, from, str_views(queue@)),
                    all_in(universe, str_views(queue@)),
                    forall|q: Seq<char>| qv.contains(q) ==> #[trigger] str_views(queue@).contains(q),
                    forall|kk: int| 0 <= kk < k && (#[trigger] ev[kk]).0 == file@ ==> vv1.contains(ev[kk].1) || str_views(queue@).contains(ev[kk].1),
                decreases self.edges@.len() - k,
            {
                if str_eq(self.edges[k].0.as_str(), file.as_str()) {
                    let importer = &self.edges[k].1;
                    if !list_contains(visited.as_slice(), importer.as_str()) {
                        let ghost q0 = str_views(queue@);
                        queue.push(importer.clone());
                        proof {
                            assert(str_views(queue@) =~= q0.push(importer@));
                            lemma_push_contains_all(q0, importer@);
                            assert(ev[k as int].1 == importer@);
                            assert(ev[k as int].0 == file@);
                            assert(reaches(ev, from, importer@, n_file + 1));
                            assert(is_affected(ev, from, importer@));
                            let idx = from.len() + k;
                            assert(universe[idx] == importer@);
                        }
                    } else {
                        proof {
                            let j = choose|j: int| 0 <= j < visited@.len() && #[trigger] visited@[j]@ == importer@;
                            assert(vv1[j] == importer@);
                        }
                    }
                }
                k = k + 1;
            }
            proof {
                let qn = str_views(queue@);
                lemma_visit_keeps(ev, from, universe, vv, qv, qn, file@);
                assert forall|i: int, j: int| 0 <= i < j < visited@.len() implies visited@[i]@ != visited@[j]@ by {
                    if j == visited@.len() - 1 {
                        assert(vv[i] == visited@[i]@);
                    }
                }
            }
        }
        proof {
            let vv = str_views(visited@);
            assert forall|x: Seq<char>| #[trigger] vv.contains(x) <==> is_affected(ev, from, x) by {
                if is_affected(ev, from, x) {
                    let n = choose|n: nat| #[trigger] reaches(ev, from, x, n);
                    lemma_closed_holds_affected(ev, from, vv, x, n);
                }
            }
        }
        visited
    }
}

/// Every entry of `s` is affected.
pub open spec fn all_affected(ev: Seq<(Seq<char>, Seq<char>)>, from: Seq<Seq<char>>, s: Seq<Seq<char>>) -> bool {
    forall|q: Seq<char>| #[trigger] s.contains(q) ==> is_affected(ev, from, q)
}

/// Every entry of `s` is in `u`.
pub open spec fn all_in(u: Seq<Seq<char>>, s: Seq<Seq<char>>) -> bool {
    forall|q: Seq<char>| #[trigger] s.contains(q) ==> u.contains(q)
}

/// Every changed file is visited or waiting.
pub open spec fn from_covered(from: Seq<Seq<char>>, v: Seq<Seq<char>>, q: Seq<Seq<char>>) -> bool {
    forall|f: Seq<char>| #[trigger] from.contains(f) ==> v.contains(f) || q.contains(f)
}

/// Every importer of a visited file is visited or waiting.
pub open spec fn closed_via(ev: Seq<(Seq<char>, Seq<char>)>, v: Seq<Seq<char>>, q: Seq<Seq<char>>) -> bool {
    forall|k: int| 0 <= k < ev.len() && v.contains((#[trigger] ev[k]).0) ==> v.contains(ev[k].1) || q.contains(ev[k].1)
}

proof fn lemma_push_contains_all(s: Seq<Seq<char>>, x: Seq<char>)
    ensures
        forall|y: Seq<char>| #[trigger] s.push(x).contains(y) == (s.contains(y) || y == x),
{
    assert forall|y: Seq<char>| #[trigger] s.push(x).contains(y) == (s.contains(y) || y == x) by {
        crate::text::lemma_push_contains(s, x, y);
    }
}

/// Dropping an already visited file from the queue keeps the loop's facts.
proof fn lemma_pop_keeps(
    ev: Seq<(Seq<char>, Seq<char>)>,
    from: Seq<Seq<char>>,
    universe: Seq<Seq<char>>,
    vv: Seq<Seq<char>>,
    qv: Seq<Seq<char>>,
    file: Seq<char>,
)
    requires
        vv.contains(file),
        all_affected(ev, from, qv.push(file)),
        all_in(universe, qv.push(file)),
        from_covered(from, vv, qv.push(file)),
        closed_via(ev, vv, qv.push(file)),
    ensures
        all_affected(ev, from, qv),
        all_in(universe, qv),
        from_covered(from, vv, qv),
        closed_via(ev, vv, qv),
{
    lemma_push_contains_all(qv, file);
    assert forall|q: Seq<char>| #[trigger] qv.contains(q) implies is_affected(ev, from, q) by {
        assert(qv.push(file).contains(q));
    }
    assert forall|q: Seq<char>| #[trigger] qv.contains(q) implies universe.contains(q) by {
        assert(qv.push(file).contains(q));
    }
    assert forall|f: Seq<char>| #[trigger] from.contains(f) implies vv.contains(f) || qv.contains(f) by {
        assert(vv.contains(f) || qv.push(file).contains(f));
    }
    assert forall|k: int| 0 <= k < ev.len() && vv.contains((#[trigger] ev[k]).0) implies vv.contains(ev[k].1) || qv.contains(ev[k].1) by {
        assert(vv.contains(ev[k].1) || qv.push(file).contains(ev[k].1));
    }
}

/// Visiting `file` (and queueing its importers) keeps the loop's facts.
proof fn lemma_visit_keeps(
    ev: Seq<(Seq<char>, Seq<char>)>,
    from: Seq<Seq<char>>,
    universe: Seq<Seq<char>>,
    vv: Seq<Seq<char>>,
    qv: Seq<Seq<char>>,
    qn: Seq<Seq<char>>,
    file: Seq<char>,
)
    requires
        is_affected(ev, from, file),
        universe.contains(file),
        all_affected(ev, from, vv),
        all_in(universe, vv),
        all_affected(ev, from, qn),
        all_in(universe, qn),
        from_covered(from, vv, qv.push(file)),
        closed_via(ev, vv, qv.push(file)),
        forall|q: Seq<char>| qv.contains(q) ==> #[trigger] qn.contains(q),
        forall|kk: int| 0 <= kk < ev.len() && (#[trigger] ev[kk]).0 == file ==> vv.push(file).contains(ev[kk].1) || qn.contains(ev[kk].1),
    ensures
        all_affected(ev, from, vv.push(file)),
        all_in(universe, vv.push(file)),
        from_covered(from, vv.push(file), qn),
        closed_via(ev, vv.push(file), qn),
{
    lemma_push_contains_all(qv, file);
    lemma_push_contains_all(vv, file);
    let v1 = vv.push(file);
    assert forall|q: Seq<char>| #[trigger] v1.contains(q) implies is_affected(ev, from, q) by {
        if q != file {
            assert(vv.contains(q));
        }
    }
    assert forall|q: Seq<char>| #[trigger] v1.contains(q) implies universe.contains(q) by {
        if q != file {
            assert(vv.contains(q));
        }
    }
    assert forall|f: Seq<char>| #[trigger] from.contains(f) implies v1.contains(f) || qn.contains(f) by {
        assert(vv.contains(f) || qv.push(file).contains(f));
        if qv.contains(f) {
            assert(qn.contains(f));
        }
    }
    assert forall|k: int| 0 <= k < ev.len() && v1.contains((#[trigger] ev[k]).0) implies v1.contains(ev[k].1) || qn.contains(ev[k].1) by {
        if ev[k].0 == file {
        } else {
            assert(vv.contains(ev[k].0));
            assert(vv.contains(ev[k].1) || qv.push(file).contains(ev[k].1));
            if qv.contains(ev[k].1) {
                assert(qn.contains(ev[k].1));
            }
        }
    }
}

/// Every changed file is affected, and every file that imports an affected
/// file is affected.
pub proof fn lemma_affected_closed(
    edges: Seq<(Seq<char>, Seq<char>)>,
    from: Seq<Seq<char>>,
    x: Seq<char>,
    k: int,
)
    ensures
        from.contains(x) ==> is_affected(edges, from, x),
        0 <= k < edges.len() && is_affected(edges, from, edges[k].0) ==> is_affected(edges, from, edges[k].1),
{
    if from.contains(x) {
        assert(reaches(edges, from, x, 0));
    }
    if 0 <= k < edges.len() && is_affected(edges, from, edges[k].0) {
        let n = choose|n: nat| #[trigger] reaches(edges, from, edges[k].0, n);
        assert(reaches(edges, from, edges[k].1, n + 1));
    }
}

} // verus!
