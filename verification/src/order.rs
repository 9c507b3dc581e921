//! The order of strings (lexicographic by character), and sorting by it.

use vstd::prelude::*;
use vstd::relations::{sorted_by, total_ordering};
use crate::text::{chars_of, str_views};

verus! {

/// Whether `a` comes before `b` or equals it: lexicographic order by
/// character code, a proper prefix first. This is the order of `String`,
/// since UTF-8 keeps the order of code points.
pub open spec fn str_leq(a: Seq<char>, b: Seq<char>) -> bool
    decreases a.len(),
{
    if a.len() == 0 {
        true
    } else if b.len() == 0 {
        false
    } else if a[0] != b[0] {
        a[0] < b[0]
    } else {
        str_leq(a.drop_first(), b.drop_first())
    }
}

/// The order of strings, as a relation.
pub open spec fn str_order() -> spec_fn(Seq<char>, Seq<char>) -> bool {
    |a: Seq<char>, b: Seq<char>| str_leq(a, b)
}

pub proof fn lemma_str_leq_reflexive(a: Seq<char>)
    ensures
        str_leq(a, a),
    decreases a.len(),
{
    if a.len() > 0 {
        lemma_str_leq_reflexive(a.drop_first());
    }
}

pub proof fn lemma_str_leq_antisymmetric(a: Seq<char>, b: Seq<char>)
    requires
        str_leq(a, b),
        str_leq(b, a),
    ensures
        a == b,
    decreases a.len(),
{
    if a.len() > 0 && b.len() > 0 {
        lemma_str_leq_antisymmetric(a.drop_first(), b.drop_first());
        assert(a =~= seq![a[0]] + a.drop_first());
        assert(b =~= seq![b[0]] + b.drop_first());
    }
}

pub proof fn lemma_str_leq_transitive(a: Seq<char>, b: Seq<char>, c: Seq<char>)
    requires
        str_leq(a, b),
        str_leq(b, c),
    ensures
        str_leq(a, c),
    decreases a.len(),
{
    if a.len() > 0 && b.len() > 0 && c.len() > 0 && a[0] == b[0] && b[0] == c[0] {
        lemma_str_leq_transitive(a.drop_first(), b.drop_first(), c.drop_first());
    }
}

pub proof fn lemma_str_leq_total(a: Seq<char>, b: Seq<char>)
    ensures
        str_leq(a, b) || str_leq(b, a),
    decreases a.len(),
{
    if a.len() > 0 && b.len() > 0 && a[0] == b[0] {
        lemma_str_leq_total(a.drop_first(), b.drop_first());
    }
}

/// The order of strings is a total order.
pub proof fn lemma_str_order_total()
    ensures
        total_ordering(str_order()),
{
    assert forall|x: Seq<char>| #[trigger] str_order()(x, x) by {
        lemma_str_leq_reflexive(x);
    }
    assert forall|x: Seq<char>, y: Seq<char>| #[trigger] str_order()(x, y) && #[trigger] str_order()(y, x) implies x == y by {
        lemma_str_leq_antisymmetric(x, y);
    }
    assert forall|x: Seq<char>, y: Seq<char>, z: Seq<char>| #[trigger] str_order()(x, y) && #[trigger] str_order()(y, z) implies str_order()(x, z) by {
        lemma_str_leq_transitive(x, y, z);
    }
    assert forall|x: Seq<char>, y: Seq<char>| #[trigger] str_order()(x, y) || #[trigger] str_order()(y, x) by {
        lemma_str_leq_total(x, y);
    }
}

/// Whether `a` comes before `b` or equals it, in the order of strings.
pub fn str_le(a: &str, b: &str) -> (r: bool)
    ensures
        r == str_leq(a@, b@),
{
    let ac = chars_of(a);
    let bc = chars_of(b);
    let mut i: usize = 0;
    assert(a@.skip(0) =~= a@);
    assert(b@.skip(0) =~= b@);
    while i < ac.len() && i < bc.len() && ac[i] == bc[i]
        invariant
            i <= ac@.len(),
            i <= bc@.len(),
            ac@ == a@,
            bc@ == b@,
            str_leq(a@, b@) == str_leq(a@.skip(i as int), b@.skip(i as int)),
        decreases ac@.len() - i,
    {
        proof {
            assert(a@.skip(i as int).drop_first() =~= a@.skip(i + 1));
            assert(b@.skip(i as int).drop_first() =~= b@.skip(i + 1));
        }
        i = i + 1;
    }
    if i == ac.len() {
        true
    } else if i == bc.len() {
        false
    } else {
        ac[i] < bc[i]
    }
}

/// The strings of `items`, sorted.
pub fn sort_strings(items: &Vec<String>) -> (r: Vec<String>)
    ensures
        str_views(r@) == str_views(items@).sort_by(str_order()),
{
    let ghost iv = str_views(items@);
    let mut out: Vec<String> = Vec::new();
    let mut i: usize = 0;
    proof {
        lemma_str_order_total();
        assert(iv.take(0) =~= Seq::<Seq<char>>::empty());
        assert(str_views(out@) =~= Seq::<Seq<char>>::empty());
    }
    while i < items.len()
        invariant
            i <= items@.len(),
            iv == str_views(items@),
            total_ordering(str_order()),
            sorted_by(str_views(out@), str_order()),
            str_views(out@).to_multiset() == iv.take(i as int).to_multiset(),
        decreases items@.len() - i,
    {
        let x = items[i].clone();
        let ghost ov = str_views(out@);
        let mut pos: usize = 0;
        while pos < out.len() && str_le(out[pos].as_str(), x.as_str())
            invariant
                pos <= out@.len(),
                ov == str_views(out@),
                forall|k: int| 0 <= k < pos ==> str_leq(#[trigger] ov[k], x@),
            decreases out@.len() - pos,
        {
            pos = pos + 1;
        }
        out.insert(pos, x);
        proof {
            let nv = str_views(out@);
            assert(nv =~= ov.insert(pos as int, x@));
            assert forall|a: int, b: int| 0 <= a < b < nv.len() implies #[trigger] str_order()(nv[a], nv[b]) by {
                if b < pos {
                    assert(str_order()(ov[a], ov[b]));
                } else if b == pos {
                    assert(str_leq(ov[a], x@));
                } else if a == pos {
                    let ob = ov[b - 1];
                    if pos < ov.len() {
                        lemma_str_leq_total(ov[pos as int], x@);
                        if pos < b - 1 {
                            assert(str_order()(ov[pos as int], ob));
                            lemma_str_leq_transitive(x@, ov[pos as int], ob);
                        }
                    }
                } else if a < pos {
                    assert(str_order()(ov[a], ov[b - 1]));
                } else {
                    assert(str_order()(ov[a - 1], ov[b - 1]));
                }
            }
            vstd::seq_lib::to_multiset_insert(ov, pos as int, x@);
            assert(iv.take(i + 1) =~= iv.take(i as int).push(x@));
            vstd::seq_lib::to_multiset_build(iv.take(i as int), x@);
        }
        i = i + 1;
    }
    proof {
        assert(iv.take(items@.len() as int) =~= iv);
        iv.lemma_sort_by_ensures(str_order());
        vstd::seq_lib::lemma_sorted_unique(str_views(out@), iv.sort_by(str_order()), str_order());
    }
    out
}

} // verus!
