//! Sets of cells, walked in a fixed order.

use crate::grid::{cell_lt, distance, in_grid, spec_distance, CELLS, Y};
use std::collections::BTreeSet;
use vstd::prelude::*;
use vstd::std_specs::cmp::OrdSpec;

verus! {

/// `v` lists the cells of `s`, each once, in the order of `cell_lt`.
pub open spec fn lists(v: Seq<(usize, usize)>, s: Set<(usize, usize)>) -> bool {
    &&& forall|p: (usize, usize)| #[trigger] v.contains(p) <==> s.contains(p)
    &&& forall|i: int, j: int| 0 <= i < j < v.len() ==> cell_lt(#[trigger] v[i], #[trigger] v[j])
}

/// Two listings of one set agree on their first `n` cells.
proof fn lemma_lists_prefix(
    a: Seq<(usize, usize)>,
    b: Seq<(usize, usize)>,
    s: Set<(usize, usize)>,
    n: int,
)
    requires
        lists(a, s),
        lists(b, s),
        0 <= n <= a.len(),
    ensures
        n <= b.len(),
        forall|i: int| 0 <= i < n ==> a[i] == b[i],
    decreases n,
{
    if n > 0 {
        lemma_lists_prefix(a, b, s, n - 1);
        let p = a[n - 1];
        assert(a.contains(p));
        assert(b.contains(p));
        let j = choose|j: int| 0 <= j < b.len() && b[j] == p;
        if j < n - 1 {
            assert(cell_lt(a[j], a[n - 1]));
        } else if j > n - 1 {
            let q = b[n - 1];
            assert(b.contains(q));
            assert(a.contains(q));
            let k = choose|k: int| 0 <= k < a.len() && a[k] == q;
            assert(cell_lt(b[n - 1], b[j]));
            if k < n - 1 {
                assert(b[k] == a[k]);
                assert(cell_lt(b[k], b[n - 1]));
            } else if k > n - 1 {
                assert(cell_lt(a[n - 1], a[k]));
            }
        }
    }
}

/// A set has one listing only.
pub proof fn lemma_lists_unique(
    a: Seq<(usize, usize)>,
    b: Seq<(usize, usize)>,
    s: Set<(usize, usize)>,
)
    requires
        lists(a, s),
        lists(b, s),
    ensures
        a == b,
{
    lemma_lists_prefix(a, b, s, a.len() as int);
    lemma_lists_prefix(b, a, s, b.len() as int);
    assert(a =~= b);
}

/// The `n`-th cell of a listing of cells of the battlefield has at least `n`
/// cells before it in the order of `cell_lt`.
proof fn lemma_listing_rank(v: Seq<(usize, usize)>, n: int)
    requires
        forall|i: int, j: int| 0 <= i < j < v.len() ==> cell_lt(#[trigger] v[i], #[trigger] v[j]),
        forall|i: int| 0 <= i < v.len() ==> in_grid(#[trigger] v[i]),
        0 <= n < v.len(),
    ensures
        v[n].0 * Y + v[n].1 >= n,
    decreases n,
{
    if n > 0 {
        lemma_listing_rank(v, n - 1);
        assert(cell_lt(v[n - 1], v[n]));
    }
}

/// A listing of cells of the battlefield is no longer than the battlefield
/// has cells.
pub proof fn lemma_listing_bounded(v: Seq<(usize, usize)>, s: Set<(usize, usize)>)
    requires
        lists(v, s),
        forall|p: (usize, usize)| s.contains(p) ==> in_grid(p),
    ensures
        v.len() <= CELLS,
{
    if v.len() > 0 {
        assert forall|i: int| 0 <= i < v.len() implies in_grid(#[trigger] v[i]) by {
            assert(v.contains(v[i]));
        }
        lemma_listing_rank(v, v.len() - 1);
    }
}

/// The cells of a set in the order of `cell_lt`, if the set is finite.
pub open spec fn listing(s: Set<(usize, usize)>) -> Seq<(usize, usize)> {
    choose|v: Seq<(usize, usize)>| lists(v, s)
}

/// Two entries of an increasing sequence compare as their positions do.
proof fn lemma_increasing_pair<K: Ord>(s: Seq<K>, i: int, j: int)
    requires
        vstd::laws_cmp::obeys_cmp::<K>(),
        vstd::std_specs::btree::increasing_seq(s),
        0 <= i < j < s.len(),
    ensures
        s[i].cmp_spec(&s[j]) is Less,
{
    vstd::std_specs::btree::axiom_increasing_seq_meaning(s);
}

/// The cells of a set in the order in which the set is walked.
pub fn snapshot(s: &BTreeSet<(usize, usize)>) -> (v: Vec<(usize, usize)>)
    ensures
        lists(v@, s@),
        v@ == listing(s@),
{
    let mut v: Vec<(usize, usize)> = Vec::new();
    for p in it: s.iter()
        invariant
            v@.len() == it.index(),
            forall|j: int| 0 <= j < v@.len() ==> v@[j] == *it.seq()[j],
            it.seq().unref().to_set() == s@,
            vstd::std_specs::btree::increasing_seq(it.seq()),
            it.index() == it.seq().len() ==> lists(v@, s@),
    {
        v.push(*p);
        assert(it.index() + 1 == it.seq().len() ==> lists(v@, s@)) by {
            if it.index() + 1 == it.seq().len() {
                assert(v@ =~= it.seq().unref());
                assert forall|q: (usize, usize)| #[trigger] v@.contains(q) <==> s@.contains(q) by {
                    assert(it.seq().unref().to_set().contains(q) <==> it.seq().unref().contains(q));
                }
                assert forall|i: int, j: int| 0 <= i < j < v@.len() implies cell_lt(
                    #[trigger] v@[i],
                    #[trigger] v@[j],
                ) by {
                    assert(vstd::laws_cmp::obeys_cmp::<usize>());
                    assert(vstd::laws_cmp::obeys_cmp::<(usize, usize)>());
                    assert(vstd::laws_cmp::obeys_cmp::<&(usize, usize)>());
                    lemma_increasing_pair(it.seq(), i, j);
                }
            }
        }
    }
    proof {
        lemma_lists_unique(v@, listing(s@), s@);
    }
    v
}

/// `p` is the cell of `s` nearest to `me`; of several equally near, the
/// first in the order of `cell_lt`.
pub open spec fn is_nearest(s: Set<(usize, usize)>, me: (usize, usize), p: (usize, usize)) -> bool {
    &&& s.contains(p)
    &&& forall|q: (usize, usize)| #[trigger]
        s.contains(q) ==> spec_distance(p, me) < spec_distance(q, me) || (spec_distance(p, me)
            == spec_distance(q, me) && (p == q || cell_lt(p, q)))
}

/// The nearest cell of a set, if the set has any.
pub open spec fn spec_nearest(s: Set<(usize, usize)>, me: (usize, usize)) -> Option<(usize, usize)> {
    if exists|p: (usize, usize)| is_nearest(s, me, p) {
        Some(choose|p: (usize, usize)| is_nearest(s, me, p))
    } else {
        None
    }
}

/// A set has at most one nearest cell.
pub proof fn lemma_nearest_unique(
    s: Set<(usize, usize)>,
    me: (usize, usize),
    p: (usize, usize),
    q: (usize, usize),
)
    requires
        is_nearest(s, me, p),
        is_nearest(s, me, q),
    ensures
        p == q,
{
}

/// The cell of a set nearest to `my_xy` by Chebyshev distance, if the set
/// has any.
pub fn find_nearest(points: &BTreeSet<(usize, usize)>, my_xy: (usize, usize)) -> (r: Option<
    (usize, usize),
>)
    ensures
        r == spec_nearest(points@, my_xy),
        match r {
            Some(p) => is_nearest(points@, my_xy, p),
            None => forall|q: (usize, usize)| !points@.contains(q),
        },
{
    let v = snapshot(points);
    if v.len() == 0 {
        assert forall|q: (usize, usize)| !points@.contains(q) by {
            assert(!v@.contains(q));
        }
        return None;
    }
    let mut best: usize = 0;
    let mut dist: usize = distance(v[0], my_xy);
    let mut i: usize = 1;
    while i < v.len()
        invariant
            0 <= best < i <= v@.len(),
            dist == spec_distance(v@[best as int], my_xy),
            forall|j: int|
                0 <= j < i ==> dist < spec_distance(#[trigger] v@[j], my_xy) || (dist
                    == spec_distance(v@[j], my_xy) && best <= j),
        decreases v@.len() - i,
    {
        let newdist: usize = distance(v[i], my_xy);
        if newdist < dist {
            best = i;
            dist = newdist;
        }
        i = i + 1;
    }
    let p = v[best];
    proof {
        assert(v@.contains(p));
        assert forall|q: (usize, usize)| #[trigger] points@.contains(q) implies spec_distance(
            p,
            my_xy,
        ) < spec_distance(q, my_xy) || (spec_distance(p, my_xy) == spec_distance(q, my_xy) && (p
            == q || cell_lt(p, q))) by {
            assert(v@.contains(q));
            let j = choose|j: int| 0 <= j < v@.len() && v@[j] == q;
            assert(dist < spec_distance(v@[j], my_xy) || (dist == spec_distance(v@[j], my_xy)
                && best <= j));
        }
        assert(is_nearest(points@, my_xy, p));
        lemma_nearest_unique(
            points@,
            my_xy,
            p,
            choose|c: (usize, usize)| is_nearest(points@, my_xy, c),
        );
    }
    Some(p)
}

} // verus!
