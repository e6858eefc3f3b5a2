//! Ring navigation: the fields, ordered by where they are anchored, form a
//! ring, and every cursor position has one next and one previous anchor on it.

use crate::pos::Pos;
use vstd::prelude::*;
use vstd::relations::{sorted_by, total_ordering};
use vstd::seq_lib::{lemma_sorted_unique, to_multiset_build, to_multiset_insert};

verus! {

/// `a` comes no later than `b` in row-major order.
pub open spec fn at_or_before(a: Pos, b: Pos) -> bool {
    !b.precedes(a)
}

/// The order by which anchors are sorted.
pub open spec fn anchor_order() -> spec_fn(Pos, Pos) -> bool {
    |a: Pos, b: Pos| at_or_before(a, b)
}

/// The anchors in row-major order.
pub open spec fn ring(anchors: Seq<Pos>) -> Seq<Pos> {
    anchors.sort_by(anchor_order())
}

/// Forward scan of a sorted ring from index `i` on: the first anchor after
/// the cursor; from an anchor the cursor sits on, the one that follows it;
/// the first anchor of the ring where either runs off the end.
pub open spec fn scan_next(ring: Seq<Pos>, cursor: Pos, i: int) -> Option<Pos>
    decreases ring.len() - i,
{
    if ring.len() == 0 {
        None
    } else if i < 0 || i >= ring.len() {
        Some(ring[0])
    } else if cursor.precedes(ring[i]) {
        Some(ring[i])
    } else if cursor == ring[i] {
        if i + 1 < ring.len() {
            Some(ring[i + 1])
        } else {
            Some(ring[0])
        }
    } else {
        scan_next(ring, cursor, i + 1)
    }
}

/// Backward scan of a sorted ring from index `i` down: the mirror image of
/// [`scan_next`], wrapping to the last anchor.
pub open spec fn scan_prev(ring: Seq<Pos>, cursor: Pos, i: int) -> Option<Pos>
    decreases i + 1,
{
    if ring.len() == 0 {
        None
    } else if i < 0 || i >= ring.len() {
        Some(ring[ring.len() - 1])
    } else if ring[i].precedes(cursor) {
        Some(ring[i])
    } else if cursor == ring[i] {
        if i >= 1 {
            Some(ring[i - 1])
        } else {
            Some(ring[ring.len() - 1])
        }
    } else {
        scan_prev(ring, cursor, i - 1)
    }
}

/// The anchor that follows `cursor` on the ring of `anchors`; `None` when
/// there is no anchor at all.
pub open spec fn next_anchor(anchors: Seq<Pos>, cursor: Pos) -> Option<Pos> {
    scan_next(ring(anchors), cursor, 0)
}

/// The anchor that comes before `cursor` on the ring of `anchors`; `None`
/// when there is no anchor at all.
pub open spec fn prev_anchor(anchors: Seq<Pos>, cursor: Pos) -> Option<Pos> {
    scan_prev(ring(anchors), cursor, ring(anchors).len() - 1)
}

/// Row-major order, taken as "no later than", is a total order.
pub proof fn lemma_anchor_order_total()
    ensures
        total_ordering(anchor_order()),
{
    let r = anchor_order();
    assert forall|x: Pos, y: Pos| #[trigger] r(x, y) && #[trigger] r(y, x) implies x == y by {}
    assert forall|x: Pos, y: Pos, z: Pos| #[trigger] r(x, y) && #[trigger] r(y, z) implies r(
        x,
        z,
    ) by {}
}

/// A sorted sequence with the same elements as `anchors` is their ring.
pub proof fn lemma_ring_unique(anchors: Seq<Pos>, sorted: Seq<Pos>)
    requires
        sorted_by(sorted, anchor_order()),
        sorted.to_multiset() == anchors.to_multiset(),
    ensures
        sorted == ring(anchors),
{
    lemma_anchor_order_total();
    anchors.lemma_sort_by_ensures(anchor_order());
    lemma_sorted_unique(sorted, ring(anchors), anchor_order());
}

/// Puts `p` into the sorted `sorted`, after the anchors that are no later
/// than it.
pub fn insert_sorted(sorted: &mut Vec<Pos>, p: Pos)
    requires
        sorted_by(old(sorted)@, anchor_order()),
    ensures
        sorted_by(final(sorted)@, anchor_order()),
        final(sorted)@.to_multiset() == old(sorted)@.to_multiset().insert(p),
{
    let mut j: usize = 0;
    while j < sorted.len() && !p.is_before(sorted[j])
        invariant
            j <= sorted.len(),
            sorted@ == old(sorted)@,
            forall|k: int| 0 <= k < j ==> at_or_before(sorted@[k], p),
        decreases sorted.len() - j,
    {
        j = j + 1;
    }
    proof {
        let s = sorted@;
        to_multiset_insert(s, j as int, p);
        assert forall|a: int, b: int| 0 <= a < b < s.insert(j as int, p).len() implies (
        #[trigger] anchor_order()(s.insert(j as int, p)[a], s.insert(j as int, p)[b])) by {
            let t = s.insert(j as int, p);
            if b < j {
                assert(anchor_order()(s[a], s[b]));
            } else if b == j {
                assert(at_or_before(s[a], p));
            } else if a < j {
                assert(anchor_order()(s[a], s[b - 1]));
            } else if a == j {
                assert(p.precedes(s[j as int]));
                assert(anchor_order()(s[j as int], s[b - 1]) || b - 1 == j);
            } else {
                assert(anchor_order()(s[a - 1], s[b - 1]));
            }
        }
    }
    sorted.insert(j, p);
}

/// The given anchors in row-major order.
pub fn sort_anchors(anchors: &Vec<Pos>) -> (sorted: Vec<Pos>)
    ensures
        sorted@ == ring(anchors@),
{
    let mut sorted: Vec<Pos> = Vec::new();
    let mut i: usize = 0;
    assert(sorted@ =~= anchors@.take(0));
    while i < anchors.len()
        invariant
            i <= anchors.len(),
            sorted_by(sorted@, anchor_order()),
            sorted@.to_multiset() == anchors@.take(i as int).to_multiset(),
        decreases anchors.len() - i,
    {
        proof {
            to_multiset_build(anchors@.take(i as int), anchors@[i as int]);
            assert(anchors@.take(i as int).push(anchors@[i as int]) =~= anchors@.take(i + 1));
        }
        insert_sorted(&mut sorted, anchors[i]);
        i = i + 1;
    }
    proof {
        assert(anchors@.take(i as int) =~= anchors@);
        lemma_ring_unique(anchors@, sorted@);
    }
    sorted
}

/// The anchor after `cursor` on the sorted ring `sorted`.
pub fn next_on_ring(sorted: &Vec<Pos>, cursor: Pos) -> (r: Option<Pos>)
    ensures
        r == scan_next(sorted@, cursor, 0),
{
    if sorted.len() == 0 {
        return None;
    }
    let mut i: usize = 0;
    while i < sorted.len()
        invariant
            i <= sorted.len(),
            sorted.len() > 0,
            scan_next(sorted@, cursor, 0) == scan_next(sorted@, cursor, i as int),
        decreases sorted.len() - i,
    {
        let p: Pos = sorted[i];
        if cursor.is_before(p) {
            return Some(p);
        }
        if cursor == p {
            if i + 1 < sorted.len() {
                return Some(sorted[i + 1]);
            } else {
                return Some(sorted[0]);
            }
        }
        i = i + 1;
    }
    Some(sorted[0])
}

/// The anchor before `cursor` on the sorted ring `sorted`.
pub fn prev_on_ring(sorted: &Vec<Pos>, cursor: Pos) -> (r: Option<Pos>)
    ensures
        r == scan_prev(sorted@, cursor, sorted@.len() - 1),
{
    if sorted.len() == 0 {
        return None;
    }
    let last: usize = sorted.len() - 1;
    let mut i: usize = sorted.len();
    while i > 0
        invariant
            i <= sorted.len(),
            sorted.len() > 0,
            last == sorted.len() - 1,
            scan_prev(sorted@, cursor, sorted@.len() - 1) == scan_prev(sorted@, cursor, i - 1),
        decreases i,
    {
        let p: Pos = sorted[i - 1];
        if p.is_before(cursor) {
            return Some(p);
        }
        if cursor == p {
            if i >= 2 {
                return Some(sorted[i - 2]);
            } else {
                return Some(sorted[last]);
            }
        }
        i = i - 1;
    }
    Some(sorted[last])
}

} // verus!
