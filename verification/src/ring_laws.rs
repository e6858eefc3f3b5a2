//! What holds of ring navigation: every step lands on an anchor, and where
//! no two fields share an anchor the ring closes and can be walked back.

use crate::nav::{
    anchor_order, at_or_before, lemma_anchor_order_total, next_anchor, prev_anchor, ring, scan_next,
    scan_prev,
};
use crate::pos::Pos;
use vstd::prelude::*;
use vstd::relations::sorted_by;

verus! {

/// The cursor after one step forward: the next anchor, or the cursor itself
/// when there is no anchor to go to.
pub open spec fn step_next(anchors: Seq<Pos>, cursor: Pos) -> Pos {
    match next_anchor(anchors, cursor) {
        Some(p) => p,
        None => cursor,
    }
}

/// The cursor after one step backward.
pub open spec fn step_prev(anchors: Seq<Pos>, cursor: Pos) -> Pos {
    match prev_anchor(anchors, cursor) {
        Some(p) => p,
        None => cursor,
    }
}

/// The cursor after `k` steps forward.
pub open spec fn walk_next(anchors: Seq<Pos>, cursor: Pos, k: nat) -> Pos
    decreases k,
{
    if k == 0 {
        cursor
    } else {
        step_next(anchors, walk_next(anchors, cursor, (k - 1) as nat))
    }
}

/// In a sorted sequence without duplicates, earlier means strictly before.
pub open spec fn strictly_sorted(s: Seq<Pos>) -> bool {
    forall|i: int, j: int| 0 <= i < j < s.len() ==> (#[trigger] s[i]).precedes(#[trigger] s[j])
}

/// The ring holds exactly the anchors, each as often as it is given, in
/// row-major order.
pub proof fn lemma_ring_is_sorted_anchors(anchors: Seq<Pos>)
    ensures
        sorted_by(ring(anchors), anchor_order()),
        ring(anchors).to_multiset() == anchors.to_multiset(),
        ring(anchors).len() == anchors.len(),
        forall|p: Pos| ring(anchors).contains(p) <==> anchors.contains(p),
{
    broadcast use vstd::seq_lib::group_to_multiset_ensures;

    lemma_anchor_order_total();
    anchors.lemma_sort_by_ensures(anchor_order());
    let r = ring(anchors);
    assert(r.to_multiset() == anchors.to_multiset());
    assert(r.to_multiset().len() == r.len());
    assert(anchors.to_multiset().len() == anchors.len());
    assert forall|p: Pos| r.contains(p) <==> anchors.contains(p) by {
        assert(r.contains(p) <==> r.to_multiset().count(p) > 0);
        assert(anchors.contains(p) <==> anchors.to_multiset().count(p) > 0);
    }
}

/// Where no two anchors coincide, the ring is strictly increasing.
pub proof fn lemma_ring_strict(anchors: Seq<Pos>)
    requires
        anchors.no_duplicates(),
    ensures
        strictly_sorted(ring(anchors)),
{
    lemma_ring_is_sorted_anchors(anchors);
    let r = ring(anchors);
    anchors.lemma_multiset_has_no_duplicates();
    r.lemma_multiset_has_no_duplicates_conv();
    assert forall|i: int, j: int| 0 <= i < j < r.len() implies (#[trigger] r[i]).precedes(
        #[trigger] r[j],
    ) by {
        assert(anchor_order()(r[i], r[j]));
        assert(at_or_before(r[i], r[j]));
        assert(r[i] != r[j]);
    }
}

/// A forward scan of a non-empty ring ends on one of its anchors.
pub proof fn lemma_scan_next_on_ring(r: Seq<Pos>, cursor: Pos, i: int)
    requires
        r.len() > 0,
    ensures
        scan_next(r, cursor, i) is Some,
        r.contains(scan_next(r, cursor, i)->0),
    decreases r.len() - i,
{
    if i < 0 || i >= r.len() {
        assert(r[0] == r[0]);
    } else if cursor.precedes(r[i]) {
    } else if cursor == r[i] {
        if i + 1 < r.len() {
            assert(r[i + 1] == r[i + 1]);
        }
    } else {
        lemma_scan_next_on_ring(r, cursor, i + 1);
    }
}

/// A backward scan of a non-empty ring ends on one of its anchors.
pub proof fn lemma_scan_prev_on_ring(r: Seq<Pos>, cursor: Pos, i: int)
    requires
        r.len() > 0,
    ensures
        scan_prev(r, cursor, i) is Some,
        r.contains(scan_prev(r, cursor, i)->0),
    decreases i + 1,
{
    if i < 0 || i >= r.len() {
        assert(r[r.len() - 1] == r[r.len() - 1]);
    } else if r[i].precedes(cursor) {
    } else if cursor == r[i] {
        if i >= 1 {
            assert(r[i - 1] == r[i - 1]);
        }
    } else {
        lemma_scan_prev_on_ring(r, cursor, i - 1);
    }
}

/// Navigation finds a target exactly when there is a field, and the target
/// is always the anchor of one: from any cursor position, on a field,
/// between fields or past the last one.
pub proof fn lemma_target_is_anchor(anchors: Seq<Pos>, cursor: Pos)
    ensures
        next_anchor(anchors, cursor) is Some <==> anchors.len() > 0,
        prev_anchor(anchors, cursor) is Some <==> anchors.len() > 0,
        anchors.len() > 0 ==> anchors.contains(next_anchor(anchors, cursor)->0),
        anchors.len() > 0 ==> anchors.contains(prev_anchor(anchors, cursor)->0),
{
    lemma_ring_is_sorted_anchors(anchors);
    let r = ring(anchors);
    if r.len() > 0 {
        lemma_scan_next_on_ring(r, cursor, 0);
        lemma_scan_prev_on_ring(r, cursor, r.len() - 1);
    }
}

/// From the `i`-th anchor of a strictly increasing ring, a forward scan that
/// starts at or before it ends on the anchor that follows it.
pub proof fn lemma_scan_next_from_anchor(r: Seq<Pos>, i: int, j: int)
    requires
        strictly_sorted(r),
        0 <= j <= i < r.len(),
    ensures
        scan_next(r, r[i], j) == Some(
            if i + 1 < r.len() {
                r[i + 1]
            } else {
                r[0]
            },
        ),
    decreases i - j,
{
    if j < i {
        assert(r[j].precedes(r[i]));
        lemma_scan_next_from_anchor(r, i, j + 1);
    }
}

/// From the `i`-th anchor of a strictly increasing ring, a backward scan that
/// starts at or after it ends on the anchor before it.
pub proof fn lemma_scan_prev_from_anchor(r: Seq<Pos>, i: int, j: int)
    requires
        strictly_sorted(r),
        0 <= i <= j < r.len(),
    ensures
        scan_prev(r, r[i], j) == Some(
            if i >= 1 {
                r[i - 1]
            } else {
                r[r.len() - 1]
            },
        ),
    decreases j - i,
{
    if i < j {
        assert(r[i].precedes(r[j]));
        lemma_scan_prev_from_anchor(r, i, j - 1);
    }
}

/// Walking `a` steps and then `b` more is walking `a + b` steps.
pub proof fn lemma_walk_next_add(anchors: Seq<Pos>, cursor: Pos, a: nat, b: nat)
    ensures
        walk_next(anchors, cursor, a + b) == walk_next(anchors, walk_next(anchors, cursor, a), b),
    decreases b,
{
    if b > 0 {
        lemma_walk_next_add(anchors, cursor, a, (b - 1) as nat);
        assert((a + b - 1) as nat == a + (b - 1) as nat);
    }
}

/// Walking `k` steps from the `i`-th anchor of the ring without running off
/// its end arrives at anchor `i + k`.
pub proof fn lemma_walk_next_along(anchors: Seq<Pos>, i: int, k: nat)
    requires
        anchors.no_duplicates(),
        0 <= i,
        i + k < anchors.len(),
    ensures
        ring(anchors).len() == anchors.len(),
        walk_next(anchors, ring(anchors)[i], k) == ring(anchors)[i + k],
    decreases k,
{
    lemma_ring_is_sorted_anchors(anchors);
    lemma_ring_strict(anchors);
    if k > 0 {
        lemma_walk_next_along(anchors, i, (k - 1) as nat);
        lemma_scan_next_from_anchor(ring(anchors), i + k - 1, 0);
    }
}

/// Cyclic closure: where no two fields share an anchor, stepping forward
/// from a field's anchor as many times as there are fields arrives back at
/// that anchor.
pub proof fn lemma_next_cycle_closes(anchors: Seq<Pos>, start: Pos)
    requires
        anchors.no_duplicates(),
        anchors.contains(start),
    ensures
        walk_next(anchors, start, anchors.len()) == start,
{
    lemma_ring_is_sorted_anchors(anchors);
    lemma_ring_strict(anchors);
    let r = ring(anchors);
    let n = r.len();
    assert(r.contains(start));
    let i = choose|i: int| 0 <= i < r.len() && r[i] == start;
    // to the last anchor of the ring, one step over the seam, then on to `i`
    let to_end: nat = (n - 1 - i) as nat;
    lemma_walk_next_along(anchors, i, to_end);
    lemma_scan_next_from_anchor(r, n - 1, 0);
    assert(walk_next(anchors, start, to_end + 1) == r[0]);
    lemma_walk_next_along(anchors, 0, i as nat);
    lemma_walk_next_add(anchors, start, to_end + 1, i as nat);
    assert(to_end + 1 + i as nat == anchors.len());
}

/// Cyclic closure from anywhere: where no two fields share an anchor, the
/// field reached by the first step forward is reached again after as many
/// further steps as there are fields, wherever the cursor started.
pub proof fn lemma_next_cycle_closes_from_anywhere(anchors: Seq<Pos>, cursor: Pos)
    requires
        anchors.no_duplicates(),
        anchors.len() > 0,
    ensures
        walk_next(anchors, step_next(anchors, cursor), anchors.len()) == step_next(
            anchors,
            cursor,
        ),
{
    lemma_target_is_anchor(anchors, cursor);
    lemma_next_cycle_closes(anchors, step_next(anchors, cursor));
}

/// Round trip: where no two fields share an anchor, a step forward from a
/// field's anchor followed by a step backward arrives back at that anchor,
/// and so does a step backward followed by a step forward.
pub proof fn lemma_next_then_prev_returns(anchors: Seq<Pos>, start: Pos)
    requires
        anchors.no_duplicates(),
        anchors.contains(start),
    ensures
        next_anchor(anchors, start) is Some,
        prev_anchor(anchors, next_anchor(anchors, start)->0) == Some(start),
        prev_anchor(anchors, start) is Some,
        next_anchor(anchors, prev_anchor(anchors, start)->0) == Some(start),
{
    lemma_ring_is_sorted_anchors(anchors);
    lemma_ring_strict(anchors);
    let r = ring(anchors);
    let n = r.len();
    assert(r.contains(start));
    let i = choose|i: int| 0 <= i < r.len() && r[i] == start;
    lemma_scan_next_from_anchor(r, i, 0);
    lemma_scan_prev_from_anchor(r, i, n - 1);
    let up = if i + 1 < n { i + 1 } else { 0 };
    let down = if i >= 1 { i - 1 } else { n - 1 };
    lemma_scan_prev_from_anchor(r, up, n - 1);
    lemma_scan_next_from_anchor(r, down, 0);
}

/// Some anchor lies after `cursor`.
pub open spec fn has_anchor_after(anchors: Seq<Pos>, cursor: Pos) -> bool {
    exists|a: Pos| anchors.contains(a) && cursor.precedes(a)
}

/// Some anchor lies before `cursor`.
pub open spec fn has_anchor_before(anchors: Seq<Pos>, cursor: Pos) -> bool {
    exists|a: Pos| anchors.contains(a) && a.precedes(cursor)
}

/// `t` is the first of the anchors that lie after `cursor`.
pub open spec fn is_nearest_after(anchors: Seq<Pos>, cursor: Pos, t: Pos) -> bool {
    &&& anchors.contains(t)
    &&& cursor.precedes(t)
    &&& forall|a: Pos| anchors.contains(a) && cursor.precedes(a) ==> !a.precedes(t)
}

/// `t` is the last of the anchors that lie before `cursor`.
pub open spec fn is_nearest_before(anchors: Seq<Pos>, cursor: Pos, t: Pos) -> bool {
    &&& anchors.contains(t)
    &&& t.precedes(cursor)
    &&& forall|a: Pos| anchors.contains(a) && a.precedes(cursor) ==> !t.precedes(a)
}

/// `t` is the first of all anchors.
pub open spec fn is_first_anchor(anchors: Seq<Pos>, t: Pos) -> bool {
    anchors.contains(t) && forall|a: Pos| anchors.contains(a) ==> !a.precedes(t)
}

/// `t` is the last of all anchors.
pub open spec fn is_last_anchor(anchors: Seq<Pos>, t: Pos) -> bool {
    anchors.contains(t) && forall|a: Pos| anchors.contains(a) ==> !t.precedes(a)
}

proof fn lemma_scan_next_is_nearest(r: Seq<Pos>, cursor: Pos, i: int)
    requires
        strictly_sorted(r),
        r.len() > 0,
        0 <= i <= r.len(),
        forall|j: int| 0 <= j < i ==> (#[trigger] r[j]).precedes(cursor),
    ensures
        scan_next(r, cursor, i) is Some,
        has_anchor_after(r, cursor) ==> is_nearest_after(r, cursor, scan_next(r, cursor, i)->0),
        !has_anchor_after(r, cursor) ==> scan_next(r, cursor, i) == Some(r[0]),
    decreases r.len() - i,
{
    let t = scan_next(r, cursor, i)->0;
    if i >= r.len() {
        assert forall|a: Pos| r.contains(a) implies !cursor.precedes(a) by {
            let k = choose|k: int| 0 <= k < r.len() && r[k] == a;
            assert(r[k].precedes(cursor));
        }
    } else if cursor.precedes(r[i]) {
        assert(r.contains(r[i]));
        assert forall|a: Pos| r.contains(a) && cursor.precedes(a) implies !a.precedes(t) by {
            let k = choose|k: int| 0 <= k < r.len() && r[k] == a;
            if k < i {
                assert(r[k].precedes(cursor));
            } else if k > i {
                assert(r[i].precedes(r[k]));
            }
        }
    } else if cursor == r[i] {
        if i + 1 < r.len() {
            assert(r.contains(r[i + 1]));
            assert(r[i].precedes(r[i + 1]));
            assert forall|a: Pos| r.contains(a) && cursor.precedes(a) implies !a.precedes(t) by {
                let k = choose|k: int| 0 <= k < r.len() && r[k] == a;
                if k < i {
                    assert(r[k].precedes(cursor));
                } else if k > i + 1 {
                    assert(r[i + 1].precedes(r[k]));
                }
            }
        } else {
            assert forall|a: Pos| r.contains(a) implies !cursor.precedes(a) by {
                let k = choose|k: int| 0 <= k < r.len() && r[k] == a;
                if k < i {
                    assert(r[k].precedes(cursor));
                }
            }
        }
    } else {
        lemma_scan_next_is_nearest(r, cursor, i + 1);
    }
}

proof fn lemma_scan_prev_is_nearest(r: Seq<Pos>, cursor: Pos, i: int)
    requires
        strictly_sorted(r),
        r.len() > 0,
        -1 <= i < r.len(),
        forall|j: int| i < j < r.len() ==> cursor.precedes(#[trigger] r[j]),
    ensures
        scan_prev(r, cursor, i) is Some,
        has_anchor_before(r, cursor) ==> is_nearest_before(r, cursor, scan_prev(r, cursor, i)->0),
        !has_anchor_before(r, cursor) ==> scan_prev(r, cursor, i) == Some(r[r.len() - 1]),
    decreases i + 1,
{
    let t = scan_prev(r, cursor, i)->0;
    if i < 0 {
        assert forall|a: Pos| r.contains(a) implies !a.precedes(cursor) by {
            let k = choose|k: int| 0 <= k < r.len() && r[k] == a;
            assert(cursor.precedes(r[k]));
        }
    } else if r[i].precedes(cursor) {
        assert(r.contains(r[i]));
        assert forall|a: Pos| r.contains(a) && a.precedes(cursor) implies !t.precedes(a) by {
            let k = choose|k: int| 0 <= k < r.len() && r[k] == a;
            if k > i {
                assert(cursor.precedes(r[k]));
            } else if k < i {
                assert(r[k].precedes(r[i]));
            }
        }
    } else if cursor == r[i] {
        if i >= 1 {
            assert(r.contains(r[i - 1]));
            assert(r[i - 1].precedes(r[i]));
            assert forall|a: Pos| r.contains(a) && a.precedes(cursor) implies !t.precedes(a) by {
                let k = choose|k: int| 0 <= k < r.len() && r[k] == a;
                if k > i {
                    assert(cursor.precedes(r[k]));
                } else if k < i - 1 {
                    assert(r[k].precedes(r[i - 1]));
                }
            }
        } else {
            assert forall|a: Pos| r.contains(a) implies !a.precedes(cursor) by {
                let k = choose|k: int| 0 <= k < r.len() && r[k] == a;
                if k > i {
                    assert(cursor.precedes(r[k]));
                }
            }
        }
    } else {
        lemma_scan_prev_is_nearest(r, cursor, i - 1);
    }
}

/// Every cursor position has one successor and one predecessor on the ring.
/// Where no two fields share an anchor, going forward finds the first
/// anchor after the cursor, and the first anchor of all when none lies
/// after it; going backward finds the last anchor before the cursor, and
/// the last anchor of all when none lies before it.
pub proof fn lemma_target_is_nearest(anchors: Seq<Pos>, cursor: Pos)
    requires
        anchors.no_duplicates(),
        anchors.len() > 0,
    ensures
        next_anchor(anchors, cursor) is Some,
        prev_anchor(anchors, cursor) is Some,
        has_anchor_after(anchors, cursor) ==> is_nearest_after(
            anchors,
            cursor,
            next_anchor(anchors, cursor)->0,
        ),
        !has_anchor_after(anchors, cursor) ==> is_first_anchor(
            anchors,
            next_anchor(anchors, cursor)->0,
        ),
        has_anchor_before(anchors, cursor) ==> is_nearest_before(
            anchors,
            cursor,
            prev_anchor(anchors, cursor)->0,
        ),
        !has_anchor_before(anchors, cursor) ==> is_last_anchor(
            anchors,
            prev_anchor(anchors, cursor)->0,
        ),
{
    lemma_ring_is_sorted_anchors(anchors);
    lemma_ring_strict(anchors);
    let r = ring(anchors);
    lemma_scan_next_is_nearest(r, cursor, 0);
    lemma_scan_prev_is_nearest(r, cursor, r.len() - 1);
    assert(has_anchor_after(r, cursor) == has_anchor_after(anchors, cursor)) by {
        if has_anchor_after(r, cursor) {
            let a = choose|a: Pos| r.contains(a) && cursor.precedes(a);
            assert(anchors.contains(a));
        }
        if has_anchor_after(anchors, cursor) {
            let a = choose|a: Pos| anchors.contains(a) && cursor.precedes(a);
            assert(r.contains(a));
        }
    }
    assert(has_anchor_before(r, cursor) == has_anchor_before(anchors, cursor)) by {
        if has_anchor_before(r, cursor) {
            let a = choose|a: Pos| r.contains(a) && a.precedes(cursor);
            assert(anchors.contains(a));
        }
        if has_anchor_before(anchors, cursor) {
            let a = choose|a: Pos| anchors.contains(a) && a.precedes(cursor);
            assert(r.contains(a));
        }
    }
    assert(r.contains(r[0]));
    assert(r.contains(r[r.len() - 1]));
    assert forall|a: Pos| r.contains(a) implies !a.precedes(r[0]) && !r[r.len() - 1].precedes(a) by {
        let k = choose|k: int| 0 <= k < r.len() && r[k] == a;
        if k > 0 {
            assert(r[0].precedes(r[k]));
        }
        if k < r.len() - 1 {
            assert(r[k].precedes(r[r.len() - 1]));
        }
    }
}

} // verus!
