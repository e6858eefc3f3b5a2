//! Screen coordinates: ordering, containment and clamped movement.

use std::cmp::Ordering;
use vstd::prelude::*;

verus! {

/// A cell of the canvas. `x` is the column, `y` the row.
#[derive(Debug, Clone, Copy, PartialEq, Eq, Structural)]
pub struct Pos {
    pub x: u16,
    pub y: u16,
}

/// `v` clamped into `[0, bound - 1]`; `0` when that range is empty.
pub open spec fn clamp_below(v: int, bound: int) -> int {
    if v >= bound {
        if bound >= 1 {
            bound - 1
        } else {
            0
        }
    } else if v < 0 {
        0
    } else {
        v
    }
}

impl Pos {
    /// Row-major strict order: rows first, columns within a row.
    pub open spec fn precedes(self, other: Pos) -> bool {
        self.y < other.y || (self.y == other.y && self.x < other.x)
    }

    /// How the position compares to `other` in row-major order.
    pub open spec fn ordering_to(self, other: Pos) -> Ordering {
        if self.precedes(other) {
            Ordering::Less
        } else if other.precedes(self) {
            Ordering::Greater
        } else {
            Ordering::Equal
        }
    }

    /// The position clamped into a canvas of `other.x` columns and `other.y` rows.
    pub open spec fn spec_constrain(self, other: Pos) -> Pos {
        Pos {
            x: clamp_below(self.x as int, other.x as int) as u16,
            y: clamp_below(self.y as int, other.y as int) as u16,
        }
    }

    /// The offset of this position into a field of `length` cells anchored at
    /// `origin`; the cell just past the field's end counts as inside.
    pub open spec fn spec_within(self, origin: Pos, length: u16) -> Option<usize> {
        if self.y == origin.y && origin.x <= self.x && self.x <= origin.x + length {
            Some((self.x - origin.x) as usize)
        } else {
            None
        }
    }

    /// The position moved `by` columns in its row and kept left of column
    /// `max`.
    pub open spec fn spec_move_x(self, by: i16, max: u16) -> Pos {
        Pos { x: clamp_below(self.x + by, max as int) as u16, y: self.y }
    }

    /// Executable form of [`Pos::precedes`].
    pub fn is_before(self, other: Pos) -> (r: bool)
        ensures
            r == self.precedes(other),
    {
        self.y < other.y || (self.y == other.y && self.x < other.x)
    }

    /// Clamps the position into a canvas whose size is `other`.
    pub fn constrain(self, other: Pos) -> (r: Pos)
        ensures
            r == self.spec_constrain(other),
    {
        let max_x: u16 = if other.x >= 1 { other.x - 1 } else { 0 };
        let max_y: u16 = if other.y >= 1 { other.y - 1 } else { 0 };
        Pos {
            x: if self.x > max_x { max_x } else { self.x },
            y: if self.y > max_y { max_y } else { self.y },
        }
    }

    /// Offset of the position inside the field at `other`, if it is on the
    /// field or on the cell just past its end.
    pub fn within(self, other: Pos, length: u16) -> (r: Option<usize>)
        ensures
            r == self.spec_within(other, length),
    {
        if self.y == other.y && self.x >= other.x && self.x - other.x <= length {
            Some((self.x - other.x) as usize)
        } else {
            None
        }
    }

    /// Moves along the row by `by` cells, never left of column 0 and never
    /// onto or past column `max`.
    pub fn move_x(self, by: i16, max: u16) -> (r: Pos)
        ensures
            r == self.spec_move_x(by, max),
    {
        let moved: i32 = self.x as i32 + by as i32;
        let limit: i32 = if max >= 1 { max as i32 - 1 } else { 0 };
        let kept: i32 = if moved > limit { limit } else if moved < 0 { 0 } else { moved };
        Pos { x: kept as u16, y: self.y }
    }

    /// Three-way comparison in row-major order.
    pub fn cmp(&self, other: &Pos) -> (o: Ordering)
        ensures
            o == self.ordering_to(*other),
    {
        if self.y < other.y {
            Ordering::Less
        } else if self.y > other.y {
            Ordering::Greater
        } else if self.x < other.x {
            Ordering::Less
        } else if self.x > other.x {
            Ordering::Greater
        } else {
            Ordering::Equal
        }
    }
}

impl PartialOrd for Pos {
    fn partial_cmp(&self, other: &Pos) -> (r: Option<Ordering>) {
        Some(self.cmp(other))
    }
}

impl vstd::std_specs::cmp::PartialOrdSpecImpl for Pos {
    open spec fn obeys_partial_cmp_spec() -> bool {
        true
    }

    open spec fn partial_cmp_spec(&self, other: &Pos) -> Option<Ordering> {
        Some(self.ordering_to(*other))
    }
}

impl From<(u16, u16)> for Pos {
    fn from(value: (u16, u16)) -> (r: Pos) {
        Pos { x: value.0, y: value.1 }
    }
}

impl vstd::std_specs::convert::FromSpecImpl<(u16, u16)> for Pos {
    open spec fn obeys_from_spec() -> bool {
        true
    }

    open spec fn from_spec(value: (u16, u16)) -> Pos {
        Pos { x: value.0, y: value.1 }
    }
}

/// A clamped position is on the canvas, and clamping leaves a position that
/// is on the canvas where it is.
pub proof fn lemma_constrain_is_on_canvas(p: Pos, size: Pos)
    ensures
        size.x >= 1 ==> p.spec_constrain(size).x < size.x,
        size.y >= 1 ==> p.spec_constrain(size).y < size.y,
        p.x < size.x && p.y < size.y ==> p.spec_constrain(size) == p,
        p.spec_constrain(size).spec_constrain(size) == p.spec_constrain(size),
        p.spec_constrain(size).x <= p.x,
        p.spec_constrain(size).y <= p.y,
{
}

/// The offset of a position within a field is at most the field's width and
/// leads from the field's anchor to the position.
pub proof fn lemma_within_is_an_offset(p: Pos, origin: Pos, length: u16)
    requires
        p.spec_within(origin, length) is Some,
    ensures
        p.spec_within(origin, length)->0 <= length,
        origin.x + p.spec_within(origin, length)->0 == p.x,
        origin.y == p.y,
{
}

/// A move along the row stays on the row's cells left of `max`, and goes
/// exactly `by` cells wherever that does not leave them.
pub proof fn lemma_move_x_is_clamped(p: Pos, by: i16, max: u16)
    ensures
        max >= 1 ==> p.spec_move_x(by, max).x < max,
        0 <= p.x + by < max ==> p.spec_move_x(by, max).x == p.x + by,
        p.spec_move_x(by, max).y == p.y,
{
}

/// The row-major order is a strict total order.
pub proof fn lemma_precedes_total(a: Pos, b: Pos, c: Pos)
    ensures
        !a.precedes(a),
        a.precedes(b) || b.precedes(a) || a == b,
        a.precedes(b) ==> !b.precedes(a),
        a.precedes(b) && b.precedes(c) ==> a.precedes(c),
{
}

} // verus!
