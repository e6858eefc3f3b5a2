//! Arrow-key movement of a cursor on a canvas.

use crate::event::KeyCode;
use crate::pos::{clamp_below, Pos};
use vstd::prelude::*;

verus! {

/// Columns an arrow key moves the cursor by.
pub open spec fn delta_x(code: KeyCode) -> int {
    match code {
        KeyCode::Left => -1,
        KeyCode::Right => 1,
        _ => 0,
    }
}

/// Rows an arrow key moves the cursor by.
pub open spec fn delta_y(code: KeyCode) -> int {
    match code {
        KeyCode::Up => -1,
        KeyCode::Down => 1,
        _ => 0,
    }
}

/// The cursor after `code`: one cell in the arrow's direction, kept on a
/// canvas of `size.x` columns and `size.y` rows. Any other key only clamps.
pub open spec fn spec_moved(cursor: Pos, code: KeyCode, size: Pos) -> Pos {
    Pos {
        x: clamp_below(cursor.x + delta_x(code), size.x as int) as u16,
        y: clamp_below(cursor.y + delta_y(code), size.y as int) as u16,
    }
}

/// After any key the cursor is on the canvas, if the canvas has a cell at
/// all; an arrow key moves it by one cell where that cell is on the canvas,
/// and leaves it where it is at the canvas's edge.
pub proof fn lemma_moved_stays_on_canvas(cursor: Pos, code: KeyCode, size: Pos)
    requires
        size.x >= 1,
        size.y >= 1,
    ensures
        spec_moved(cursor, code, size).x < size.x,
        spec_moved(cursor, code, size).y < size.y,
        cursor.x < size.x && cursor.y < size.y ==> {
            &&& spec_moved(cursor, KeyCode::Right, size).x == (if cursor.x + 1 < size.x {
                cursor.x + 1
            } else {
                cursor.x as int
            })
            &&& spec_moved(cursor, KeyCode::Left, size).x == (if cursor.x >= 1 {
                cursor.x - 1
            } else {
                0
            })
            &&& spec_moved(cursor, KeyCode::Down, size).y == (if cursor.y + 1 < size.y {
                cursor.y + 1
            } else {
                cursor.y as int
            })
            &&& spec_moved(cursor, KeyCode::Up, size).y == (if cursor.y >= 1 {
                cursor.y - 1
            } else {
                0
            })
        },
{
}

/// Moves `cursor` one cell for an arrow key and clamps it to the canvas.
pub fn moved(cursor: Pos, code: KeyCode, size: Pos) -> (r: Pos)
    ensures
        r == spec_moved(cursor, code, size),
{
    let stepped: Pos = match code {
        KeyCode::Left => Pos { x: if cursor.x >= 1 { cursor.x - 1 } else { 0 }, y: cursor.y },
        KeyCode::Up => Pos { x: cursor.x, y: if cursor.y >= 1 { cursor.y - 1 } else { 0 } },
        KeyCode::Right => {
            if cursor.x == u16::MAX {
                // one past the last column, whatever the canvas: the clamp decides
                return Pos {
                    x: if size.x >= 1 { size.x - 1 } else { 0 },
                    y: cursor.constrain(size).y,
                };
            }
            Pos { x: cursor.x + 1, y: cursor.y }
        },
        KeyCode::Down => {
            if cursor.y == u16::MAX {
                return Pos {
                    x: cursor.constrain(size).x,
                    y: if size.y >= 1 { size.y - 1 } else { 0 },
                };
            }
            Pos { x: cursor.x, y: cursor.y + 1 }
        },
        _ => cursor,
    };
    stepped.constrain(size)
}

} // verus!
