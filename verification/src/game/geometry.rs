//! The board and the distance between its cells.
use vstd::prelude::*;

verus! {

/// Side length of the square board; cells run from `0` to `BASE_BOARD_SIZE - 1`
/// on both axes.
pub const BASE_BOARD_SIZE: i16 = 140;

/// The gap between two coordinates on one axis.
pub open spec fn gap(a: int, b: int) -> int {
    if a >= b {
        a - b
    } else {
        b - a
    }
}

/// Chebyshev distance between `(ax, ay)` and `(bx, by)`: the larger of the
/// two axis gaps, which is the number of king moves between the cells.
pub open spec fn chebyshev(ax: int, ay: int, bx: int, by: int) -> int {
    if gap(ax, bx) >= gap(ay, by) {
        gap(ax, bx)
    } else {
        gap(ay, by)
    }
}

/// Whether `(x, y)` is a cell of the board.
pub open spec fn on_board(x: int, y: int) -> bool {
    0 <= x < BASE_BOARD_SIZE && 0 <= y < BASE_BOARD_SIZE
}

/// Chebyshev distance between two cells. Every pair of `i16` coordinates is
/// accepted; the result is at most `u16::MAX`.
pub fn distance(ax: i16, ay: i16, bx: i16, by: i16) -> (d: u16)
    ensures
        d == chebyshev(ax as int, ay as int, bx as int, by as int),
{
    let dx: i32 = if ax >= bx {
        ax as i32 - bx as i32
    } else {
        bx as i32 - ax as i32
    };
    let dy: i32 = if ay >= by {
        ay as i32 - by as i32
    } else {
        by as i32 - ay as i32
    };
    if dx >= dy {
        dx as u16
    } else {
        dy as u16
    }
}

/// Whether `(x, y)` is a cell of the board.
pub fn in_bounds(x: i16, y: i16) -> (b: bool)
    ensures
        b == on_board(x as int, y as int),
{
    0 <= x && x < BASE_BOARD_SIZE && 0 <= y && y < BASE_BOARD_SIZE
}

} // verus!
