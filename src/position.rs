use vstd::prelude::*;

verus! {

/// Side length of the board used by default.
pub const GRID_NUM: usize = 8;

/// Largest side length a board may have, so that every coordinate and every
/// cell count fits comfortably in `i32`.
pub const MAX_GRID_DIM: usize = 4096;

/// A cell coordinate on the board; `x` is the column and `y` the row.
#[derive(Clone, Copy, Debug, PartialEq, Eq, Hash, Structural)]
pub struct Position {
    pub x: i32,
    pub y: i32,
}

impl Position {
    pub fn new(x: i32, y: i32) -> (r: Position)
        ensures
            r.x == x,
            r.y == y,
    {
        Position { x, y }
    }

    /// The cell this position names, as a pair of mathematical integers.
    pub open spec fn cell(self) -> (int, int) {
        (self.x as int, self.y as int)
    }
}

impl Default for Position {
    fn default() -> (r: Position)
        ensures
            r.x == 0,
            r.y == 0,
    {
        Position { x: 0, y: 0 }
    }
}

/// Whether a cell lies on a board of side `n`.
pub open spec fn in_board(n: nat, c: (int, int)) -> bool {
    0 <= c.0 < n && 0 <= c.1 < n
}

/// Bounds that follow from the board's largest side length.
pub proof fn lemma_dim_bound(n: nat)
    requires
        n <= MAX_GRID_DIM,
    ensures
        n * n <= MAX_GRID_DIM * MAX_GRID_DIM,
        MAX_GRID_DIM * MAX_GRID_DIM < i32::MAX,
{
    assert(n * n <= MAX_GRID_DIM * MAX_GRID_DIM) by (nonlinear_arith)
        requires n <= MAX_GRID_DIM;
}

} // verus!
