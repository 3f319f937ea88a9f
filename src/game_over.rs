use vstd::prelude::*;
use crate::grid::Grid;
use crate::position::{Position, in_board};
use crate::selection::{Rect, fully_occupied};

verus! {

/// The 2x2 block whose lower corner is column `i`, row `j` is fully in `g`.
pub open spec fn block_at(g: Set<(int, int)>, i: int, j: int) -> bool {
    &&& g.contains((i, j))
    &&& g.contains((i + 1, j))
    &&& g.contains((i, j + 1))
    &&& g.contains((i + 1, j + 1))
}

/// Some fully occupied 2x2 block lies on a board of side `n`.
pub open spec fn has_block(g: Set<(int, int)>, n: nat) -> bool {
    exists|i: int, j: int| 0 <= i < n - 1 && 0 <= j < n - 1 && #[trigger] block_at(g, i, j)
}

/// Some rectangle of at least 2x2 cells could be eliminated from `g`.
pub open spec fn has_move(g: Set<(int, int)>) -> bool {
    exists|r: Rect| r.normalized() && !r.is_degenerate() && #[trigger] fully_occupied(g, r)
}

/// Whether no fully occupied 2x2 block is left, that is, the game is over.
pub fn is_terminal(grid: &Grid) -> (r: bool)
    requires
        grid.wf(),
    ensures
        r == !has_block(grid@, grid.dim()),
{
    let n = grid.dimension();
    proof {
        grid.lemma_view_on_board();
    }
    if n < 2 {
        return true;
    }
    let mut j: usize = 0;
    while j < n - 1
        invariant
            grid.wf(),
            n == grid.dim(),
            2 <= n <= crate::position::MAX_GRID_DIM,
            j <= n - 1,
            forall|a: int, b: int| 0 <= a < n - 1 && 0 <= b < j ==> !#[trigger] block_at(grid@, a, b),
        decreases n - 1 - j,
    {
        let mut i: usize = 0;
        while i < n - 1
            invariant
                grid.wf(),
                n == grid.dim(),
                2 <= n <= crate::position::MAX_GRID_DIM,
                j < n - 1,
                i <= n - 1,
                forall|a: int, b: int| 0 <= a < n - 1 && 0 <= b < j ==> !#[trigger] block_at(grid@, a, b),
                forall|a: int| 0 <= a < i ==> !#[trigger] block_at(grid@, a, j as int),
            decreases n - 1 - i,
        {
            let x = i as i32;
            let y = j as i32;
            if grid.is_occupied(Position { x, y }) && grid.is_occupied(Position { x: x + 1, y })
                && grid.is_occupied(Position { x, y: y + 1 }) && grid.is_occupied(Position { x: x + 1, y: y + 1 }) {
                assert(block_at(grid@, i as int, j as int));
                return false;
            }
            i = i + 1;
        }
        j = j + 1;
    }
    true
}

/// The 2x2 scan is exact: a board has a fully occupied 2x2 block if and only
/// if some rectangle of at least 2x2 cells can be eliminated from it.
pub proof fn lemma_block_iff_move(grid: &Grid)
    requires
        grid.wf(),
    ensures
        has_block(grid@, grid.dim()) <==> has_move(grid@),
{
    let g = grid@;
    grid.lemma_view_on_board();
    if has_block(g, grid.dim()) {
        let (i, j) = choose|i: int, j: int| 0 <= i < grid.dim() - 1 && 0 <= j < grid.dim() - 1 && #[trigger] block_at(g, i, j);
        let r = Rect { lx: i as i32, ly: j as i32, rx: (i + 1) as i32, ry: (j + 1) as i32 };
        assert forall|c: (int, int)| r.contains(c) implies #[trigger] g.contains(c) by {
            assert(c == (i, j) || c == (i + 1, j) || c == (i, j + 1) || c == (i + 1, j + 1));
        }
        assert(fully_occupied(g, r));
    }
    if has_move(g) {
        let r = choose|r: Rect| r.normalized() && !r.is_degenerate() && #[trigger] fully_occupied(g, r);
        let i = r.lx as int;
        let j = r.ly as int;
        assert(r.contains((i, j)) && r.contains((i + 1, j)) && r.contains((i, j + 1)) && r.contains((i + 1, j + 1)));
        assert(g.contains((i + 1, j + 1)));
        assert(in_board(grid.dim(), (i + 1, j + 1)));
        assert(block_at(g, i, j));
    }
}

} // verus!
