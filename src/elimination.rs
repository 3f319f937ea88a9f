use vstd::prelude::*;
use crate::grid::Grid;
use crate::position::Position;
use crate::selection::Rect;

verus! {

/// Whether a release with this validity and rectangle removes cells: the
/// selection must be known to be valid and span at least two columns and
/// two rows.
pub open spec fn eliminates(rect: Rect, is_valid: Option<bool>) -> bool {
    is_valid == Some(true) && !rect.is_degenerate()
}

/// Removes every cell of `rect` from `grid` when the selection is valid and
/// not a single row or column; otherwise leaves `grid` as it is. Returns
/// whether the cells were removed.
pub fn attempt_eliminate(grid: &mut Grid, rect: &Rect, is_valid: Option<bool>) -> (performed: bool)
    requires
        old(grid).wf(),
        rect.normalized(),
    ensures
        final(grid).wf(),
        final(grid).dim() == old(grid).dim(),
        performed == eliminates(*rect, is_valid),
        performed ==> final(grid)@ == old(grid)@.difference(rect.cells()),
        !performed ==> final(grid)@ == old(grid)@,
{
    match is_valid {
        Some(true) => {},
        _ => return false,
    }
    if rect.lx == rect.rx || rect.ly == rect.ry {
        return false;
    }
    let ghost start = grid@;
    proof {
        grid.lemma_view_on_board();
    }
    assert(forall|c: (int, int)| #[trigger] start.contains(c) ==> crate::position::in_board(grid.dim(), c));
    let n = grid.dimension();
    let mut y: usize = 0;
    while y < n
        invariant
            grid.wf(),
            n == grid.dim(),
            n <= crate::position::MAX_GRID_DIM,
            start == old(grid)@,
            forall|c: (int, int)| #[trigger] start.contains(c) ==> crate::position::in_board(n as nat, c),
            grid.dim() == old(grid).dim(),
            y <= n,
            forall|c: (int, int)| #[trigger] grid@.contains(c) <==> start.contains(c)
                && !(rect.contains(c) && c.1 < y),
        decreases n - y,
    {
        let mut x: usize = 0;
        while x < n
            invariant
                grid.wf(),
                n == grid.dim(),
                n <= crate::position::MAX_GRID_DIM,
                start == old(grid)@,
                forall|c: (int, int)| #[trigger] start.contains(c) ==> crate::position::in_board(n as nat, c),
            forall|c: (int, int)| #[trigger] start.contains(c) ==> crate::position::in_board(n as nat, c),
                grid.dim() == old(grid).dim(),
                y < n,
                x <= n,
                forall|c: (int, int)| #[trigger] grid@.contains(c) <==> start.contains(c)
                    && !(rect.contains(c) && (c.1 < y || (c.1 == y && c.0 < x))),
            decreases n - x,
        {
            let p = Position { x: x as i32, y: y as i32 };
            if rect.lx <= p.x && p.x <= rect.rx && rect.ly <= p.y && p.y <= rect.ry {
                grid.remove_cell(p);
            }
            x = x + 1;
        }
        y = y + 1;
    }
    proof {
        old(grid).lemma_view_on_board();
        assert(grid@ =~= start.difference(rect.cells()));
    }
    true
}

} // verus!
