use vstd::prelude::*;
use crate::grid::Grid;
use crate::position::{Position, in_board};

verus! {

/// An axis-aligned rectangle of cells: columns `lx..=rx`, rows `ly..=ry`.
#[derive(Clone, Copy, Debug, PartialEq, Eq, Structural)]
pub struct Rect {
    pub lx: i32,
    pub ly: i32,
    pub rx: i32,
    pub ry: i32,
}

pub open spec fn min_i32(a: i32, b: i32) -> i32 {
    if a <= b { a } else { b }
}

pub open spec fn max_i32(a: i32, b: i32) -> i32 {
    if a <= b { b } else { a }
}

/// The bounding rectangle of two corner cells, each axis ordered on its own.
pub open spec fn rect_of(anchor: Position, live: Position) -> Rect {
    Rect {
        lx: min_i32(anchor.x, live.x),
        ly: min_i32(anchor.y, live.y),
        rx: max_i32(anchor.x, live.x),
        ry: max_i32(anchor.y, live.y),
    }
}

impl Rect {
    pub open spec fn normalized(self) -> bool {
        self.lx <= self.rx && self.ly <= self.ry
    }

    pub open spec fn contains(self, c: (int, int)) -> bool {
        self.lx <= c.0 <= self.rx && self.ly <= c.1 <= self.ry
    }

    /// The set of cells the rectangle covers.
    pub open spec fn cells(self) -> Set<(int, int)> {
        Set::new(|c: (int, int)| self.contains(c))
    }

    pub open spec fn width(self) -> int {
        self.rx - self.lx + 1
    }

    pub open spec fn height(self) -> int {
        self.ry - self.ly + 1
    }

    /// Number of cells the rectangle covers.
    pub open spec fn area(self) -> int {
        self.width() * self.height()
    }

    /// A single row or a single column.
    pub open spec fn is_degenerate(self) -> bool {
        self.lx == self.rx || self.ly == self.ry
    }

    pub open spec fn on_board(self, n: nat) -> bool {
        &&& 0 <= self.lx
        &&& 0 <= self.ly
        &&& self.rx < n
        &&& self.ry < n
    }
}

/// Every cell of `r` is in `g`.
pub open spec fn fully_occupied(g: Set<(int, int)>, r: Rect) -> bool {
    forall|c: (int, int)| r.contains(c) ==> #[trigger] g.contains(c)
}

/// Number of cells of `g` among the `w` cells of row `y` starting at column `lx`.
pub open spec fn count_row(g: Set<(int, int)>, y: int, lx: int, w: nat) -> nat
    decreases w,
{
    if w == 0 {
        0
    } else {
        count_row(g, y, lx, (w - 1) as nat) + if g.contains((lx + w - 1, y)) { 1nat } else { 0nat }
    }
}

/// Number of cells of `g` in the first `h` rows of `r`.
pub open spec fn count_rows(g: Set<(int, int)>, r: Rect, h: nat) -> nat
    decreases h,
{
    if h == 0 {
        0
    } else {
        count_rows(g, r, (h - 1) as nat) + count_row(g, r.ly + h - 1, r.lx as int, r.width() as nat)
    }
}

/// Number of cells of `g` inside `r`.
pub open spec fn count_in_rect(g: Set<(int, int)>, r: Rect) -> nat {
    count_rows(g, r, r.height() as nat)
}

proof fn lemma_count_row(g: Set<(int, int)>, y: int, lx: int, w: nat)
    ensures
        count_row(g, y, lx, w) <= w,
        count_row(g, y, lx, w) == w <==> forall|x: int| lx <= x < lx + w ==> #[trigger] g.contains((x, y)),
    decreases w,
{
    if w > 0 {
        lemma_count_row(g, y, lx, (w - 1) as nat);
        if count_row(g, y, lx, w) == w {
            assert forall|x: int| lx <= x < lx + w implies #[trigger] g.contains((x, y)) by {
                if x < lx + w - 1 {
                    assert(g.contains((x, y)));
                }
            }
        }
    }
}

proof fn lemma_count_rows(g: Set<(int, int)>, r: Rect, h: nat)
    requires
        r.normalized(),
    ensures
        count_rows(g, r, h) <= h * r.width(),
        count_rows(g, r, h) == h * r.width() <==> forall|c: (int, int)|
            r.lx <= c.0 <= r.rx && r.ly <= c.1 < r.ly + h ==> #[trigger] g.contains(c),
    decreases h,
{
    let w = r.width() as nat;
    if h > 0 {
        lemma_count_rows(g, r, (h - 1) as nat);
        lemma_count_row(g, r.ly + h - 1, r.lx as int, w);
        assert((h - 1) * w + w == h * w) by (nonlinear_arith);
        let all_rows = forall|c: (int, int)|
            r.lx <= c.0 <= r.rx && r.ly <= c.1 < r.ly + h ==> #[trigger] g.contains(c);
        if count_rows(g, r, h) == h * w {
            assert forall|c: (int, int)| r.lx <= c.0 <= r.rx && r.ly <= c.1 < r.ly + h implies #[trigger] g.contains(c) by {
                if c.1 == r.ly + h - 1 {
                    assert(g.contains((c.0, r.ly + h - 1)));
                }
            }
        }
        if all_rows {
            assert forall|x: int| r.lx <= x < r.lx + w implies #[trigger] g.contains((x, r.ly + h - 1)) by {
                assert(g.contains((x, r.ly + h - 1)));
            }
        }
    }
}

/// Counting the occupied cells inside a rectangle and comparing the count
/// with the rectangle's area tells exactly whether every cell is occupied.
pub proof fn lemma_count_matches_full(g: Set<(int, int)>, r: Rect)
    requires
        r.normalized(),
    ensures
        count_in_rect(g, r) <= r.area(),
        count_in_rect(g, r) == r.area() <==> fully_occupied(g, r),
{
    lemma_count_rows(g, r, r.height() as nat);
    assert(r.height() * r.width() == r.area()) by (nonlinear_arith);
}

/// Swapping the two corners of a selection gives the same rectangle, and the
/// rectangle is always normalized.
pub proof fn lemma_rect_of_symmetric(a: Position, b: Position)
    ensures
        rect_of(a, b) == rect_of(b, a),
        rect_of(a, b).normalized(),
        rect_of(a, b).contains(a.cell()),
        rect_of(a, b).contains(b.cell()),
{
}

/// The bounding rectangle of `anchor` and `live`, each axis ordered on its own.
pub fn compute_rectangle(anchor: Position, live: Position) -> (r: Rect)
    ensures
        r == rect_of(anchor, live),
        r.normalized(),
{
    let (lx, rx) = if anchor.x <= live.x { (anchor.x, live.x) } else { (live.x, anchor.x) };
    let (ly, ry) = if anchor.y <= live.y { (anchor.y, live.y) } else { (live.y, anchor.y) };
    Rect { lx, ly, rx, ry }
}

/// Number of occupied cells inside `rect`, which lies on the board.
pub fn count_occupied(grid: &Grid, rect: &Rect) -> (count: usize)
    requires
        grid.wf(),
        rect.normalized(),
        rect.on_board(grid.dim()),
    ensures
        count == count_in_rect(grid@, *rect),
{
    let ghost g = grid@;
    let ghost w = rect.width() as nat;
    proof {
        grid.lemma_view_on_board();
    }
    let mut count: usize = 0;
    let mut y: i32 = rect.ly;
    while y <= rect.ry
        invariant
            grid.wf(),
            g == grid@,
            w == rect.width(),
            rect.normalized(),
            rect.on_board(grid.dim()),
            grid.dim() <= crate::position::MAX_GRID_DIM,
            rect.ly <= y <= rect.ry + 1,
            count == count_rows(g, *rect, (y - rect.ly) as nat),
            count <= (y - rect.ly) * w,
        decreases rect.ry + 1 - y,
    {
        let ghost before = count;
        let mut x: i32 = rect.lx;
        while x <= rect.rx
            invariant
                grid.wf(),
                g == grid@,
                w == rect.width(),
                rect.normalized(),
                rect.on_board(grid.dim()),
                grid.dim() <= crate::position::MAX_GRID_DIM,
                rect.ly <= y <= rect.ry,
                rect.lx <= x <= rect.rx + 1,
                before == count_rows(g, *rect, (y - rect.ly) as nat),
                before <= (y - rect.ly) * w,
                count == before + count_row(g, y as int, rect.lx as int, (x - rect.lx) as nat),
            decreases rect.rx + 1 - x,
        {
            proof {
                lemma_count_row(g, y as int, rect.lx as int, (x - rect.lx) as nat);
                assert((y - rect.ly) * w + w <= crate::position::MAX_GRID_DIM * crate::position::MAX_GRID_DIM)
                    by (nonlinear_arith)
                    requires
                        0 <= y - rect.ly < crate::position::MAX_GRID_DIM,
                        w <= crate::position::MAX_GRID_DIM;
            }
            if grid.is_occupied(Position { x, y }) {
                count = count + 1;
            }
            x = x + 1;
        }
        proof {
            lemma_count_row(g, y as int, rect.lx as int, w);
            assert((y - rect.ly) * w + w == (y + 1 - rect.ly) * w) by (nonlinear_arith);
        }
        y = y + 1;
    }
    count
}

/// Whether every cell of `rect` is occupied, decided the way the game does it:
/// a rectangle that leaves the board cannot be fully occupied; otherwise the
/// occupied cells inside it are counted and compared with its area.
pub fn is_valid(grid: &Grid, rect: &Rect) -> (r: bool)
    requires
        grid.wf(),
        rect.normalized(),
    ensures
        r == fully_occupied(grid@, *rect),
{
    proof {
        grid.lemma_view_on_board();
        crate::position::lemma_dim_bound(grid.dim());
    }
    let n = grid.dimension();
    if rect.lx < 0 || rect.ly < 0 || rect.rx as i64 >= n as i64 || rect.ry as i64 >= n as i64 {
        proof {
            let c = if rect.lx < 0 || rect.rx >= n { (if rect.lx < 0 { rect.lx as int } else { rect.rx as int }, rect.ly as int) }
                else { (rect.lx as int, if rect.ly < 0 { rect.ly as int } else { rect.ry as int }) };
            assert(rect.contains(c) && !grid@.contains(c));
        }
        return false;
    }
    let count = count_occupied(grid, rect);
    proof {
        lemma_count_matches_full(grid@, *rect);
    }
    let w = (rect.rx - rect.lx + 1) as usize;
    let h = (rect.ry - rect.ly + 1) as usize;
    proof {
        assert(w * h <= crate::position::MAX_GRID_DIM * crate::position::MAX_GRID_DIM) by (nonlinear_arith)
            requires w <= crate::position::MAX_GRID_DIM, h <= crate::position::MAX_GRID_DIM;
        assert(w * h == rect.area());
    }
    count == w * h
}

} // verus!
