use vstd::prelude::*;
use crate::position::{Position, in_board, MAX_GRID_DIM};

verus! {

/// A square board of side `n`; `cells[y][x]` tells whether the cell at
/// column `x`, row `y` is occupied.
pub struct Grid {
    n: usize,
    cells: Vec<Vec<bool>>,
}

/// Every cell of a board of side `n`.
pub open spec fn full_board(n: nat) -> Set<(int, int)> {
    Set::new(|c: (int, int)| in_board(n, c))
}

/// The cells named by a sequence of positions.
pub open spec fn cells_of(ps: Seq<Position>) -> Set<(int, int)> {
    Set::new(|c: (int, int)| exists|i: int| 0 <= i < ps.len() && (#[trigger] ps[i]).cell() == c)
}

/// Extending a prefix by one position adds that position's cell.
proof fn lemma_cells_of_prefix(ps: Seq<Position>, i: int)
    requires
        0 <= i < ps.len(),
    ensures
        cells_of(ps.subrange(0, i + 1)) == cells_of(ps.subrange(0, i)).insert(ps[i].cell()),
{
    let prev = ps.subrange(0, i);
    let next = ps.subrange(0, i + 1);
    assert forall|c: (int, int)| cells_of(next).contains(c) <==> cells_of(prev).insert(ps[i].cell()).contains(c) by {
        if cells_of(next).contains(c) {
            let k = choose|k: int| 0 <= k < next.len() && (#[trigger] next[k]).cell() == c;
            if k < i {
                assert(prev[k] == next[k]);
            }
        }
        if cells_of(prev).contains(c) && c != ps[i].cell() {
            let k = choose|k: int| 0 <= k < prev.len() && (#[trigger] prev[k]).cell() == c;
            assert(prev[k] == next[k]);
        }
        if c == ps[i].cell() {
            assert(next[i] == ps[i]);
        }
    }
    assert(cells_of(next) =~= cells_of(prev).insert(ps[i].cell()));
}

impl View for Grid {
    type V = Set<(int, int)>;

    /// The set of occupied cells.
    closed spec fn view(&self) -> Set<(int, int)> {
        Set::new(|c: (int, int)| in_board(self.n as nat, c) && self.cells@[c.1]@[c.0])
    }
}

impl Grid {
    /// Side length of the board.
    pub closed spec fn dim(&self) -> nat {
        self.n as nat
    }

    pub closed spec fn wf(&self) -> bool {
        &&& self.n <= MAX_GRID_DIM
        &&& self.cells@.len() == self.n
        &&& forall|y: int| 0 <= y < self.n ==> (#[trigger] self.cells@[y])@.len() == self.n
    }

    /// Occupied cells always lie on the board.
    pub proof fn lemma_view_on_board(&self)
        requires
            self.wf(),
        ensures
            self.dim() <= MAX_GRID_DIM,
            forall|c: (int, int)| #[trigger] self@.contains(c) ==> in_board(self.dim(), c),
    {
    }

    pub fn dimension(&self) -> (r: usize)
        ensures
            r == self.dim(),
    {
        self.n
    }

    /// A board of side `n` with no occupied cell.
    pub fn empty(n: usize) -> (g: Grid)
        requires
            n <= MAX_GRID_DIM,
        ensures
            g.wf(),
            g.dim() == n,
            g@ == Set::<(int, int)>::empty(),
    {
        let mut cells: Vec<Vec<bool>> = Vec::new();
        let mut y: usize = 0;
        while y < n
            invariant
                y <= n,
                cells@.len() == y,
                forall|j: int| 0 <= j < y ==> (#[trigger] cells@[j])@.len() == n
                    && forall|x: int| 0 <= x < n ==> !cells@[j]@[x],
            decreases n - y,
        {
            let mut row: Vec<bool> = Vec::new();
            let mut x: usize = 0;
            while x < n
                invariant
                    x <= n,
                    row@.len() == x,
                    forall|i: int| 0 <= i < x ==> !row@[i],
                decreases n - x,
            {
                row.push(false);
                x = x + 1;
            }
            cells.push(row);
            y = y + 1;
        }
        let g = Grid { n, cells };
        assert(g@ =~= Set::<(int, int)>::empty());
        g
    }

    /// Builds a board from its rows: `rows[y][x]` tells whether the cell at
    /// column `x`, row `y` is occupied. Gives `None` unless the rows form a
    /// square of side at most `MAX_GRID_DIM`.
    pub fn from_rows(rows: Vec<Vec<bool>>) -> (r: Option<Grid>)
        ensures
            r.is_some() <==> (rows@.len() <= MAX_GRID_DIM && forall|y: int|
                0 <= y < rows@.len() ==> (#[trigger] rows@[y])@.len() == rows@.len()),
            r matches Some(g) ==> {
                &&& g.wf()
                &&& g.dim() == rows@.len()
                &&& forall|c: (int, int)| #[trigger] g@.contains(c) <==> in_board(g.dim(), c)
                    && rows@[c.1]@[c.0]
            },
    {
        let n = rows.len();
        if n > MAX_GRID_DIM {
            return None;
        }
        let mut y: usize = 0;
        while y < n
            invariant
                y <= n,
                n == rows@.len(),
                forall|j: int| 0 <= j < y ==> (#[trigger] rows@[j])@.len() == n,
            decreases n - y,
        {
            if rows[y].len() != n {
                return None;
            }
            y = y + 1;
        }
        Some(Grid { n, cells: rows })
    }

    /// A board of side `n` whose occupied cells are exactly those listed.
    pub fn from_occupied(n: usize, occupied: &Vec<Position>) -> (g: Grid)
        requires
            n <= MAX_GRID_DIM,
            forall|i: int| 0 <= i < occupied@.len() ==> in_board(n as nat, (#[trigger] occupied@[i]).cell()),
        ensures
            g.wf(),
            g.dim() == n,
            g@ == cells_of(occupied@),
    {
        let mut g = Grid::empty(n);
        let mut i: usize = 0;
        while i < occupied.len()
            invariant
                i <= occupied@.len(),
                g.wf(),
                g.dim() == n,
                forall|k: int| 0 <= k < occupied@.len() ==> in_board(n as nat, (#[trigger] occupied@[k]).cell()),
                g@ == cells_of(occupied@.subrange(0, i as int)),
            decreases occupied@.len() - i,
        {
            let p = occupied[i];
            g.set_cell(p, true);
            proof {
                lemma_cells_of_prefix(occupied@, i as int);
            }
            i = i + 1;
        }
        assert(occupied@.subrange(0, occupied@.len() as int) =~= occupied@);
        g
    }

    fn set_cell(&mut self, p: Position, v: bool)
        requires
            old(self).wf(),
            in_board(old(self).dim(), p.cell()),
        ensures
            final(self).wf(),
            final(self).dim() == old(self).dim(),
            final(self)@ == if v { old(self)@.insert(p.cell()) } else { old(self)@.remove(p.cell()) },
    {
        let ghost before = self@;
        let y = p.y as usize;
        let x = p.x as usize;
        let mut row = self.cells[y].clone();
        row.set(x, v);
        self.cells.set(y, row);
        if v {
            assert(self@ =~= before.insert(p.cell()));
        } else {
            assert(self@ =~= before.remove(p.cell()));
        }
    }

    /// Whether the cell at `p` is occupied; cells off the board never are.
    pub fn is_occupied(&self, p: Position) -> (r: bool)
        requires
            self.wf(),
        ensures
            r == self@.contains(p.cell()),
    {
        if p.x < 0 || p.y < 0 || p.x as usize >= self.n || p.y as usize >= self.n {
            false
        } else {
            self.cells[p.y as usize][p.x as usize]
        }
    }

    /// Removes one cell; removing a cell that is not occupied changes nothing.
    pub fn remove_cell(&mut self, p: Position)
        requires
            old(self).wf(),
        ensures
            final(self).wf(),
            final(self).dim() == old(self).dim(),
            final(self)@ == old(self)@.remove(p.cell()),
    {
        if p.x < 0 || p.y < 0 || p.x as usize >= self.n || p.y as usize >= self.n {
            assert(self@.remove(p.cell()) =~= self@);
        } else {
            self.set_cell(p, false);
        }
    }

    /// Removes each listed cell; listed cells that are not occupied are ignored.
    pub fn remove(&mut self, coords: &Vec<Position>)
        requires
            old(self).wf(),
        ensures
            final(self).wf(),
            final(self).dim() == old(self).dim(),
            final(self)@ == old(self)@.difference(cells_of(coords@)),
    {
        let ghost start = self@;
        let mut i: usize = 0;
        while i < coords.len()
            invariant
                i <= coords@.len(),
                self.wf(),
                self.dim() == old(self).dim(),
                start == old(self)@,
                self@ == start.difference(cells_of(coords@.subrange(0, i as int))),
            decreases coords@.len() - i,
        {
            let p = coords[i];
            self.remove_cell(p);
            proof {
                lemma_cells_of_prefix(coords@, i as int);
                assert(self@ =~= start.difference(cells_of(coords@.subrange(0, i as int + 1))));
            }
            i = i + 1;
        }
        assert(coords@.subrange(0, coords@.len() as int) =~= coords@);
    }

    /// The occupied cells, each listed once, row by row.
    pub fn occupied_cells(&self) -> (r: Vec<Position>)
        requires
            self.wf(),
        ensures
            cells_of(r@) == self@,
            r@.map_values(|p: Position| p.cell()).no_duplicates(),
    {
        let mut r: Vec<Position> = Vec::new();
        let n = self.n;
        let mut y: usize = 0;
        while y < n
            invariant
                self.wf(),
                n == self.n,
                y <= n,
                forall|c: (int, int)| #[trigger] cells_of(r@).contains(c) <==> self@.contains(c) && c.1 < y,
                forall|i: int| 0 <= i < r@.len() ==> (#[trigger] r@[i]).y < y && self@.contains(r@[i].cell()),
                forall|i: int, j: int| 0 <= i < j < r@.len() ==> (#[trigger] r@[i]).cell() != (#[trigger] r@[j]).cell(),
            decreases n - y,
        {
            let mut x: usize = 0;
            while x < n
                invariant
                    self.wf(),
                    n == self.n,
                    y < n,
                    x <= n,
                    forall|c: (int, int)| #[trigger] cells_of(r@).contains(c) <==> self@.contains(c)
                        && (c.1 < y || (c.1 == y && c.0 < x)),
                    forall|i: int| 0 <= i < r@.len() ==> ((#[trigger] r@[i]).y < y || (r@[i].y == y && r@[i].x < x))
                        && self@.contains(r@[i].cell()),
                    forall|i: int, j: int| 0 <= i < j < r@.len() ==> (#[trigger] r@[i]).cell() != (#[trigger] r@[j]).cell(),
                decreases n - x,
            {
                if self.cells[y][x] {
                    let p = Position { x: x as i32, y: y as i32 };
                    let ghost prev = r@;
                    r.push(p);
                    proof {
                        assert(r@[prev.len() as int] == p);
                        assert forall|c: (int, int)| #[trigger] cells_of(r@).contains(c) <==> self@.contains(c)
                            && (c.1 < y || (c.1 == y && c.0 < x + 1)) by {
                            if cells_of(r@).contains(c) {
                                let k = choose|k: int| 0 <= k < r@.len() && (#[trigger] r@[k]).cell() == c;
                                if k < prev.len() {
                                    assert(prev[k] == r@[k]);
                                    assert(cells_of(prev).contains(c));
                                }
                            }
                            if self@.contains(c) && (c.1 < y || (c.1 == y && c.0 < x)) {
                                assert(cells_of(prev).contains(c));
                                let k = choose|k: int| 0 <= k < prev.len() && (#[trigger] prev[k]).cell() == c;
                                assert(r@[k] == prev[k]);
                            }
                        }
                    }
                } else {
                    assert forall|c: (int, int)| #[trigger] cells_of(r@).contains(c) <==> self@.contains(c)
                        && (c.1 < y || (c.1 == y && c.0 < x + 1)) by {
                        if c == (x as int, y as int) {
                            assert(!self@.contains(c));
                        }
                    }
                }
                x = x + 1;
            }
            y = y + 1;
        }
        assert(cells_of(r@) =~= self@);
        proof {
            let m = r@.map_values(|p: Position| p.cell());
            assert forall|i: int, j: int| 0 <= i < m.len() && 0 <= j < m.len() && i != j implies m[i] != m[j] by {
                if i < j {
                    assert(r@[i].cell() != r@[j].cell());
                } else {
                    assert(r@[j].cell() != r@[i].cell());
                }
            }
        }
        r
    }
}

} // verus!
