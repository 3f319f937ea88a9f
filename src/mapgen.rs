use vstd::prelude::*;
use crate::grid::{Grid, full_board};
use crate::position::MAX_GRID_DIM;

verus! {

/// Relies on `rand::Rng::gen_ratio` over `rand::thread_rng()`: `true` with
/// chance `numerator / denominator`; certainly `false` when `numerator` is 0
/// and certainly `true` when `numerator == denominator`. It panics when
/// `denominator` is 0 or `numerator > denominator`.
#[verifier::external_body]
fn random_ratio(numerator: u32, denominator: u32) -> (r: bool)
    requires
        0 < denominator,
        numerator <= denominator,
    ensures
        numerator == 0 ==> !r,
        numerator == denominator ==> r,
{
    rand::Rng::gen_ratio(&mut rand::thread_rng(), numerator, denominator)
}

/// A board of side `n` where each cell is occupied, independently, with
/// chance `numerator / denominator`. A chance of 0 gives an empty board and a
/// chance of 1 a full one.
pub fn generate_random_map(n: usize, numerator: u32, denominator: u32) -> (g: Grid)
    requires
        n <= MAX_GRID_DIM,
        0 < denominator,
        numerator <= denominator,
    ensures
        g.wf(),
        g.dim() == n,
        numerator == 0 ==> g@ == Set::<(int, int)>::empty(),
        numerator == denominator ==> g@ == full_board(n as nat),
{
    let mut rows: Vec<Vec<bool>> = Vec::new();
    let mut y: usize = 0;
    while y < n
        invariant
            y <= n,
            0 < denominator,
            numerator <= denominator,
            rows@.len() == y,
            forall|j: int| 0 <= j < y ==> (#[trigger] rows@[j])@.len() == n,
            forall|j: int, x: int| 0 <= j < y && 0 <= x < n ==> (numerator == 0 ==> !#[trigger] rows@[j]@[x])
                && (numerator == denominator ==> rows@[j]@[x]),
        decreases n - y,
    {
        let mut row: Vec<bool> = Vec::new();
        let mut x: usize = 0;
        while x < n
            invariant
                x <= n,
                0 < denominator,
                numerator <= denominator,
                row@.len() == x,
                forall|i: int| 0 <= i < x ==> (numerator == 0 ==> !(#[trigger] row@[i]))
                    && (numerator == denominator ==> row@[i]),
            decreases n - x,
        {
            row.push(random_ratio(numerator, denominator));
            x = x + 1;
        }
        rows.push(row);
        y = y + 1;
    }
    match Grid::from_rows(rows) {
        Some(g) => {
            assert(numerator == 0 ==> g@ =~= Set::<(int, int)>::empty());
            assert(numerator == denominator ==> g@ =~= full_board(n as nat));
            g
        },
        None => vstd::pervasive::unreached(),
    }
}

} // verus!
