//! Rule engine of a two-player rectangle elimination game on a square grid.
//!
//! Players take turns selecting axis-aligned rectangles of occupied cells;
//! a fully occupied selection of at least 2x2 cells is removed and the turn
//! passes. The game ends when no fully occupied 2x2 block is left.
pub mod position;
pub mod grid;
pub mod selection;
pub mod elimination;
pub mod turn;
pub mod game_over;
pub mod mapgen;
pub mod game;
