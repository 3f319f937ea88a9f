use rect_elim::elimination::attempt_eliminate;
use rect_elim::game::{selection_validity, tile_highlight, Cursor, GameState, Highlight, Selection};
use rect_elim::game_over::is_terminal;
use rect_elim::grid::Grid;
use rect_elim::mapgen::generate_random_map;
use rect_elim::position::{Position, GRID_NUM, MAX_GRID_DIM};
use rect_elim::selection::{compute_rectangle, count_occupied, is_valid, Rect};
use rect_elim::turn::{Agent, PlayerSetting};

fn p(x: i32, y: i32) -> Position {
    Position::new(x, y)
}

fn grid_of(n: usize, cells: &[(i32, i32)]) -> Grid {
    let v: Vec<Position> = cells.iter().map(|&(x, y)| p(x, y)).collect();
    Grid::from_occupied(n, &v)
}

fn full(n: usize) -> Grid {
    let mut v = Vec::new();
    for y in 0..n as i32 {
        for x in 0..n as i32 {
            v.push(p(x, y));
        }
    }
    Grid::from_occupied(n, &v)
}

fn sorted_cells(g: &Grid) -> Vec<(i32, i32)> {
    let mut v: Vec<(i32, i32)> = g.occupied_cells().iter().map(|q| (q.x, q.y)).collect();
    v.sort();
    v
}

#[test]
fn square_removed_then_game_over() {
    let grid = grid_of(3, &[(0, 0), (1, 0), (0, 1), (1, 1)]);
    let mut game = GameState::new(grid);
    assert!(!game.is_game_over());
    assert_eq!(game.current_player(), false);
    game.on_press_start(p(0, 0));
    game.on_pointer_move(p(1, 1));
    assert_eq!(game.current_selection_rectangle(), Some(Rect { lx: 0, ly: 0, rx: 1, ry: 1 }));
    assert_eq!(game.current_validity(), Some(true));
    assert!(game.on_release());
    assert!(game.occupied_cells().is_empty());
    assert_eq!(game.current_player(), true);
    assert!(game.is_game_over());
    assert_eq!(game.winner(), Some(false));
    assert_eq!(game.current_validity(), None);
    assert_eq!(game.current_selection_rectangle(), None);
}

#[test]
fn single_column_is_not_eliminated() {
    let mut game = GameState::new(full(2));
    game.on_press_start(p(0, 0));
    game.on_pointer_move(p(0, 1));
    assert_eq!(game.current_validity(), Some(true));
    assert!(!game.on_release());
    assert_eq!(game.occupied_cells().len(), 4);
    assert_eq!(game.current_player(), false);
    assert!(!game.is_game_over());
}

#[test]
fn hole_makes_selection_invalid() {
    let mut cells = Vec::new();
    for y in 0..3 {
        for x in 0..3 {
            if (x, y) != (1, 1) {
                cells.push((x, y));
            }
        }
    }
    let grid = grid_of(3, &cells);
    let rect = Rect { lx: 0, ly: 0, rx: 2, ry: 2 };
    assert_eq!(count_occupied(&grid, &rect), 8);
    assert!(!is_valid(&grid, &rect));
    let cursor = Cursor { current_position: p(2, 2), last_clicked_position: Some(p(0, 0)) };
    let validity = selection_validity(&cursor, &grid);
    assert_eq!(validity, Some(false));
    let mut grid = grid;
    assert!(!attempt_eliminate(&mut grid, &rect, validity));
    assert_eq!(grid.occupied_cells().len(), 8);
    let game = GameState::new(grid);
    assert_eq!(game.current_player(), false);
}

#[test]
fn empty_board_is_over_at_start() {
    let game = GameState::new(Grid::empty(GRID_NUM));
    assert!(game.is_game_over());
    assert_eq!(game.winner(), Some(true));
    let g = GameState::start_game(0, 5, GRID_NUM);
    assert!(g.is_game_over());
    assert!(g.occupied_cells().is_empty());
}

#[test]
fn rectangle_ignores_corner_order() {
    let a = p(5, 1);
    let b = p(2, 7);
    let r = compute_rectangle(a, b);
    assert_eq!(r, Rect { lx: 2, ly: 1, rx: 5, ry: 7 });
    assert_eq!(compute_rectangle(b, a), r);
    assert_eq!(compute_rectangle(p(2, 1), p(5, 7)), r);
    assert_eq!(compute_rectangle(p(3, 3), p(3, 3)), Rect { lx: 3, ly: 3, rx: 3, ry: 3 });
}

#[test]
fn validity_matches_full_occupancy() {
    let grid = grid_of(4, &[(1, 1), (2, 1), (1, 2), (2, 2), (3, 3)]);
    assert!(is_valid(&grid, &Rect { lx: 1, ly: 1, rx: 2, ry: 2 }));
    assert!(is_valid(&grid, &Rect { lx: 3, ly: 3, rx: 3, ry: 3 }));
    assert!(!is_valid(&grid, &Rect { lx: 1, ly: 1, rx: 3, ry: 3 }));
    assert!(!is_valid(&grid, &Rect { lx: 0, ly: 0, rx: 0, ry: 0 }));
    assert_eq!(count_occupied(&grid, &Rect { lx: 0, ly: 0, rx: 3, ry: 3 }), 5);
    assert_eq!(count_occupied(&grid, &Rect { lx: 1, ly: 1, rx: 3, ry: 3 }), 5);
}

#[test]
fn selection_leaving_the_board_is_invalid() {
    let g = full(3);
    assert!(!is_valid(&g, &Rect { lx: -1, ly: 0, rx: 1, ry: 1 }));
    assert!(!is_valid(&g, &Rect { lx: 1, ly: 1, rx: 3, ry: 2 }));
    assert!(is_valid(&g, &Rect { lx: 0, ly: 0, rx: 2, ry: 2 }));
}

#[test]
fn elimination_needs_validity() {
    let mut g = full(3);
    let r = Rect { lx: 0, ly: 0, rx: 1, ry: 1 };
    assert!(!attempt_eliminate(&mut g, &r, None));
    assert!(!attempt_eliminate(&mut g, &r, Some(false)));
    assert_eq!(g.occupied_cells().len(), 9);
    let thin = Rect { lx: 0, ly: 0, rx: 2, ry: 0 };
    assert!(!attempt_eliminate(&mut g, &thin, Some(true)));
    assert_eq!(g.occupied_cells().len(), 9);
}

#[test]
fn elimination_removes_exactly_the_rectangle() {
    let mut g = full(3);
    let r = Rect { lx: 1, ly: 0, rx: 2, ry: 1 };
    assert!(attempt_eliminate(&mut g, &r, Some(true)));
    assert_eq!(sorted_cells(&g), vec![(0, 0), (0, 1), (0, 2), (1, 2), (2, 2)]);
    assert!(is_terminal(&g));
}

#[test]
fn advance_flips_and_twice_restores() {
    let mut s = PlayerSetting::default();
    assert_eq!(s.player1, Agent::Player);
    assert_eq!(s.player2, Agent::Computer);
    assert_eq!(s.current_player(), false);
    s.advance();
    assert_eq!(s.current_player(), true);
    assert_eq!(s.winner(), false);
    s.advance();
    assert_eq!(s, PlayerSetting::default());
    assert_eq!(PlayerSetting::player_name(false), "Player 1");
    assert_eq!(PlayerSetting::player_name(true), "Player 2");
}

#[test]
fn terminal_iff_no_full_block() {
    assert!(is_terminal(&Grid::empty(GRID_NUM)));
    assert!(!is_terminal(&full(2)));
    assert!(is_terminal(&full(1)));
    assert!(is_terminal(&Grid::empty(0)));
    let diag = grid_of(3, &[(0, 0), (1, 1), (2, 2), (1, 0), (2, 1)]);
    assert!(is_terminal(&diag));
    let corner = grid_of(4, &[(2, 2), (3, 2), (2, 3), (3, 3)]);
    assert!(!is_terminal(&corner));
}

#[test]
fn grid_remove_ignores_absent_cells() {
    let mut g = grid_of(3, &[(0, 0), (1, 1), (2, 2)]);
    g.remove(&vec![p(1, 1), p(0, 2), p(7, 7), p(1, 1)]);
    assert_eq!(sorted_cells(&g), vec![(0, 0), (2, 2)]);
    assert!(g.is_occupied(p(0, 0)));
    assert!(!g.is_occupied(p(1, 1)));
    assert!(!g.is_occupied(p(-1, 0)));
    g.remove_cell(p(2, 2));
    assert_eq!(sorted_cells(&g), vec![(0, 0)]);
}

#[test]
fn grid_from_rows() {
    let rows = vec![vec![true, false], vec![false, true]];
    let g = Grid::from_rows(rows).unwrap();
    assert_eq!(g.dimension(), 2);
    assert_eq!(sorted_cells(&g), vec![(0, 0), (1, 1)]);
    assert!(Grid::from_rows(vec![vec![true, false], vec![true]]).is_none());
    assert!(Grid::from_rows(vec![vec![true]; MAX_GRID_DIM + 1]).is_none());
}

#[test]
fn occupied_cells_lists_each_once() {
    let g = grid_of(3, &[(2, 2), (0, 1), (2, 2), (1, 0)]);
    assert_eq!(g.occupied_cells(), vec![p(1, 0), p(0, 1), p(2, 2)]);
}

#[test]
fn random_map_extremes() {
    let empty = generate_random_map(GRID_NUM, 0, 10);
    assert_eq!(empty.dimension(), GRID_NUM);
    assert!(empty.occupied_cells().is_empty());
    let all = generate_random_map(GRID_NUM, 7, 7);
    assert_eq!(all.occupied_cells().len(), GRID_NUM * GRID_NUM);
    let some = generate_random_map(GRID_NUM, 4, 5);
    assert!(some.occupied_cells().len() <= GRID_NUM * GRID_NUM);
    let full_game = GameState::start_game(1, 1, 4);
    assert_eq!(full_game.occupied_cells().len(), 16);
    assert!(!full_game.is_game_over());
}

#[test]
fn validity_and_highlight() {
    let g = grid_of(3, &[(0, 0), (1, 0)]);
    let idle = Cursor::default();
    assert_eq!(idle.current_position, p(-1, -1));
    assert_eq!(selection_validity(&idle, &g), None);
    assert_eq!(Selection::default().is_valid, None);
    let dragging = Cursor { current_position: p(1, 0), last_clicked_position: Some(p(0, 0)) };
    assert_eq!(selection_validity(&dragging, &g), Some(true));
    let wide = Cursor { current_position: p(1, 1), last_clicked_position: Some(p(0, 0)) };
    assert_eq!(selection_validity(&wide, &g), Some(false));
    assert_eq!(tile_highlight(&wide, Some(false), p(1, 0)), Highlight::Invalid);
    assert_eq!(tile_highlight(&wide, Some(true), p(1, 1)), Highlight::Selected);
    assert_eq!(tile_highlight(&wide, None, p(1, 1)), Highlight::Normal);
    assert_eq!(tile_highlight(&wide, Some(true), p(2, 0)), Highlight::Normal);
    let hover = Cursor { current_position: p(2, 2), last_clicked_position: None };
    assert_eq!(tile_highlight(&hover, None, p(2, 2)), Highlight::Selected);
    assert_eq!(tile_highlight(&hover, None, p(0, 0)), Highlight::Normal);
}

#[test]
fn no_selection_after_game_over() {
    let mut game = GameState::new(grid_of(2, &[(0, 0)]));
    assert!(game.is_game_over());
    game.on_press_start(p(0, 0));
    assert_eq!(game.current_selection_rectangle(), None);
    game.on_pointer_move(p(1, 1));
    assert_eq!(game.cursor().current_position, p(1, 1));
    assert_eq!(game.highlight(p(1, 1)), Highlight::Selected);
    assert_eq!(game.highlight(p(0, 0)), Highlight::Normal);
}

#[test]
fn two_moves_alternate_players() {
    let mut game = GameState::new(full(4));
    game.on_press_start(p(0, 0));
    game.on_pointer_move(p(1, 1));
    assert!(game.on_release());
    assert_eq!(game.current_player(), true);
    assert!(!game.is_game_over());
    game.on_press_start(p(3, 3));
    game.on_pointer_move(p(2, 2));
    assert_eq!(game.highlight(p(2, 3)), Highlight::Selected);
    assert!(game.on_release());
    assert_eq!(game.current_player(), false);
    assert!(!game.is_game_over());
    assert_eq!(game.occupied_cells().len(), 8);
    assert!(game.is_occupied(p(2, 0)));
    assert!(!game.is_occupied(p(3, 3)));
    assert_eq!(game.player_setting().current_player, false);
}
