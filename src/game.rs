use vstd::prelude::*;
use crate::elimination::{attempt_eliminate, eliminates};
use crate::game_over::{has_block, is_terminal};
use crate::grid::Grid;
use crate::mapgen::generate_random_map;
use crate::position::{Position, MAX_GRID_DIM};
use crate::selection::{Rect, compute_rectangle, fully_occupied, is_valid, rect_of};
use crate::turn::{Agent, PlayerSetting};

verus! {

/// Where the pointer is, and where the current selection started, if one is
/// in progress.
#[derive(Clone, Copy, Debug, PartialEq, Eq, Structural)]
pub struct Cursor {
    pub current_position: Position,
    pub last_clicked_position: Option<Position>,
}

impl Default for Cursor {
    fn default() -> (r: Cursor)
        ensures
            r.current_position == (Position { x: -1i32, y: -1i32 }),
            r.last_clicked_position.is_none(),
    {
        Cursor { current_position: Position { x: -1, y: -1 }, last_clicked_position: None }
    }
}

/// Validity of the selection in progress: `None` when no selection is in
/// progress, otherwise whether every selected cell is occupied.
#[derive(Clone, Copy, Debug, PartialEq, Eq, Structural)]
pub struct Selection {
    pub is_valid: Option<bool>,
}

impl Default for Selection {
    fn default() -> (r: Selection)
        ensures
            r.is_valid.is_none(),
    {
        Selection { is_valid: None }
    }
}

/// A selection was released.
#[derive(Clone, Copy, Debug, PartialEq, Eq, Structural)]
pub struct SelectedEvent;

/// Cells were eliminated.
#[derive(Clone, Copy, Debug, PartialEq, Eq, Structural)]
pub struct DeletedTileEvent;

/// No move is left.
#[derive(Clone, Copy, Debug, PartialEq, Eq, Structural)]
pub struct GameOverEvent;

/// How a tile is drawn.
#[derive(Clone, Copy, Debug, PartialEq, Eq, Structural)]
pub enum Highlight {
    Normal,
    Selected,
    Invalid,
}

/// The selection rectangle of a cursor, if a selection is in progress.
pub open spec fn rect_of_cursor(cursor: Cursor) -> Option<Rect> {
    match cursor.last_clicked_position {
        Some(a) => Some(rect_of(a, cursor.current_position)),
        None => None,
    }
}

/// Validity of the cursor's selection against the occupied cells `g`.
pub open spec fn validity_of(cursor: Cursor, g: Set<(int, int)>) -> Option<bool> {
    match rect_of_cursor(cursor) {
        Some(r) => Some(fully_occupied(g, r)),
        None => None,
    }
}

/// How the tile at `pos` is drawn: while a selection is in progress, tiles
/// inside it show its validity (nothing while validity is unknown); otherwise
/// the tile under the pointer is marked.
pub open spec fn highlight_of(cursor: Cursor, validity: Option<bool>, pos: Position) -> Highlight {
    match rect_of_cursor(cursor) {
        Some(r) => if r.contains(pos.cell()) {
            match validity {
                Some(true) => Highlight::Selected,
                Some(false) => Highlight::Invalid,
                None => Highlight::Normal,
            }
        } else {
            Highlight::Normal
        },
        None => if pos == cursor.current_position { Highlight::Selected } else { Highlight::Normal },
    }
}

/// The selection rectangle of `cursor`, if a selection is in progress.
pub fn selection_rectangle(cursor: &Cursor) -> (r: Option<Rect>)
    ensures
        r == rect_of_cursor(*cursor),
{
    match cursor.last_clicked_position {
        Some(a) => Some(compute_rectangle(a, cursor.current_position)),
        None => None,
    }
}

/// Validity of the cursor's selection against `grid`.
pub fn selection_validity(cursor: &Cursor, grid: &Grid) -> (r: Option<bool>)
    requires
        grid.wf(),
    ensures
        r == validity_of(*cursor, grid@),
{
    match selection_rectangle(cursor) {
        Some(rect) => Some(is_valid(grid, &rect)),
        None => None,
    }
}

/// How the tile at `pos` is drawn.
pub fn tile_highlight(cursor: &Cursor, validity: Option<bool>, pos: Position) -> (r: Highlight)
    ensures
        r == highlight_of(*cursor, validity, pos),
{
    match selection_rectangle(cursor) {
        Some(rect) => {
            if rect.lx <= pos.x && pos.x <= rect.rx && rect.ly <= pos.y && pos.y <= rect.ry {
                match validity {
                    Some(true) => Highlight::Selected,
                    Some(false) => Highlight::Invalid,
                    None => Highlight::Normal,
                }
            } else {
                Highlight::Normal
            }
        },
        None => if pos == cursor.current_position { Highlight::Selected } else { Highlight::Normal },
    }
}

/// One game: the board, the pointer and selection, whose turn it is, and
/// whether the game is over.
pub struct GameState {
    grid: Grid,
    cursor: Cursor,
    selection: Selection,
    players: PlayerSetting,
    game_over: bool,
}

impl GameState {
    /// The occupied cells.
    pub closed spec fn board(&self) -> Set<(int, int)> {
        self.grid@
    }

    /// Side length of the board.
    pub closed spec fn dim(&self) -> nat {
        self.grid.dim()
    }

    pub closed spec fn cursor_state(&self) -> Cursor {
        self.cursor
    }

    /// Validity of the selection in progress.
    pub closed spec fn validity(&self) -> Option<bool> {
        self.selection.is_valid
    }

    pub closed spec fn players(&self) -> PlayerSetting {
        self.players
    }

    pub closed spec fn over(&self) -> bool {
        self.game_over
    }

    pub closed spec fn wf(&self) -> bool {
        &&& self.grid.wf()
        &&& self.selection.is_valid == validity_of(self.cursor, self.grid@)
        &&& self.game_over ==> self.cursor.last_clicked_position.is_none()
    }

    /// Whether a selection is in progress.
    pub open spec fn in_progress(&self) -> bool {
        self.cursor_state().last_clicked_position.is_some()
    }

    /// Starts a game on `grid`; the game is over at once when no 2x2 block
    /// of `grid` is fully occupied.
    pub fn new(grid: Grid) -> (s: GameState)
        requires
            grid.wf(),
        ensures
            s.wf(),
            s.board() == grid@,
            s.dim() == grid.dim(),
            s.cursor_state() == (Cursor { current_position: Position { x: -1i32, y: -1i32 }, last_clicked_position: None }),
            s.validity().is_none(),
            s.players() == (PlayerSetting { player1: Agent::Player, player2: Agent::Computer, current_player: false }),
            s.over() == !has_block(grid@, grid.dim()),
    {
        let game_over = is_terminal(&grid);
        GameState {
            grid,
            cursor: Cursor::default(),
            selection: Selection::default(),
            players: PlayerSetting::default(),
            game_over,
        }
    }

    /// Starts a game on a fresh board of side `n` where each cell is occupied
    /// with chance `numerator / denominator`.
    pub fn start_game(numerator: u32, denominator: u32, n: usize) -> (s: GameState)
        requires
            n <= MAX_GRID_DIM,
            0 < denominator,
            numerator <= denominator,
        ensures
            s.wf(),
            s.dim() == n,
            !s.in_progress(),
            s.validity().is_none(),
            !s.players().current_player,
            s.over() == !has_block(s.board(), n as nat),
            numerator == 0 ==> s.board() == Set::<(int, int)>::empty(),
            numerator == denominator ==> s.board() == crate::grid::full_board(n as nat),
    {
        GameState::new(generate_random_map(n, numerator, denominator))
    }

    /// Begins a selection at `coord`. Once the game is over nothing happens.
    pub fn on_press_start(&mut self, coord: Position)
        requires
            old(self).wf(),
            !old(self).in_progress(),
        ensures
            final(self).wf(),
            final(self).board() == old(self).board(),
            final(self).dim() == old(self).dim(),
            final(self).players() == old(self).players(),
            final(self).over() == old(self).over(),
            old(self).over() ==> final(self).cursor_state() == old(self).cursor_state(),
            !old(self).over() ==> final(self).cursor_state() == (Cursor {
                current_position: coord,
                last_clicked_position: Some(coord),
            }),
    {
        if self.game_over {
            return;
        }
        self.cursor = Cursor { current_position: coord, last_clicked_position: Some(coord) };
        self.selection = Selection { is_valid: selection_validity(&self.cursor, &self.grid) };
    }

    /// A game that is over has no selection in progress, so no release can
    /// follow; as presses and pointer moves keep the flag, it stays set.
    pub proof fn lemma_over_is_final(&self)
        requires
            self.wf(),
            self.over(),
        ensures
            !self.in_progress(),
    {
    }

    /// Moves the pointer to `coord`, updating the selection's validity.
    pub fn on_pointer_move(&mut self, coord: Position)
        requires
            old(self).wf(),
        ensures
            final(self).wf(),
            final(self).board() == old(self).board(),
            final(self).dim() == old(self).dim(),
            final(self).players() == old(self).players(),
            final(self).over() == old(self).over(),
            final(self).cursor_state() == (Cursor {
                current_position: coord,
                ..old(self).cursor_state()
            }),
    {
        self.cursor.current_position = coord;
        self.selection = Selection { is_valid: selection_validity(&self.cursor, &self.grid) };
    }

    /// Ends the selection in progress. A valid selection of at least 2x2
    /// cells is removed from the board, the turn passes, and the game is over
    /// if no fully occupied 2x2 block is left. Returns whether cells were
    /// removed.
    pub fn on_release(&mut self) -> (performed: bool)
        requires
            old(self).wf(),
            old(self).in_progress(),
        ensures
            final(self).wf(),
            final(self).dim() == old(self).dim(),
            performed == eliminates(rect_of_cursor(old(self).cursor_state())->Some_0, old(self).validity()),
            performed ==> final(self).board() == old(self).board().difference(
                rect_of_cursor(old(self).cursor_state())->Some_0.cells()),
            !performed ==> final(self).board() == old(self).board(),
            final(self).players() == if performed { old(self).players().advanced() } else { old(self).players() },
            final(self).over() == if performed { !has_block(final(self).board(), final(self).dim()) } else { old(self).over() },
            final(self).cursor_state() == (Cursor { last_clicked_position: None, ..old(self).cursor_state() }),
            final(self).validity().is_none(),
    {
        let anchor = match self.cursor.last_clicked_position {
            Some(a) => a,
            None => return false,
        };
        self.cursor.last_clicked_position = None;
        let rect = compute_rectangle(anchor, self.cursor.current_position);
        let validity = self.selection.is_valid;
        self.selection = Selection { is_valid: None };
        let performed = attempt_eliminate(&mut self.grid, &rect, validity);
        if performed {
            self.players.advance();
            self.game_over = is_terminal(&self.grid);
        }
        performed
    }

    /// The occupied cells, each listed once.
    pub fn occupied_cells(&self) -> (r: Vec<Position>)
        requires
            self.wf(),
        ensures
            crate::grid::cells_of(r@) == self.board(),
    {
        self.grid.occupied_cells()
    }

    pub fn is_occupied(&self, p: Position) -> (r: bool)
        requires
            self.wf(),
        ensures
            r == self.board().contains(p.cell()),
    {
        self.grid.is_occupied(p)
    }

    pub fn cursor(&self) -> (r: Cursor)
        ensures
            r == self.cursor_state(),
    {
        self.cursor
    }

    /// The selection rectangle, while a selection is in progress.
    pub fn current_selection_rectangle(&self) -> (r: Option<Rect>)
        ensures
            r == rect_of_cursor(self.cursor_state()),
    {
        selection_rectangle(&self.cursor)
    }

    /// Validity of the selection in progress; `None` when there is none.
    pub fn current_validity(&self) -> (r: Option<bool>)
        requires
            self.wf(),
        ensures
            r == validity_of(self.cursor_state(), self.board()),
    {
        self.selection.is_valid
    }

    /// How the tile at `pos` is drawn.
    pub fn highlight(&self, pos: Position) -> (r: Highlight)
        ensures
            r == highlight_of(self.cursor_state(), self.validity(), pos),
    {
        tile_highlight(&self.cursor, self.selection.is_valid, pos)
    }

    pub fn player_setting(&self) -> (r: PlayerSetting)
        ensures
            r == self.players(),
    {
        self.players
    }

    /// The player to move (`false` for the first seat).
    pub fn current_player(&self) -> (r: bool)
        ensures
            r == self.players().current_player,
    {
        self.players.current_player()
    }

    pub fn is_game_over(&self) -> (r: bool)
        ensures
            r == self.over(),
    {
        self.game_over
    }

    /// The winner once the game is over: the seat that made the last move.
    pub fn winner(&self) -> (r: Option<bool>)
        ensures
            r == if self.over() { Some(!self.players().current_player) } else { None },
    {
        if self.game_over { Some(self.players.winner()) } else { None }
    }
}

} // verus!
