use vstd::prelude::*;

verus! {

/// Who controls a seat at the table.
#[derive(Clone, Copy, Debug, PartialEq, Eq, Structural)]
pub enum Agent {
    Player,
    Computer,
}

/// The two seats and whose turn it is: `current_player` is `false` while the
/// first seat moves and `true` while the second seat moves.
#[derive(Clone, Copy, Debug, PartialEq, Eq, Structural)]
pub struct PlayerSetting {
    pub player1: Agent,
    pub player2: Agent,
    pub current_player: bool,
}

impl PlayerSetting {
    /// The setting after one turn has passed.
    pub open spec fn advanced(self) -> PlayerSetting {
        PlayerSetting { current_player: !self.current_player, ..self }
    }

    /// Passes the turn to the other seat.
    pub fn advance(&mut self)
        ensures
            *final(self) == old(self).advanced(),
    {
        self.current_player = !self.current_player;
    }

    pub fn current_player(&self) -> (r: bool)
        ensures
            r == self.current_player,
    {
        self.current_player
    }

    /// The seat that made the last move, which wins when the game ends after it.
    pub fn winner(&self) -> (r: bool)
        ensures
            r == !self.current_player,
    {
        !self.current_player
    }

    /// Name of the seat that is `player` ("Player 1" for `false`).
    pub fn player_name(player: bool) -> (r: &'static str)
        ensures
            r@ == (if player { "Player 2"@ } else { "Player 1"@ }),
    {
        if player { "Player 2" } else { "Player 1" }
    }
}

/// Passing the turn always changes the player, and passing it twice gives the
/// setting it started from.
pub proof fn lemma_advance_twice(p: PlayerSetting)
    ensures
        p.advanced().current_player != p.current_player,
        p.advanced().advanced() == p,
{
}

impl Default for PlayerSetting {
    fn default() -> (r: PlayerSetting)
        ensures
            r.player1 == Agent::Player,
            r.player2 == Agent::Computer,
            !r.current_player,
    {
        PlayerSetting { player1: Agent::Player, player2: Agent::Computer, current_player: false }
    }
}

} // verus!
