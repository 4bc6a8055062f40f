//! Score and coarse game-state bookkeeping.

use vstd::prelude::*;

use crate::enums::GameState;

verus! {

/// Tracks the score and the coarse state of one game round. Rendering
/// concerns (colors, fonts, the scoreboard) live with the driver.
pub struct Game {
    pub score: u32,
    pub state: GameState,
}

impl Game {
    /// Increments the score by exactly one.
    pub fn add_score(&mut self)
        requires
            old(self).score < u32::MAX,
        ensures
            final(self).score == old(self).score + 1,
            final(self).state == old(self).state,
    {
        self.score = self.score + 1;
    }

    /// Unconditionally assigns the coarse game state.
    pub fn update_state(&mut self, state: GameState)
        ensures
            final(self).state == state,
            final(self).score == old(self).score,
    {
        self.state = state;
    }
}

impl Default for Game {
    /// A fresh round: score zero, already in play.
    fn default() -> (d: Self)
        ensures
            d.score == 0,
            d.state == GameState::InGame,
    {
        Game { score: 0, state: GameState::InGame }
    }
}

} // verus!
