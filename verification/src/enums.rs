//! The small sum types of the game: compass directions and the coarse
//! game state.

use vstd::prelude::*;

verus! {

/// Coarse lifecycle state of one game round.
#[derive(Clone, Copy, PartialEq, Eq, Structural, Debug)]
pub enum GameState {
    Standby,
    InGame,
    GameOver,
}

/// Heading of the snake: one of the four cardinal directions.
#[derive(Clone, Copy, PartialEq, Eq, Structural, Debug)]
pub enum Direction {
    Up,
    Down,
    Left,
    Right,
}

/// True iff `a` and `b` are exact geometric opposites:
/// {Up, Down} or {Left, Right}.
pub open spec fn spec_is_opposite(a: Direction, b: Direction) -> bool {
    match b {
        Direction::Down => a == Direction::Up,
        Direction::Up => a == Direction::Down,
        Direction::Right => a == Direction::Left,
        Direction::Left => a == Direction::Right,
    }
}

impl Direction {
    /// Whether `direction` is the exact opposite of `self`.
    /// Used as a rejection filter against instant self-reversal.
    pub fn is_opposite(&self, direction: Self) -> (r: bool)
        ensures
            r == spec_is_opposite(*self, direction),
    {
        let dir = *self;
        match direction {
            Self::Down => dir == Self::Up,
            Self::Up => dir == Self::Down,
            Self::Right => dir == Self::Left,
            Self::Left => dir == Self::Right,
        }
    }
}

} // verus!
