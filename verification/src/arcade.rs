//! The games of the hub as one closed type, so that a shell can hold them
//! side by side.

use vstd::prelude::*;
use crate::input::Frame;
use crate::shell::Game;
use crate::snake::SnakeGame;
use crate::tetris::TetrisGame;

verus! {

/// One of the hub's games: the snake, the puzzle, or a game of a kind `P`
/// that is kept elsewhere.
pub enum Arcade<P: Game> {
    Snake(SnakeGame),
    Tetris(TetrisGame),
    Other(P),
}

impl<P: Game> Game for Arcade<P> {
    /// The game that it holds is valid.
    open spec fn valid(&self) -> bool {
        match *self {
            Arcade::Snake(game) => game.valid(),
            Arcade::Tetris(game) => game.valid(),
            Arcade::Other(game) => game.valid(),
        }
    }

    /// It holds the same game before and after, and that game's tick may
    /// lead from the one state to the other.
    open spec fn ticks_to(&self, frame: Frame, after: Self, exit: bool) -> bool {
        match (*self, after) {
            (Arcade::Snake(a), Arcade::Snake(b)) => a.ticks_to(frame, b, exit),
            (Arcade::Tetris(a), Arcade::Tetris(b)) => a.ticks_to(frame, b, exit),
            (Arcade::Other(a), Arcade::Other(b)) => a.ticks_to(frame, b, exit),
            _ => false,
        }
    }

    /// It holds the same game before and after, and that game's reset may
    /// lead from the one state to the other.
    open spec fn resets_to(&self, after: Self) -> bool {
        match (*self, after) {
            (Arcade::Snake(a), Arcade::Snake(b)) => a.resets_to(b),
            (Arcade::Tetris(a), Arcade::Tetris(b)) => a.resets_to(b),
            (Arcade::Other(a), Arcade::Other(b)) => a.resets_to(b),
            _ => false,
        }
    }

    /// Hands the frame to the game that it holds.
    fn tick(&mut self, frame: &Frame) -> (exit: bool) {
        match self {
            Arcade::Snake(game) => game.tick(frame),
            Arcade::Tetris(game) => game.tick(frame),
            Arcade::Other(game) => game.tick(frame),
        }
    }

    /// Resets the game that it holds.
    fn reset(&mut self) {
        match self {
            Arcade::Snake(game) => game.reset(),
            Arcade::Tetris(game) => game.reset(),
            Arcade::Other(game) => game.reset(),
        }
    }
}

} // verus!
