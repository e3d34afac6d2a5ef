//! A hub of small arcade games under one menu.
//!
//! The falling-block puzzle is the heart of it: `piece` holds the catalog of
//! forms and the quarter turn, `board` the grid of settled cells with its
//! row clearing, and `tetris` the session that moves, turns, settles and
//! scores. `snake` is a second game, `shell` the menu that hosts games and
//! hands each frame to the active one, and `arcade` the hub's games as one
//! type. `input` describes what a game is told once per frame.
//!
//! Every type has a mathematical model as its view, and every function says
//! over those models what it returns and what it changes.

pub mod arcade;
pub mod board;
pub mod input;
pub mod piece;
mod random;
pub mod shell;
pub mod snake;
pub mod tetris;
