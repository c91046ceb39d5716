//! A verified tic-tac-toe core: a 3x3 board model and a move-selection
//! engine that plays perfect tic-tac-toe for the automated side.
//!
//! The board model owns the grid of cells and classifies it into a game
//! verdict; the engine searches all continuations and picks the best move.
//! Rendering and input handling are left to a thin presentation layer
//! around this library.

pub mod board;
pub mod engine;
pub mod game;
