//! A two-player, multi-round tic-tac-toe engine: a verified game state
//! machine with turn, win, draw and round-progression rules.

pub mod ai;
pub mod fx;
pub mod game;
pub mod laws;
pub mod menu;
pub mod process;
pub mod util;
