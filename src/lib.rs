//! A falling-block puzzle engine: piece catalog, board with collision and
//! line clearing, the falling piece, timers and the game phase machine.

pub mod catalog;
pub mod board;
pub mod play_box;
pub mod timer;
pub mod game;
