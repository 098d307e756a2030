//! Rules engine for Oxono, a two-player abstract strategy game played on a
//! 6x6 grid. Two totems (one per symbol) move across the board, and each
//! player places colored pieces next to the totem they just moved. The engine
//! enumerates the legal moves, applies chosen moves, and detects wins and
//! draws; rendering and input handling live outside the library.

pub mod board;
pub mod game;
pub mod moves;
pub mod player;
pub mod position;
pub mod symbol;
pub mod ui;
