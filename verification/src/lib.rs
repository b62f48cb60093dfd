//! A verified rules engine for two-player tic-tac-toe.
//!
//! The library owns the nine-cell board, the turn order and the derived
//! game outcome. Every operation carries a contract: moves are applied
//! only to free cells of a game still in progress, the outcome is a pure
//! function of the board, and resetting returns the engine to the unique
//! initial state. Rendering and input handling are left to the caller.

pub mod game;
pub mod player;
