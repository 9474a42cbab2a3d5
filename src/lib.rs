//! A Connect-4 game engine: the board with its gravity rule, the move applier,
//! the four-direction win scan, the turn controller and the automated opponent.
pub mod board;
pub mod outcome;
pub mod opponent;
pub mod game;
