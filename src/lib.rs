//! Rules engine for Ultimate Tic-Tac-Toe: a three-by-three grid of
//! tic-tac-toe boards where each move decides the board the next move
//! must be played in.
pub mod board;
pub mod lines;
pub mod square;
