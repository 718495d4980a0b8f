//! Chess position tracking: a board model, per-piece movement rules, and a
//! resolver from algebraic notation to moves on the board.
//!
//! - [`board`] holds the board, the movement rule of each kind of piece, the
//!   playing of a move, and the writing of a position as one line of text.
//! - [`pgn`] reads games in portable game notation, and [`pgn::mov`] reads a
//!   single move.
//! - [`replay`] plays a game through and keeps the board after every ply.
//! - [`stockfish`] is the text side of talking to a chess engine.
//! - [`text`] has the few operations on text that the others share.

pub mod board;
pub mod pgn;
pub mod replay;
pub mod stockfish;
pub mod text;
