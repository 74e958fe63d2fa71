//! Where a chess piece may move on a given board.
//!
//! The library answers one question: for one piece on a snapshot of a board,
//! which squares may it move to under the basic rules of movement? It keeps no
//! game: no turns, no history, no check, no castling, no en passant, no
//! promotion.
//!
//! - [`position`]: squares, the eight unit steps, rays and walks.
//! - [`board`]: a list of pieces and who stands where.
//! - [`rules`]: the movement rules, stated over squares and occupants alone.
//! - [`piece`]: the six kinds of piece and the moves of each.

pub mod board;
pub mod piece;
pub mod position;
pub mod rules;
