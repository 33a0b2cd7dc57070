//! Board representation: bitboards, colors, pieces, squares, hashing and positions.
pub mod bitboard;
pub mod color;
pub mod square;
pub mod piece;
pub mod zobrist;
pub mod position;
pub mod fen;
pub mod keep_wf;
