//! Specter: a bitboard chess engine library.
pub mod text;
pub mod board;
pub mod movegen;
pub mod history;
pub mod tt;
pub mod search;
pub mod personality;
pub mod variants;
pub mod eval;
pub mod uci;
pub mod openingbook;
pub mod datagen;
pub mod syzygy;

pub use board::color::Color;
