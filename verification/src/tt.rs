//! Transposition table: search results keyed by position hash.
pub mod entry;
pub mod table;
