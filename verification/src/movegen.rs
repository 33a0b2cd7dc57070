//! Move generation: attack sets, pseudo-legal and legal moves, perft.
pub mod attacks;
pub mod pseudo_legal;
pub mod legal;
pub mod perft;
pub mod magic;
