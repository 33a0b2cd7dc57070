//! Playing personality: named strength levels and playing styles.
pub mod elo;
pub mod style;
