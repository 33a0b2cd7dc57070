//! Transposition table entries.
use vstd::prelude::*;
use crate::board::position::Move;

verus! {

/// How a stored score bounds the true score.
#[derive(Debug, Clone, Copy, PartialEq, Eq, Structural)]
pub enum Bound {
    Exact,
    Lower,
    Upper,
}

/// A stored search result.
#[derive(Clone, Copy)]
pub struct TTEntry {
    pub hash: u64,
    pub mv: Move,
    pub score: i32,
    pub depth: u8,
    pub bound: Bound,
    pub age: u8,
}

/// The entry of an empty slot: all fields zero, exact bound.
pub open spec fn is_empty_entry(e: TTEntry) -> bool {
    e.hash == 0 && e.mv.0 == 0 && e.score == 0 && e.depth == 0 && e.bound == Bound::Exact && e.age == 0
}

impl TTEntry {
    /// The entry of an empty slot.
    pub fn empty() -> (e: TTEntry)
        ensures
            is_empty_entry(e),
    {
        TTEntry { hash: 0, mv: Move::null(), score: 0, depth: 0, bound: Bound::Exact, age: 0 }
    }
}

} // verus!
