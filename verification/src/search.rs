//! Search support: time management, the thread pool settings and search results.
pub mod timeman;
pub mod lazy_smp;
pub mod iterative_deepening;
pub mod pvs;

use vstd::prelude::*;

verus! {

/// Maximum search depth.
pub const MAX_DEPTH: usize = 128;
/// Maximum ply (search tree depth including extensions).
pub const MAX_PLY: usize = 246;
/// Score returned for a draw.
pub const DRAW_SCORE: i32 = 0;

} // verus!
