//! Lazy SMP settings: the number of search threads sharing one transposition table.
use vstd::prelude::*;

verus! {

pub struct LazySmp {
    pub num_threads: usize,
}

impl LazySmp {
    /// At least one thread.
    pub fn new(num_threads: usize) -> (s: Self)
        ensures
            s.num_threads == (if num_threads < 1 { 1 } else { num_threads }),
    {
        LazySmp { num_threads: if num_threads < 1 { 1 } else { num_threads } }
    }
}

} // verus!
