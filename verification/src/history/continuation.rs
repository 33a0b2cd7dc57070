//! Continuation history: a score per pair of moves (previous move, current move), each
//! given by its piece type and destination.
use vstd::prelude::*;
use crate::history::gravity;
use crate::history::gravity_update;

verus! {

/// Number of entries: (6 × 64) previous moves by (6 × 64) current moves.
pub const CONTINUATION_SIZE: usize = 147456;

/// Continuation history — indexed by [pt1][sq1][pt2][sq2].
pub struct ContinuationHistory {
    table: Vec<i32>,
}

/// Index of the entry of a move pair.
pub open spec fn continuation_index(pt1: int, sq1: int, pt2: int, sq2: int) -> int {
    pt1 * 24576 + sq1 * 384 + pt2 * 64 + sq2
}

impl View for ContinuationHistory {
    type V = Seq<i32>;

    closed spec fn view(&self) -> Seq<i32> {
        self.table@
    }
}

impl ContinuationHistory {
    /// The table has its size and every entry lies within ±16384.
    pub closed spec fn wf(&self) -> bool {
        &&& self.table@.len() == CONTINUATION_SIZE
        &&& forall|i: int| 0 <= i < CONTINUATION_SIZE ==> -16384 <= #[trigger] self.table@[i] <= 16384
    }

    pub proof fn lemma_wf(&self)
        requires
            self.wf(),
        ensures
            self@.len() == CONTINUATION_SIZE,
            forall|i: int| 0 <= i < CONTINUATION_SIZE ==> -16384 <= #[trigger] self@[i] <= 16384,
    {
    }

    pub fn new() -> (h: Self)
        ensures
            h.wf(),
            h@ == Seq::new(CONTINUATION_SIZE as nat, |i: int| 0i32),
    {
        let h = ContinuationHistory { table: vec![0i32; CONTINUATION_SIZE] };
        assert(h@ =~= Seq::new(CONTINUATION_SIZE as nat, |i: int| 0i32));
        h
    }

    pub fn get(&self, pt1: usize, sq1: usize, pt2: usize, sq2: usize) -> (v: i32)
        requires
            self.wf(),
            pt1 < 6,
            sq1 < 64,
            pt2 < 6,
            sq2 < 64,
        ensures
            v == self@[continuation_index(pt1 as int, sq1 as int, pt2 as int, sq2 as int)],
    {
        self.table[pt1 * 24576 + sq1 * 384 + pt2 * 64 + sq2]
    }

    pub fn update(&mut self, pt1: usize, sq1: usize, pt2: usize, sq2: usize, bonus: i32)
        requires
            old(self).wf(),
            pt1 < 6,
            sq1 < 64,
            pt2 < 6,
            sq2 < 64,
            -16384 <= bonus <= 16384,
        ensures
            final(self).wf(),
            final(self)@ == old(self)@.update(
                continuation_index(pt1 as int, sq1 as int, pt2 as int, sq2 as int),
                gravity(old(self)@[continuation_index(pt1 as int, sq1 as int, pt2 as int, sq2 as int)] as int, bonus as int, 16384) as i32,
            ),
    {
        let i = pt1 * 24576 + sq1 * 384 + pt2 * 64 + sq2;
        let v = self.table[i];
        let nv = gravity_update(v, bonus, 16384);
        self.table.set(i, nv);
    }
}

} // verus!
