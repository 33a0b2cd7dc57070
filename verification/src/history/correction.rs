//! Correction history: adjusts the static evaluation by past prediction errors, per side
//! and pawn-structure hash bucket.
use vstd::prelude::*;
use crate::history::gravity;
use crate::history::gravity_update;

verus! {

/// Number of buckets per side.
pub const CORRECTION_SIZE: usize = 16384;

/// Number of entries: two sides of buckets.
pub const CORRECTION_ENTRIES: usize = 32768;

/// Correction history — indexed by [color][pawn_hash % size].
pub struct CorrectionHistory {
    table: Vec<i32>,
}

/// Index of the entry of a side and a pawn hash.
pub open spec fn correction_index(color: int, pawn_hash: u64) -> int {
    color * 16384 + (pawn_hash % 16384) as int
}

impl View for CorrectionHistory {
    type V = Seq<i32>;

    closed spec fn view(&self) -> Seq<i32> {
        self.table@
    }
}

impl CorrectionHistory {
    /// The table has its size and every entry lies within ±1024.
    pub closed spec fn wf(&self) -> bool {
        &&& self.table@.len() == CORRECTION_ENTRIES
        &&& forall|i: int| 0 <= i < CORRECTION_ENTRIES ==> -1024 <= #[trigger] self.table@[i] <= 1024
    }

    pub proof fn lemma_wf(&self)
        requires
            self.wf(),
        ensures
            self@.len() == CORRECTION_ENTRIES,
            forall|i: int| 0 <= i < CORRECTION_ENTRIES ==> -1024 <= #[trigger] self@[i] <= 1024,
    {
    }

    pub fn new() -> (h: Self)
        ensures
            h.wf(),
            h@ == Seq::new(CORRECTION_ENTRIES as nat, |i: int| 0i32),
    {
        let h = CorrectionHistory { table: vec![0i32; CORRECTION_ENTRIES] };
        assert(h@ =~= Seq::new(CORRECTION_ENTRIES as nat, |i: int| 0i32));
        h
    }

    pub fn get(&self, color: usize, pawn_hash: u64) -> (v: i32)
        requires
            self.wf(),
            color < 2,
        ensures
            v == self@[correction_index(color as int, pawn_hash)],
    {
        self.table[color * CORRECTION_SIZE + (pawn_hash % 16384) as usize]
    }

    pub fn update(&mut self, color: usize, pawn_hash: u64, bonus: i32)
        requires
            old(self).wf(),
            color < 2,
            -1024 <= bonus <= 1024,
        ensures
            final(self).wf(),
            final(self)@ == old(self)@.update(
                correction_index(color as int, pawn_hash),
                gravity(old(self)@[correction_index(color as int, pawn_hash)] as int, bonus as int, 1024) as i32,
            ),
    {
        let i = color * CORRECTION_SIZE + (pawn_hash % 16384) as usize;
        let v = self.table[i];
        let nv = gravity_update(v, bonus, 1024);
        self.table.set(i, nv);
    }

    pub fn clear(&mut self)
        requires
            old(self).wf(),
        ensures
            final(self).wf(),
            final(self)@ == Seq::new(CORRECTION_ENTRIES as nat, |i: int| 0i32),
    {
        let mut i: usize = 0;
        while i < CORRECTION_ENTRIES
            invariant
                self.wf(),
                0 <= i <= CORRECTION_ENTRIES,
                forall|j: int| 0 <= j < i ==> self.table@[j] == 0,
            decreases CORRECTION_ENTRIES - i,
        {
            self.table.set(i, 0);
            i = i + 1;
        }
        assert(self@ =~= Seq::new(CORRECTION_ENTRIES as nat, |i: int| 0i32));
    }
}

} // verus!
