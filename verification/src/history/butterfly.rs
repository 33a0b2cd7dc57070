//! Butterfly history: a score per side to move, origin and destination square, raised
//! for quiet moves that caused a beta cutoff.
use vstd::prelude::*;
use crate::history::gravity;
use crate::history::gravity_update;

verus! {

/// Number of entries: two colors, 64 origins, 64 destinations.
pub const BUTTERFLY_SIZE: usize = 8192;

/// Butterfly history table — indexed by [color][from][to].
pub struct ButterflyHistory {
    table: Vec<i32>,
}

/// Index of the entry of a color, origin and destination.
pub open spec fn butterfly_index(color: int, from: int, to: int) -> int {
    color * 4096 + from * 64 + to
}

impl View for ButterflyHistory {
    type V = Seq<i32>;

    closed spec fn view(&self) -> Seq<i32> {
        self.table@
    }
}

impl ButterflyHistory {
    /// The table has its size and every entry lies within ±16384.
    pub closed spec fn wf(&self) -> bool {
        &&& self.table@.len() == BUTTERFLY_SIZE
        &&& forall|i: int| 0 <= i < BUTTERFLY_SIZE ==> -16384 <= #[trigger] self.table@[i] <= 16384
    }

    pub proof fn lemma_wf(&self)
        requires
            self.wf(),
        ensures
            self@.len() == BUTTERFLY_SIZE,
            forall|i: int| 0 <= i < BUTTERFLY_SIZE ==> -16384 <= #[trigger] self@[i] <= 16384,
    {
    }

    pub fn new() -> (h: Self)
        ensures
            h.wf(),
            h@ == Seq::new(BUTTERFLY_SIZE as nat, |i: int| 0i32),
    {
        let h = ButterflyHistory { table: vec![0i32; BUTTERFLY_SIZE] };
        assert(h@ =~= Seq::new(BUTTERFLY_SIZE as nat, |i: int| 0i32));
        h
    }

    pub fn get(&self, color: usize, from: usize, to: usize) -> (v: i32)
        requires
            self.wf(),
            color < 2,
            from < 64,
            to < 64,
        ensures
            v == self@[butterfly_index(color as int, from as int, to as int)],
    {
        self.table[color * 4096 + from * 64 + to]
    }

    pub fn update(&mut self, color: usize, from: usize, to: usize, bonus: i32)
        requires
            old(self).wf(),
            color < 2,
            from < 64,
            to < 64,
            -16384 <= bonus <= 16384,
        ensures
            final(self).wf(),
            final(self)@ == old(self)@.update(
                butterfly_index(color as int, from as int, to as int),
                gravity(old(self)@[butterfly_index(color as int, from as int, to as int)] as int, bonus as int, 16384) as i32,
            ),
    {
        let i = color * 4096 + from * 64 + to;
        let v = self.table[i];
        let nv = gravity_update(v, bonus, 16384);
        self.table.set(i, nv);
    }

    pub fn clear(&mut self)
        requires
            old(self).wf(),
        ensures
            final(self).wf(),
            final(self)@ == Seq::new(BUTTERFLY_SIZE as nat, |i: int| 0i32),
    {
        let mut i: usize = 0;
        while i < BUTTERFLY_SIZE
            invariant
                self.wf(),
                0 <= i <= BUTTERFLY_SIZE,
                forall|j: int| 0 <= j < i ==> self.table@[j] == 0,
            decreases BUTTERFLY_SIZE - i,
        {
            self.table.set(i, 0);
            i = i + 1;
        }
        assert(self@ =~= Seq::new(BUTTERFLY_SIZE as nat, |i: int| 0i32));
    }
}

} // verus!
