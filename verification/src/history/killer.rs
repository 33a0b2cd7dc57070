//! Killer moves: two quiet moves per ply that caused beta cutoffs.
use vstd::prelude::*;
use crate::board::position::Move;

verus! {

/// Number of plies with killer slots.
pub const KILLER_PLIES: usize = 128;

/// Killer moves — two quiet moves per ply.
pub struct KillerTable {
    slots: Vec<[Move; 2]>,
}

impl View for KillerTable {
    type V = Seq<(Move, Move)>;

    closed spec fn view(&self) -> Seq<(Move, Move)> {
        Seq::new(self.slots@.len(), |i: int| (self.slots@[i][0], self.slots@[i][1]))
    }
}

/// Plies beyond the table share its last slot.
pub open spec fn killer_ply(ply: int) -> int {
    if ply < 127 { ply } else { 127 }
}

impl KillerTable {
    /// The table has a slot pair for each ply.
    pub closed spec fn wf(&self) -> bool {
        self.slots@.len() == KILLER_PLIES
    }

    pub proof fn lemma_wf(&self)
        requires
            self.wf(),
        ensures
            self@.len() == KILLER_PLIES,
    {
    }

    pub fn new() -> (t: Self)
        ensures
            t.wf(),
            forall|i: int| 0 <= i < KILLER_PLIES ==> (#[trigger] t@[i]).0.0 == 0 && t@[i].1.0 == 0,
    {
        let t = KillerTable { slots: vec![[Move::null(), Move::null()]; KILLER_PLIES] };
        t
    }

    pub fn get(&self, ply: usize) -> (k: [Move; 2])
        requires
            self.wf(),
        ensures
            (k[0], k[1]) == self@[killer_ply(ply as int)],
    {
        let p = if ply < 127 { ply } else { 127 };
        self.slots[p]
    }

    /// Records a killer: a move not already first becomes first and the old first second.
    pub fn store(&mut self, ply: usize, mv: Move)
        requires
            old(self).wf(),
        ensures
            final(self).wf(),
            old(self)@[killer_ply(ply as int)].0 == mv ==> final(self)@ == old(self)@,
            old(self)@[killer_ply(ply as int)].0 != mv ==> final(self)@ == old(self)@.update(
                killer_ply(ply as int),
                (mv, old(self)@[killer_ply(ply as int)].0),
            ),
    {
        let p = if ply < 127 { ply } else { 127 };
        let cur = self.slots[p];
        if cur[0] != mv {
            self.slots.set(p, [mv, cur[0]]);
        }
        proof {
            assert(final(self)@ =~= (if old(self)@[killer_ply(ply as int)].0 == mv { old(self)@ } else {
                old(self)@.update(killer_ply(ply as int), (mv, old(self)@[killer_ply(ply as int)].0))
            }));
        }
    }

    pub fn clear(&mut self)
        requires
            old(self).wf(),
        ensures
            final(self).wf(),
            forall|i: int| 0 <= i < KILLER_PLIES ==> (#[trigger] final(self)@[i]).0.0 == 0 && final(self)@[i].1.0 == 0,
    {
        let mut i: usize = 0;
        while i < KILLER_PLIES
            invariant
                self.wf(),
                0 <= i <= KILLER_PLIES,
                forall|j: int| 0 <= j < i ==> (#[trigger] self.slots@[j])[0].0 == 0 && self.slots@[j][1].0 == 0,
            decreases KILLER_PLIES - i,
        {
            self.slots.set(i, [Move::null(), Move::null()]);
            i = i + 1;
        }
        assert forall|j: int| 0 <= j < KILLER_PLIES implies (#[trigger] self@[j]).0.0 == 0 && self@[j].1.0 == 0 by {
            assert(self.slots@[j][0].0 == 0);
        }
    }
}

/// After a killer is stored for a ply, it is that ply's first killer; the previous
/// first killer is second unless it was the same move.
pub proof fn lemma_store_then_get(slots: Seq<(Move, Move)>, ply: int, mv: Move)
    requires
        slots.len() == KILLER_PLIES,
        0 <= ply,
    ensures
        ({
            let p = killer_ply(ply);
            let after = if slots[p].0 == mv { slots } else { slots.update(p, (mv, slots[p].0)) };
            &&& after[p].0 == mv
            &&& slots[p].0 != mv ==> after[p].1 == slots[p].0
            &&& forall|q: int| 0 <= q < KILLER_PLIES && q != p ==> after[q] == slots[q]
        }),
{
}

} // verus!
