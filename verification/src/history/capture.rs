//! Capture history: a score per moving piece type, captured piece type and destination.
use vstd::prelude::*;
use crate::history::gravity;
use crate::history::gravity_update;
use crate::board::piece::PieceType;

verus! {

/// Number of entries: six moving piece types, six captured types, 64 destinations.
pub const CAPTURE_SIZE: usize = 2304;

/// Capture history — indexed by [piece_type][captured_type][to].
pub struct CaptureHistory {
    table: Vec<i32>,
}

/// Index of the entry of a moving type, captured type and destination.
pub open spec fn capture_index(pt: PieceType, cap: PieceType, to: int) -> int {
    pt.idx() * 384 + cap.idx() * 64 + to
}

impl View for CaptureHistory {
    type V = Seq<i32>;

    closed spec fn view(&self) -> Seq<i32> {
        self.table@
    }
}

impl CaptureHistory {
    /// The table has its size and every entry lies within ±16384.
    pub closed spec fn wf(&self) -> bool {
        &&& self.table@.len() == CAPTURE_SIZE
        &&& forall|i: int| 0 <= i < CAPTURE_SIZE ==> -16384 <= #[trigger] self.table@[i] <= 16384
    }

    pub proof fn lemma_wf(&self)
        requires
            self.wf(),
        ensures
            self@.len() == CAPTURE_SIZE,
            forall|i: int| 0 <= i < CAPTURE_SIZE ==> -16384 <= #[trigger] self@[i] <= 16384,
    {
    }

    pub fn new() -> (h: Self)
        ensures
            h.wf(),
            h@ == Seq::new(CAPTURE_SIZE as nat, |i: int| 0i32),
    {
        let h = CaptureHistory { table: vec![0i32; CAPTURE_SIZE] };
        assert(h@ =~= Seq::new(CAPTURE_SIZE as nat, |i: int| 0i32));
        h
    }

    pub fn get(&self, pt: PieceType, cap: PieceType, to: usize) -> (v: i32)
        requires
            self.wf(),
            to < 64,
        ensures
            v == self@[capture_index(pt, cap, to as int)],
    {
        self.table[pt.index() * 384 + cap.index() * 64 + to]
    }

    pub fn update(&mut self, pt: PieceType, cap: PieceType, to: usize, bonus: i32)
        requires
            old(self).wf(),
            to < 64,
            -16384 <= bonus <= 16384,
        ensures
            final(self).wf(),
            final(self)@ == old(self)@.update(
                capture_index(pt, cap, to as int),
                gravity(old(self)@[capture_index(pt, cap, to as int)] as int, bonus as int, 16384) as i32,
            ),
    {
        let i = pt.index() * 384 + cap.index() * 64 + to;
        let v = self.table[i];
        let nv = gravity_update(v, bonus, 16384);
        self.table.set(i, nv);
    }
}

} // verus!
