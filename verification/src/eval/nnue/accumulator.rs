//! Incremental accumulator: the hidden layer of both perspectives, kept on a stack so
//! that a move can be made and unmade. A move adds and removes the columns of the
//! features it changes; a king move leaves the state for a full refresh.
use vstd::prelude::*;
use crate::board::bitboard::{low, rest, pop_lsb, lemma_low_rest, lemma_rest_smaller};
use crate::board::color::Color;
use crate::board::piece::PieceType;
use crate::board::position::{Move, Position, PositionView, castle_rook_squares};
use crate::eval::nnue::weights::{feature_index, feature_spec, NetworkWeights, L1_SIZE, INPUT_SIZE};
use crate::movegen::legal::king_square;

verus! {

/// One accumulator state: the hidden layer of White's and of Black's perspective.
#[derive(Clone, Copy)]
pub struct AccumulatorState {
    pub white: [i16; 256],
    pub black: [i16; 256],
}

/// Saturating `i16` arithmetic.
pub open spec fn sat16(x: int) -> i16 {
    if x < -32768 { -32768i16 } else if x > 32767 { 32767i16 } else { x as i16 }
}

/// A hidden layer with the column of feature `f` added (or subtracted), saturating.
pub open spec fn column(a: Seq<i16>, w: Seq<i16>, f: int, add: bool) -> Seq<i16> {
    Seq::new(256, |n: int| if add { sat16(a[n] + w[f * 256 + n]) } else { sat16(a[n] - w[f * 256 + n]) })
}

/// Adding or removing one piece: its feature from each perspective.
pub struct FeatureOp {
    pub add: bool,
    pub white: int,
    pub black: int,
}

/// Both perspectives of a state.
pub open spec fn layers(s: AccumulatorState) -> (Seq<i16>, Seq<i16>) {
    (s.white@, s.black@)
}

/// Applies the operations `ops` in order.
pub open spec fn apply_ops(s: (Seq<i16>, Seq<i16>), ops: Seq<FeatureOp>, w: Seq<i16>) -> (Seq<i16>, Seq<i16>)
    decreases ops.len(),
{
    if ops.len() == 0 {
        s
    } else {
        let p = apply_ops(s, ops.drop_last(), w);
        let op = ops.last();
        (column(p.0, w, op.white, op.add), column(p.1, w, op.black, op.add))
    }
}

/// The operation of a piece of color `c` and type `pt` on `sq`, with the kings on `wk`
/// and `bk`.
pub open spec fn piece_op(add: bool, wk: int, bk: int, c: int, pt: int, sq: int) -> FeatureOp {
    FeatureOp {
        add,
        white: feature_spec(wk as usize, c as usize, pt as usize, sq as usize, 0),
        black: feature_spec(bk as usize, c as usize, pt as usize, sq as usize, 1),
    }
}

/// The operations that put the mover down, by kind of move: the mover on the
/// destination, the castling rook moved, the pawn added and the pawn taken en passant
/// removed, or the promoted piece added.
pub open spec fn placement_ops(us: Color, flag: int, mpt: int, to: int, wk: int, bk: int) -> Seq<FeatureOp> {
    let ui = us.idx() as int;
    let ti = us.other().idx() as int;
    if flag == 0 || flag == 1 {
        seq![piece_op(true, wk, bk, ui, mpt, to)]
    } else if flag == 2 || flag == 3 {
        let (rf, rt) = castle_rook_squares(us, flag == 2);
        seq![piece_op(false, wk, bk, ui, 3, rf), piece_op(true, wk, bk, ui, 3, rt)]
    } else if flag == 4 {
        let cap = if us == Color::White { to - 8 } else { to + 8 };
        seq![piece_op(true, wk, bk, ui, 0, to), piece_op(false, wk, bk, ti, 0, cap)]
    } else if 5 <= flag <= 8 {
        seq![piece_op(true, wk, bk, ui, flag - 4, to)]
    } else {
        Seq::empty()
    }
}

/// The operations a move makes to the accumulator, for a move of a piece other than
/// the king: remove the mover, remove what stands on the destination (as the
/// opponent's piece), then [`placement_ops`]. A king move makes none.
pub open spec fn move_ops(v: PositionView, mv: Move) -> Seq<FeatureOp> {
    let ti = v.side.other().idx() as int;
    let wk = king_square(v, Color::White);
    let bk = king_square(v, Color::Black);
    let to = mv.to_idx();
    let mpt = v.moving_type(mv).idx() as int;
    if mpt == 5 {
        Seq::empty()
    } else {
        seq![piece_op(false, wk, bk, v.side.idx() as int, mpt, mv.from_idx())]
            + (match v.piece_at(to) {
                Some(p) => seq![piece_op(false, wk, bk, ti, p.piece_type.idx() as int, to)],
                None => Seq::empty(),
            })
            + placement_ops(v.side, mv.flag_spec() as int, mpt, to, wk, bk)
    }
}

/// The operations adding the pieces `bb`, lowest square first.
pub open spec fn add_piece_ops(bb: u64, wk: int, bk: int, c: int, pt: int) -> Seq<FeatureOp>
    decreases bb,
    via add_piece_ops_decreases
{
    if bb == 0 {
        Seq::empty()
    } else {
        seq![piece_op(true, wk, bk, c, pt, low(bb))] + add_piece_ops(rest(bb), wk, bk, c, pt)
    }
}

#[via_fn]
proof fn add_piece_ops_decreases(bb: u64, wk: int, bk: int, c: int, pt: int) {
    if bb != 0 {
        lemma_rest_smaller(bb);
    }
}

/// The operations of a full refresh for the first `k` piece kinds (White pawn, ...,
/// Black king).
pub open spec fn refresh_ops(v: PositionView, k: int) -> Seq<FeatureOp>
    decreases k,
{
    if k <= 0 {
        Seq::empty()
    } else {
        refresh_ops(v, k - 1) + add_piece_ops(v.pieces[k - 1], king_square(v, Color::White),
            king_square(v, Color::Black), (k - 1) / 6, (k - 1) % 6)
    }
}

/// Every operation names features of the input layer.
pub open spec fn ops_in_range(ops: Seq<FeatureOp>) -> bool {
    forall|i: int| 0 <= i < ops.len() ==> 0 <= (#[trigger] ops[i]).white < INPUT_SIZE && 0 <= ops[i].black < INPUT_SIZE
}

impl AccumulatorState {
    pub fn zeroed() -> (s: Self)
        ensures
            forall|n: int| 0 <= n < 256 ==> s.white@[n] == 0 && s.black@[n] == 0,
    {
        AccumulatorState { white: [0i16; 256], black: [0i16; 256] }
    }
}

/// The live accumulator: a stack of states, the current one on top.
pub struct Accumulator {
    stack: Vec<AccumulatorState>,
}

impl View for Accumulator {
    type V = Seq<AccumulatorState>;

    closed spec fn view(&self) -> Seq<AccumulatorState> {
        self.stack@
    }
}

/// Adds or removes the column of a feature from one perspective.
fn apply_column(acc: &mut [i16; 256], feature_idx: usize, weights: &Vec<i16>, add: bool)
    requires
        feature_idx < INPUT_SIZE,
        weights@.len() == 786432,
    ensures
        final(acc)@ == column(old(acc)@, weights@, feature_idx as int, add),
{
    let offset = feature_idx * L1_SIZE;
    let mut n: usize = 0;
    while n < L1_SIZE
        invariant
            feature_idx < INPUT_SIZE,
            offset == feature_idx * 256,
            weights@.len() == 786432,
            0 <= n <= 256,
            acc@.len() == 256,
            forall|j: int| 0 <= j < n ==> acc@[j] == column(old(acc)@, weights@, feature_idx as int, add)[j],
            forall|j: int| n <= j < 256 ==> acc@[j] == old(acc)@[j],
        decreases 256 - n,
    {
        let a = acc[n] as i32;
        let w = weights[offset + n] as i32;
        let x = if add { a + w } else { a - w };
        let y: i16 = if x < -32768 { -32768 } else if x > 32767 { 32767 } else { x as i16 };
        acc[n] = y;
        n = n + 1;
    }
    assert(acc@ =~= column(old(acc)@, weights@, feature_idx as int, add));
}

/// Applies one operation to both perspectives.
fn apply_op(st: &mut AccumulatorState, op: Ghost<FeatureOp>, wi: usize, bi: usize, add: bool, weights: &NetworkWeights)
    requires
        weights.wf(),
        wi == op@.white,
        bi == op@.black,
        add == op@.add,
        wi < INPUT_SIZE,
        bi < INPUT_SIZE,
    ensures
        layers(*final(st)) == (column(layers(*old(st)).0, weights.feature_weights@, op@.white, op@.add),
            column(layers(*old(st)).1, weights.feature_weights@, op@.black, op@.add)),
{
    apply_column(&mut st.white, wi, &weights.feature_weights, add);
    apply_column(&mut st.black, bi, &weights.feature_weights, add);
}

/// One more operation at the end of a list.
proof fn lemma_apply_push(s: (Seq<i16>, Seq<i16>), ops: Seq<FeatureOp>, op: FeatureOp, w: Seq<i16>)
    ensures
        apply_ops(s, ops.push(op), w) == ({
            let p = apply_ops(s, ops, w);
            (column(p.0, w, op.white, op.add), column(p.1, w, op.black, op.add))
        }),
{
    assert(ops.push(op).drop_last() =~= ops);
}

/// Applying two lists of operations is applying their concatenation.
proof fn lemma_apply_concat(s: (Seq<i16>, Seq<i16>), a: Seq<FeatureOp>, b: Seq<FeatureOp>, w: Seq<i16>)
    ensures
        apply_ops(s, a + b, w) == apply_ops(apply_ops(s, a, w), b, w),
    decreases b.len(),
{
    if b.len() == 0 {
        assert(a + b =~= a);
    } else {
        lemma_apply_concat(s, a, b.drop_last(), w);
        assert((a + b).drop_last() =~= a + b.drop_last());
    }
}

/// Adds or removes one piece of color `c` and type `pt` on `sq`, the kings on `wk` and
/// `bk`.
fn apply_piece(st: &mut AccumulatorState, add: bool, wk: usize, bk: usize, c: usize, pt: usize, sq: usize, weights: &NetworkWeights)
    requires
        weights.wf(),
        wk < 64,
        bk < 64,
        c < 2,
        pt < 6,
        sq < 64,
    ensures
        layers(*final(st)) == apply_ops(layers(*old(st)), seq![piece_op(add, wk as int, bk as int, c as int, pt as int, sq as int)],
            weights.feature_weights@),
{
    let ghost op = piece_op(add, wk as int, bk as int, c as int, pt as int, sq as int);
    proof {
        lemma_apply_push(layers(*old(st)), Seq::empty(), op, weights.feature_weights@);
        assert(Seq::<FeatureOp>::empty().push(op) =~= seq![op]);
    }
    let wi = feature_index(wk, c, pt, sq, 0);
    let bi = feature_index(bk, c, pt, sq, 1);
    apply_op(st, Ghost(op), wi, bi, add, weights);
}

/// Applies [`placement_ops`].
fn apply_placement(st: &mut AccumulatorState, us: Color, flag: u32, mpt: usize, to: usize, wk: usize, bk: usize, weights: &NetworkWeights)
    requires
        weights.wf(),
        wk < 64,
        bk < 64,
        mpt < 6,
        to < 64,
        flag == 4 ==> 0 <= (if us == Color::White { to - 8 } else { to + 8 }) < 64,
    ensures
        layers(*final(st)) == apply_ops(layers(*old(st)), placement_ops(us, flag as int, mpt as int, to as int, wk as int, bk as int),
            weights.feature_weights@),
{
    let ghost s0 = layers(*st);
    let ghost w = weights.feature_weights@;
    let ghost ops = placement_ops(us, flag as int, mpt as int, to as int, wk as int, bk as int);
    let us_idx = us.index();
    let them_idx = us.flip().index();
    if flag == 0 || flag == 1 {
        apply_piece(st, true, wk, bk, us_idx, mpt, to, weights);
    } else if flag == 2 || flag == 3 {
        let (rook_from, rook_to): (usize, usize) = if flag == 2 {
            if us == Color::White { (7, 5) } else { (63, 61) }
        } else {
            if us == Color::White { (0, 3) } else { (56, 59) }
        };
        apply_piece(st, false, wk, bk, us_idx, 3, rook_from, weights);
        let ghost s1 = layers(*st);
        apply_piece(st, true, wk, bk, us_idx, 3, rook_to, weights);
        proof {
            let a = seq![piece_op(false, wk as int, bk as int, us_idx as int, 3, rook_from as int)];
            let b = seq![piece_op(true, wk as int, bk as int, us_idx as int, 3, rook_to as int)];
            lemma_apply_concat(s0, a, b, w);
            assert(ops =~= a + b);
        }
    } else if flag == 4 {
        apply_piece(st, true, wk, bk, us_idx, 0, to, weights);
        let cap_sq = if us == Color::White { to - 8 } else { to + 8 };
        apply_piece(st, false, wk, bk, them_idx, 0, cap_sq, weights);
        proof {
            let a = seq![piece_op(true, wk as int, bk as int, us_idx as int, 0, to as int)];
            let b = seq![piece_op(false, wk as int, bk as int, them_idx as int, 0, cap_sq as int)];
            lemma_apply_concat(s0, a, b, w);
            assert(ops =~= a + b);
        }
    } else if 5 <= flag && flag <= 8 {
        let promo_pt = (flag - 4) as usize;
        apply_piece(st, true, wk, bk, us_idx, promo_pt, to, weights);
    } else {
        assert(ops =~= Seq::<FeatureOp>::empty());
    }
}

impl Accumulator {
    pub fn new() -> (a: Self)
        ensures
            a@ == Seq::<AccumulatorState>::empty(),
    {
        Accumulator { stack: Vec::with_capacity(256) }
    }

    /// Returns the current accumulator state.
    pub fn current(&self) -> (s: &AccumulatorState)
        requires
            self@.len() > 0,
        ensures
            *s == self@.last(),
    {
        let n = self.stack.len();
        &self.stack[n - 1]
    }

    /// Full refresh from the position: the biases plus the column of every piece, White's
    /// pieces first, by kind and square. It replaces the current state, or becomes the
    /// first one.
    pub fn refresh(&mut self, pos: &Position, weights: &NetworkWeights)
        requires
            weights.wf(),
            pos@.bb(Color::White, PieceType::King) != 0,
            pos@.bb(Color::Black, PieceType::King) != 0,
        ensures
            final(self)@.len() == (if old(self)@.len() == 0 { 1 } else { old(self)@.len() }),
            final(self)@.drop_last() == (if old(self)@.len() == 0 { old(self)@ } else { old(self)@.drop_last() }),
            layers(final(self)@.last()) == apply_ops((weights.feature_biases@, weights.feature_biases@),
                refresh_ops(pos@, 12), weights.feature_weights@),
    {
        let mut state = AccumulatorState::zeroed();
        let mut n: usize = 0;
        while n < L1_SIZE
            invariant
                weights.wf(),
                0 <= n <= 256,
                state.white@.len() == 256,
                state.black@.len() == 256,
                forall|j: int| 0 <= j < n ==> state.white@[j] == weights.feature_biases@[j] && state.black@[j] == weights.feature_biases@[j],
            decreases 256 - n,
        {
            state.white[n] = weights.feature_biases[n];
            state.black[n] = weights.feature_biases[n];
            n = n + 1;
        }
        assert(state.white@ =~= weights.feature_biases@);
        assert(state.black@ =~= weights.feature_biases@);
        let wk = pos.king_sq(Color::White);
        let bk = pos.king_sq(Color::Black);
        proof {
            crate::board::bitboard::lemma_low_unique(pos@.bb(Color::White, PieceType::King), wk.idx() as int);
            crate::board::bitboard::lemma_low_unique(pos@.bb(Color::Black, PieceType::King), bk.idx() as int);
        }
        let white_king_sq = wk.index();
        let black_king_sq = bk.index();
        let ghost base = (weights.feature_biases@, weights.feature_biases@);
        let mut k: usize = 0;
        while k < 12
            invariant
                weights.wf(),
                0 <= k <= 12,
                white_king_sq == king_square(pos@, Color::White),
                black_king_sq == king_square(pos@, Color::Black),
                white_king_sq < 64,
                black_king_sq < 64,
                base == (weights.feature_biases@, weights.feature_biases@),
                layers(state) == apply_ops(base, refresh_ops(pos@, k as int), weights.feature_weights@),
            decreases 12 - k,
        {
            let color_idx = k / 6;
            let pt_idx = k % 6;
            let mut bb = pos.pieces[k];
            let ghost done = refresh_ops(pos@, k as int);
            let ghost all = add_piece_ops(pos@.pieces[k as int], white_king_sq as int, black_king_sq as int, color_idx as int, pt_idx as int);
            let ghost mut pre: Seq<FeatureOp> = Seq::empty();
            assert(pre + all =~= all);
            while bb != 0
                invariant
                    weights.wf(),
                    white_king_sq < 64,
                    black_king_sq < 64,
                    color_idx < 2,
                    pt_idx < 6,
                    pre + add_piece_ops(bb, white_king_sq as int, black_king_sq as int, color_idx as int, pt_idx as int) == all,
                    layers(state) == apply_ops(base, done + pre, weights.feature_weights@),
                decreases bb,
            {
                let ghost b0 = bb;
                proof {
                    lemma_low_rest(bb);
                    lemma_rest_smaller(bb);
                }
                let sq = pop_lsb(&mut bb) as usize;
                let wi = feature_index(white_king_sq, color_idx, pt_idx, sq, 0);
                let bi = feature_index(black_king_sq, color_idx, pt_idx, sq, 1);
                let ghost op = piece_op(true, white_king_sq as int, black_king_sq as int, color_idx as int, pt_idx as int, sq as int);
                let ghost rem0 = add_piece_ops(b0, white_king_sq as int, black_king_sq as int, color_idx as int, pt_idx as int);
                let ghost rem1 = add_piece_ops(bb, white_king_sq as int, black_king_sq as int, color_idx as int, pt_idx as int);
                assert(rem0 == seq![op] + rem1);
                proof {
                    lemma_apply_push(base, done + pre, op, weights.feature_weights@);
                    assert(done + pre.push(op) =~= (done + pre).push(op));
                    assert(pre.push(op) + rem1 =~= pre + rem0);
                }
                apply_op(&mut state, Ghost(op), wi, bi, true, weights);
                proof { pre = pre.push(op); }
            }
            proof {
                assert(pre + Seq::<FeatureOp>::empty() =~= pre);
                assert(refresh_ops(pos@, k as int + 1) == done + add_piece_ops(pos@.pieces[k as int],
                    king_square(pos@, Color::White), king_square(pos@, Color::Black), k as int / 6, k as int % 6));
            }
            k = k + 1;
        }
        if self.stack.len() == 0 {
            self.stack.push(state);
        } else {
            let n = self.stack.len();
            self.stack.set(n - 1, state);
        }
        proof {
            if old(self)@.len() == 0 {
                assert(self.stack@.drop_last() =~= old(self)@);
            } else {
                assert(self.stack@.drop_last() =~= old(self)@.drop_last());
            }
        }
    }

    /// Pushes a copy of the current state and updates it for `mv`: a king move leaves the
    /// copy for a refresh after the move, any other move applies [`move_ops`].
    pub fn push_move(&mut self, pos: &Position, mv: Move, weights: &NetworkWeights)
        requires
            weights.wf(),
            old(self)@.len() > 0,
            pos@.bb(Color::White, PieceType::King) != 0,
            pos@.bb(Color::Black, PieceType::King) != 0,
            pos@.piece_type_at(mv.from_idx(), pos.side) is Some,
            mv.flag_spec() == 4 && pos@.moving_type(mv) != PieceType::King ==> 0 <= (if pos.side == Color::White { mv.to_idx() - 8 } else { mv.to_idx() + 8 }) < 64,
        ensures
            final(self)@.len() == old(self)@.len() + 1,
            final(self)@.drop_last() == old(self)@,
            layers(final(self)@.last()) == apply_ops(layers(old(self)@.last()), move_ops(pos@, mv), weights.feature_weights@),
    {
        let n = self.stack.len();
        let mut st = self.stack[n - 1];
        let ghost v = pos@;
        let ghost w = weights.feature_weights@;
        let ghost s0 = layers(st);
        let ghost ops = move_ops(v, mv);
        let us = pos.side;
        let from = mv.from();
        let to = mv.to();
        let us_idx = us.index();
        let them_idx = us.flip().index();
        let moving = match pos.piece_type_on(from, us) {
            Some(pt) => pt,
            None => {
                assert(false);
                PieceType::Pawn
            },
        };
        let moving_pt = moving.index();
        let wk = pos.king_sq(Color::White);
        let bk = pos.king_sq(Color::Black);
        proof {
            crate::board::bitboard::lemma_low_unique(pos@.bb(Color::White, PieceType::King), wk.idx() as int);
            crate::board::bitboard::lemma_low_unique(pos@.bb(Color::Black, PieceType::King), bk.idx() as int);
        }
        let white_king_sq = wk.index();
        let black_king_sq = bk.index();
        if moving_pt == 5 {
            assert(ops =~= Seq::<FeatureOp>::empty());
            self.stack.push(st);
            assert(self.stack@.drop_last() =~= old(self)@);
            return;
        }
        let from_i = from.index();
        let to_i = to.index();
        let ghost wks = white_king_sq as int;
        let ghost bks = black_king_sq as int;

        // Remove the moving piece from its square.
        apply_piece(&mut st, false, white_king_sq, black_king_sq, us_idx, moving_pt, from_i, weights);
        let ghost first = seq![piece_op(false, wks, bks, us_idx as int, moving_pt as int, from_i as int)];
        let ghost s1 = layers(st);
        // Remove what stands on the destination.
        let ghost cap_ops: Seq<FeatureOp> = match v.piece_at(to_i as int) {
            Some(p) => seq![piece_op(false, wks, bks, them_idx as int, p.piece_type.idx() as int, to_i as int)],
            None => Seq::empty(),
        };
        match pos.piece_on(to) {
            Some(p) => {
                let cap_pt = p.piece_type.index();
                apply_piece(&mut st, false, white_king_sq, black_king_sq, them_idx, cap_pt, to_i, weights);
            },
            None => {
                assert(apply_ops(s1, cap_ops, w) == s1);
            },
        }
        let ghost s2 = layers(st);
        let flag = mv.flag();
        apply_placement(&mut st, us, flag, moving_pt, to_i, white_king_sq, black_king_sq, weights);
        proof {
            let place = placement_ops(us, flag as int, moving_pt as int, to_i as int, wks, bks);
            lemma_apply_concat(s0, first, cap_ops, w);
            lemma_apply_concat(s0, first + cap_ops, place, w);
            assert(ops == first + cap_ops + place);
        }
        self.stack.push(st);
        assert(self.stack@.drop_last() =~= old(self)@);
    }

    /// Pop the top state, restoring the accumulator to before the last push.
    pub fn pop_move(&mut self)
        ensures
            final(self)@ == (if old(self)@.len() > 0 { old(self)@.drop_last() } else { old(self)@ }),
    {
        self.stack.pop();
        proof {
            if old(self)@.len() > 0 {
                assert(self.stack@ =~= old(self)@.drop_last());
            }
        }
    }
}

/// Popping after a push gives back the accumulator as it was before the push.
pub proof fn lemma_pop_undoes_push(before: Seq<AccumulatorState>, pushed: Seq<AccumulatorState>)
    requires
        pushed.len() == before.len() + 1,
        pushed.drop_last() == before,
    ensures
        (if pushed.len() > 0 { pushed.drop_last() } else { pushed }) == before,
{
}

} // verus!
