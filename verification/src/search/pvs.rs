//! Principal variation search: alpha-beta with a null window for all but the first
//! move, quiescence search at the leaves, null-move pruning, singular extensions and late
//! move reductions, with the state it carries through its recursive calls.
use vstd::prelude::*;
use crate::board::color::Color;
use crate::board::piece::PieceType;
use crate::board::position::{Move, Position, PositionView, lemma_unmake_undoes_make, lemma_unmake_null_undoes_null};
use crate::board::keep_wf::{lemma_make_keeps_wf, lemma_null_keeps_wf};
use crate::board::bitboard::popcount_spec;
use crate::eval::{SCORE_DRAW, SCORE_MATED, SCORE_NONE, is_mate_score};
use crate::eval::material::{non_pawn_material, piece_value_simple};
use crate::movegen::legal::{in_check, is_in_check, legal_moves, legal_captures, legal_seq, legal_capture_seq, lemma_legal_ok, lemma_captures_ok};
use crate::tt::entry::Bound;
use crate::movegen::pseudo_legal::MoveList;
use crate::eval::nnue::NnueEval;
use crate::history::butterfly::ButterflyHistory;
use crate::history::capture::CaptureHistory;
use crate::history::continuation::ContinuationHistory;
use crate::history::correction::CorrectionHistory;
use crate::history::killer::KillerTable;
use crate::search::MAX_PLY;
use crate::search::timeman::TimeManager;
use crate::tt::table::TranspositionTable;

verus! {

/// Per-search state shared across all recursive calls.
pub struct SearchState {
    pub tt: TranspositionTable,
    pub killers: KillerTable,
    pub butterfly: ButterflyHistory,
    pub capture_hist: CaptureHistory,
    pub cont_hist: ContinuationHistory,
    pub corr_hist: CorrectionHistory,
    pub nnue: NnueEval,
    pub time: TimeManager,
    pub nodes: u64,
    pub seldepth: u32,
    /// Row `p` holds the principal variation found at ply `p`.
    pub pv: Vec<Vec<Move>>,
    /// The length of the principal variation of each ply.
    pub pv_length: Vec<usize>,
    /// The move made at each ply.
    pub move_stack: Vec<Move>,
    /// The static evaluation at each ply.
    pub eval_stack: Vec<i32>,
    /// The move a singular-extension search leaves out.
    pub excl_move: Move,
}

impl SearchState {
    /// The table of principal variations has a full row and a length for each ply.
    pub open spec fn pv_wf(&self) -> bool {
        &&& self.pv@.len() == MAX_PLY
        &&& forall|p: int| 0 <= p < MAX_PLY ==> (#[trigger] self.pv@[p])@.len() == MAX_PLY
        &&& self.pv_length@.len() == MAX_PLY
    }

    /// The principal variation recorded at ply `p`.
    pub open spec fn line(&self, p: int) -> Seq<Move> {
        self.pv@[p]@.take(self.pv_length@[p] as int)
    }

    /// Everything but the table of principal variations and its lengths is as in `other`.
    pub open spec fn same_but_pv(&self, other: &SearchState) -> bool {
        &&& self.tt == other.tt
        &&& self.killers == other.killers
        &&& self.butterfly == other.butterfly
        &&& self.capture_hist == other.capture_hist
        &&& self.cont_hist == other.cont_hist
        &&& self.corr_hist == other.corr_hist
        &&& self.nnue == other.nnue
        &&& self.time == other.time
        &&& self.nodes == other.nodes
        &&& self.seldepth == other.seldepth
        &&& self.move_stack == other.move_stack
        &&& self.eval_stack == other.eval_stack
        &&& self.excl_move == other.excl_move
    }

    /// Records `mv` followed by the principal variation of the next ply as the
    /// principal variation of `ply`.
    pub fn update_pv(&mut self, ply: usize, mv: Move)
        requires
            old(self).pv_wf(),
            ply + 1 < MAX_PLY,
            old(self).pv_length@[ply + 1] < MAX_PLY,
        ensures
            final(self).pv_wf(),
            final(self).same_but_pv(old(self)),
            final(self).pv_length@ == old(self).pv_length@.update(ply as int, (old(self).pv_length@[ply + 1] + 1) as usize),
            final(self).line(ply as int) == seq![mv] + old(self).line(ply + 1),
            final(self).pv@[ply as int]@[0] == mv,
            forall|k: int| old(self).pv_length@[ply + 1] < k < MAX_PLY
                ==> #[trigger] final(self).pv@[ply as int]@[k] == old(self).pv@[ply as int]@[k],
            forall|p: int| 0 <= p < MAX_PLY && p != ply ==> #[trigger] final(self).pv@[p] == old(self).pv@[p],
    {
        let next_len = self.pv_length[ply + 1];
        let ghost below = self.pv@[ply + 1]@;
        let ghost here = self.pv@[ply as int]@;
        let mut row: Vec<Move> = Vec::new();
        row.push(mv);
        let mut i: usize = 0;
        while i < next_len
            invariant
                self.pv_wf(),
                ply + 1 < MAX_PLY,
                next_len < MAX_PLY,
                below == self.pv@[ply + 1]@,
                i <= next_len,
                row@ == seq![mv] + below.take(i as int),
            decreases next_len - i,
        {
            row.push(self.pv[ply + 1][i]);
            i = i + 1;
            assert(below.take(i as int) =~= below.take(i - 1) + seq![below[i - 1]]);
        }
        let mut k: usize = next_len + 1;
        while k < MAX_PLY
            invariant
                self.pv_wf(),
                here == self.pv@[ply as int]@,
                ply + 1 < MAX_PLY,
                next_len + 1 <= k <= MAX_PLY,
                row@.len() == k,
                row@.take(next_len + 1) == seq![mv] + below.take(next_len as int),
                forall|j: int| next_len < j < k ==> #[trigger] row@[j] == here[j],
            decreases MAX_PLY - k,
        {
            row.push(self.pv[ply][k]);
            k = k + 1;
            assert(row@.take(next_len + 1) =~= row@.drop_last().take(next_len + 1));
        }
        assert(row@[0] == row@.take(next_len + 1)[0]);
        self.pv.set(ply, row);
        self.pv_length.set(ply, next_len + 1);
    }

    /// The principal variation of the root.
    pub fn get_pv(&self) -> (line: Vec<Move>)
        requires
            self.pv_wf(),
            self.pv_length@[0] <= MAX_PLY,
        ensures
            line@ == self.line(0),
    {
        let n = self.pv_length[0];
        let mut line: Vec<Move> = Vec::new();
        let mut i: usize = 0;
        while i < n
            invariant
                self.pv_wf(),
                n == self.pv_length@[0],
                n <= MAX_PLY,
                i <= n,
                line@ == self.pv@[0]@.take(i as int),
            decreases n - i,
        {
            line.push(self.pv[0][i]);
            i = i + 1;
            assert(self.pv@[0]@.take(i as int) =~= self.pv@[0]@.take(i - 1) + seq![self.pv@[0]@[i - 1]]);
        }
        line
    }
}


/// A late-move-reduction table: 64 rows of 64 reductions, each between 0 and 64.
pub open spec fn lmr_ok(t: Seq<[i32; 64]>) -> bool {
    &&& t.len() == 64
    &&& forall|d: int, m: int| 0 <= d < 64 && 0 <= m < 64 ==> 0 <= #[trigger] t[d]@[m] <= 64
}

/// The reduction for a depth and a move number, both capped at 63.
pub fn lmr_reduction(table: &Vec<[i32; 64]>, depth: i32, moves: i32) -> (r: i32)
    requires
        lmr_ok(table@),
        depth >= 0,
        moves >= 0,
    ensures
        r == table@[if depth < 63 { depth as int } else { 63 }]@[if moves < 63 { moves as int } else { 63 }],
        0 <= r <= 64,
{
    let d: usize = if depth < 63 { depth as usize } else { 63 };
    let m: usize = if moves < 63 { moves as usize } else { 63 };
    table[d][m]
}

/// A static evaluator the search can call on any position: its scores lie within 30000
/// of zero.
pub open spec fn eval_ok<E: Fn(&Position, &NnueEval) -> i32>(eval: &E) -> bool {
    &&& forall|p: &Position, n: &NnueEval| #[trigger] eval.requires((p, n))
    &&& forall|p: &Position, n: &NnueEval, r: i32| #[trigger] eval.ensures((p, n), r) ==> -30000 <= r <= 30000
}

/// A draw by the fifty-move rule, threefold repetition or insufficient material, as
/// [`Position::is_fifty_move_draw`], [`Position::is_repetition`] and
/// [`Position::is_insufficient_material`] decide it.
pub open spec fn draw_spec(v: PositionView) -> bool {
    ||| v.halfmove_clock >= 100
    ||| (v.hash_history.len() >= 5
        && crate::board::position::repetitions(v.hash_history, v.hash, v.hash_history.len() - 3) >= 2)
    ||| (v.occupancy == v.colors[0] | v.colors[1] && popcount_spec(v.occupancy) == 2)
    ||| (popcount_spec(v.occupancy) == 3 && (
        popcount_spec(v.bb(Color::White, PieceType::Knight) | v.bb(Color::White, PieceType::Bishop)) == 1
        || popcount_spec(v.bb(Color::Black, PieceType::Knight) | v.bb(Color::Black, PieceType::Bishop)) == 1))
}

/// The deepest ply quiescence search reaches; a capture sequence never gets there, as
/// every capture takes a piece off the board.
pub const QS_MAX_PLY: usize = 512;

impl SearchState {
    /// The tables the search reads and writes are well-formed: the principal variation
    /// lengths fit their rows, the stacks have a slot per ply, the transposition table has
    /// slots with scores in the score range, and the NNUE accumulator has a state when a
    /// network is loaded.
    pub open spec fn search_wf(&self) -> bool {
        &&& self.pv_wf()
        &&& forall|p: int| 0 <= p < MAX_PLY ==> #[trigger] self.pv_length@[p] < MAX_PLY - p
        &&& self.move_stack@.len() == MAX_PLY
        &&& self.eval_stack@.len() == MAX_PLY
        &&& self.tt.wf()
        &&& self.tt.slots().len() > 0
        &&& forall|i: int| 0 <= i < self.tt.slots().len() ==> -32000 <= #[trigger] self.tt.slots()[i].score <= 32000
        &&& self.killers.wf()
        &&& self.butterfly.wf()
        &&& self.corr_hist.wf()
        &&& self.nnue.wf()
        &&& (self.nnue.weights_spec() is Some ==> self.nnue.states().len() > 0)
    }
}

/// The move generator can take the position, and both kings stand on the board.
pub open spec fn searchable_spec(v: PositionView) -> bool {
    v.valid() && v.bb(Color::White, PieceType::King) != 0 && v.bb(Color::Black, PieceType::King) != 0
}

impl SearchState {
    /// Everything but the time manager is as in `other`.
    pub open spec fn same_but_time(&self, other: &SearchState) -> bool {
        &&& self.tt == other.tt
        &&& self.killers == other.killers
        &&& self.butterfly == other.butterfly
        &&& self.capture_hist == other.capture_hist
        &&& self.cont_hist == other.cont_hist
        &&& self.corr_hist == other.corr_hist
        &&& self.nnue == other.nnue
        &&& self.nodes == other.nodes
        &&& self.seldepth == other.seldepth
        &&& self.pv == other.pv
        &&& self.pv_length == other.pv_length
        &&& self.move_stack == other.move_stack
        &&& self.eval_stack == other.eval_stack
        &&& self.excl_move == other.excl_move
    }

    /// The principal variations of the plies before `ply` are as in `other`.
    pub open spec fn rows_kept(&self, other: &SearchState, ply: int) -> bool {
        &&& self.pv@.len() == other.pv@.len()
        &&& self.pv_length@.len() == other.pv_length@.len()
        &&& forall|p: int| 0 <= p < ply ==> #[trigger] self.pv@[p] == other.pv@[p]
        &&& forall|p: int| 0 <= p < ply ==> #[trigger] self.pv_length@[p] == other.pv_length@[p]
    }

    /// The principal variation recorded at `ply` starts with a legal move of `v`.
    pub open spec fn row_legal(&self, v: PositionView, ply: int) -> bool {
        self.pv_length@[ply] > 0 ==> legal_seq(v).contains(self.pv@[ply]@[0])
    }
}

/// Every `4096` nodes, whether the time is up; the manager is then stopped for good.
fn time_out(state: &mut SearchState) -> (b: bool)
    ensures
        final(state).same_but_time(old(state)),
        b ==> final(state).time.is_stopped(),
        !b ==> final(state).time == old(state).time,
        old(state).search_wf() ==> final(state).search_wf(),
{
    if state.time.should_check(state.nodes) && state.time.is_hard_expired() {
        state.time.stop();
        true
    } else {
        false
    }
}

/// The move generator can take the position, and both kings stand on the board.
fn searchable(pos: &Position) -> (b: bool)
    ensures
        b == (pos@.valid() && pos@.bb(Color::White, PieceType::King) != 0
            && pos@.bb(Color::Black, PieceType::King) != 0),
{
    pos.is_valid() && pos.bb(Color::White, PieceType::King) != 0 && pos.bb(Color::Black, PieceType::King) != 0
}

/// Counts a node (wrapping, as a machine counter does).
fn count_node(state: &mut SearchState)
    ensures
        final(state).nodes == (old(state).nodes + 1) % 0x1_0000_0000_0000_0000,
        final(state).seldepth == old(state).seldepth,
        final(state).search_wf() == old(state).search_wf(),
        final(state).time == old(state).time,
        final(state).nnue == old(state).nnue,
        final(state).pv == old(state).pv,
        final(state).pv_length == old(state).pv_length,
{
    state.nodes = state.nodes.wrapping_add(1);
}

/// Quiescence search: extends the search through captures (and promotions) so that a
/// leaf is not scored in the middle of an exchange. Positions the move generator cannot
/// take are scored by their static evaluation.
#[verifier::rlimit(60)]
#[verifier::spinoff_prover]
pub fn quiescence<E: Fn(&Position, &NnueEval) -> i32>(
    pos: &mut Position,
    state: &mut SearchState,
    alpha: i32,
    beta: i32,
    ply: usize,
    eval: &E,
) -> (score: i32)
    requires
        old(pos)@.wf(),
        old(state).search_wf(),
        ply < QS_MAX_PLY,
        -32000 <= alpha < beta <= 32000,
        eval_ok(eval),
    ensures
        final(pos)@ == old(pos)@,
        final(state).search_wf(),
        final(state).nnue == old(state).nnue,
        final(state).pv == old(state).pv,
        final(state).pv_length == old(state).pv_length,
        -32000 <= score <= 32000,
        old(state).time.is_stopped() ==> final(state).time.is_stopped(),
        !final(state).time.is_stopped() && draw_spec(old(pos)@) ==> score == 0,
        !final(state).time.is_stopped() && !draw_spec(old(pos)@) && searchable_spec(old(pos)@)
            && ply + 1 < QS_MAX_PLY && in_check(old(pos)@, old(pos).side)
            && legal_capture_seq(old(pos)@).len() == 0 && legal_seq(old(pos)@).len() == 0
            ==> score == SCORE_MATED + ply,
        !final(state).time.is_stopped() && !draw_spec(old(pos)@)
            && !(searchable_spec(old(pos)@) && in_check(old(pos)@, old(pos).side))
            ==> exists|p: Position, n: NnueEval, r: i32| p@ == old(pos)@ && n.weights_spec() is None
                && #[trigger] eval.ensures((&p, &n), r) && score >= r,
    decreases QS_MAX_PLY - ply,
{
    let mut alpha = alpha;
    count_node(state);
    if time_out(state) {
        return alpha;
    }
    if pos.is_repetition() || pos.is_fifty_move_draw() || pos.is_insufficient_material() {
        return 0;
    }
    let hce = NnueEval::new();
    let ghost p0: Position = *pos;
    let stand_pat = eval(pos, &hce);
    assert(eval.ensures((&p0, &hce), stand_pat));
    if !searchable(pos) || ply + 1 >= QS_MAX_PLY {
        return stand_pat;
    }
    let in_check = is_in_check(pos, pos.side);
    if !in_check {
        if stand_pat >= beta {
            return stand_pat;
        }
        if stand_pat > alpha {
            alpha = stand_pat;
        }
    }
    let ghost v = pos@;
    let captures = legal_captures(pos);
    proof { lemma_captures_ok(v); }
    if captures.moves.len() == 0 {
        if in_check {
            let all_moves = legal_moves(pos);
            if all_moves.moves.len() == 0 {
                return SCORE_MATED + ply as i32;
            }
            return stand_pat;
        }
        return stand_pat;
    }
    let scored = order_captures(pos, &captures);
    proof {
        assert forall|k: int| 0 <= k < scored@.len() implies v.move_ok(#[trigger] scored@[k].0) by {
            let m = scored@[k].0;
            assert(captures@.contains(m));
            let j = choose|j: int| 0 <= j < captures@.len() && captures@[j] == m;
            assert(v.move_ok(legal_capture_seq(v)[j]));
        }
    }
    let mut best = stand_pat;
    let mut i: usize = 0;
    while i < scored.len()
        invariant
            pos@ == v,
            v == old(pos)@,
            p0@ == v,
            hce.weights_spec() is None,
            eval.ensures((&p0, &hce), stand_pat),
            best >= stand_pat,
            v.valid(),
            state.search_wf(),
            state.nnue == old(state).nnue,
            state.pv == old(state).pv,
            state.pv_length == old(state).pv_length,
            old(state).time.is_stopped() ==> state.time.is_stopped(),
            !draw_spec(v),
            ply + 1 < QS_MAX_PLY,
            -32000 <= alpha < beta <= 32000,
            -32000 <= best <= 32000,
            -30000 <= stand_pat <= 30000,
            eval_ok(eval),
            forall|k: int| 0 <= k < scored@.len() ==> v.move_ok(#[trigger] scored@[k].0),
            forall|k: int| 0 <= k < scored@.len() ==> 0 <= #[trigger] scored@[k].1 <= 20000,
        decreases scored@.len() - i,
    {
        let (mv, cap_val) = scored[i];
        i = i + 1;
        if !in_check && stand_pat + cap_val + DELTA_MARGIN < alpha {
            continue;
        }
        proof {
            lemma_unmake_undoes_make(v, mv);
            lemma_make_keeps_wf(v, mv);
        }
        let unmake = pos.make_move(mv);
        let score = -quiescence(pos, state, -beta, -alpha, ply + 1, eval);
        pos.unmake_move(mv, unmake);
        if score > best {
            best = score;
            if score > alpha {
                if score >= beta {
                    break;
                }
                alpha = score;
            }
        }
    }
    best
}

/// Delta pruning margin: a capture that cannot lift the score to alpha even with a queen's
/// worth to spare is skipped.
pub const DELTA_MARGIN: i32 = 975;

/// The legal captures paired with the value of the piece each takes, most valuable first
/// (equal values in generation order).
fn order_captures(pos: &Position, captures: &MoveList) -> (scored: Vec<(Move, i32)>)
    ensures
        scored@.len() == captures@.len(),
        forall|k: int| 0 <= k < scored@.len() ==> captures@.contains(#[trigger] scored@[k].0),
        forall|k: int| 0 <= k < scored@.len() ==> 0 <= #[trigger] scored@[k].1 <= 20000,
        forall|a: int, b: int| 0 <= a < b < scored@.len() ==> scored@[a].1 >= scored@[b].1,
{
    let mut scored: Vec<(Move, i32)> = Vec::new();
    let mut i: usize = 0;
    while i < captures.moves.len()
        invariant
            0 <= i <= captures@.len(),
            scored@.len() == i,
            forall|k: int| 0 <= k < scored@.len() ==> captures@.contains(#[trigger] scored@[k].0),
            forall|k: int| 0 <= k < scored@.len() ==> 0 <= #[trigger] scored@[k].1 <= 20000,
            forall|a: int, b: int| 0 <= a < b < scored@.len() ==> scored@[a].1 >= scored@[b].1,
        decreases captures@.len() - i,
    {
        let mv = captures.moves[i];
        let val = match pos.piece_on(mv.to()) {
            Some(p) => piece_value_simple(p.piece_type),
            None => 0,
        };
        proof { assert(captures@.contains(captures@[i as int])); }
        insert_by_score(&mut scored, mv, val);
        i = i + 1;
    }
    scored
}

/// Inserts `(mv, val)` after the entries scored at least `val`, keeping the scores in
/// descending order.
fn insert_by_score(v: &mut Vec<(Move, i32)>, mv: Move, val: i32)
    requires
        forall|a: int, b: int| 0 <= a < b < old(v)@.len() ==> old(v)@[a].1 >= old(v)@[b].1,
    ensures
        final(v)@.len() == old(v)@.len() + 1,
        forall|a: int, b: int| 0 <= a < b < final(v)@.len() ==> final(v)@[a].1 >= final(v)@[b].1,
        forall|k: int| 0 <= k < final(v)@.len() ==> #[trigger] final(v)@[k] == (mv, val)
            || old(v)@.contains(final(v)@[k]),
{
    let mut j: usize = 0;
    while j < v.len() && v[j].1 >= val
        invariant
            0 <= j <= v@.len(),
            v@ == old(v)@,
            forall|k: int| 0 <= k < j ==> #[trigger] v@[k].1 >= val,
        decreases v@.len() - j,
    {
        j = j + 1;
    }
    let ghost o = v@;
    v.insert(j, (mv, val));
    proof {
        assert forall|k: int| 0 <= k < v@.len() implies #[trigger] v@[k] == (mv, val) || o.contains(v@[k]) by {
            if k < j {
                assert(v@[k] == o[k]);
            } else if k > j {
                assert(v@[k] == o[k - 1]);
            }
        }
    }
}


/// The history bonus of a quiet move that caused a cutoff at `depth`.
pub fn history_bonus(depth: i32) -> (b: i32)
    requires
        1 <= depth <= 100000,
    ensures
        b == (if 300 * depth - 300 < 2800 { 300 * depth - 300 } else { 2800 }),
        0 <= b <= 2800,
{
    let b = 300 * depth - 300;
    if b < 2800 { b } else { 2800 }
}

/// The ordering score of a move: the transposition-table move first, then captures by
/// most valuable victim and least valuable attacker, promotions, the two killers, and the
/// other quiet moves by their butterfly history.
pub open spec fn move_score(v: PositionView, killers: (Move, Move), history: i32, mv: Move, tt_move: Move) -> int {
    if mv == tt_move {
        2000000
    } else if v.piece_at(mv.to_idx()) is Some {
        let victim = crate::eval::material::SIMPLE_VALUES[v.piece_at(mv.to_idx())->0.piece_type.idx() as int];
        let aggressor = match v.piece_type_at(mv.from_idx(), v.side) {
            Some(pt) => crate::eval::material::SIMPLE_VALUES[pt.idx() as int],
            None => crate::eval::material::SIMPLE_VALUES[0],
        };
        1000000 + victim * 10 - aggressor
    } else if mv.flag_spec() >= 5 {
        900000
    } else if mv == killers.0 {
        800000
    } else if mv == killers.1 {
        700000
    } else {
        history as int
    }
}

/// Scores a move for ordering.
fn score_move(pos: &Position, state: &SearchState, mv: Move, tt_move: Move, ply: usize) -> (s: i32)
    requires
        state.killers.wf(),
        state.butterfly.wf(),
    ensures
        s == move_score(pos@, state.killers@[crate::history::killer::killer_ply(ply as int)],
            state.butterfly@[crate::history::butterfly::butterfly_index(pos.side.idx() as int, mv.from_idx(), mv.to_idx())],
            mv, tt_move),
{
    let ghost h = state.butterfly@[crate::history::butterfly::butterfly_index(pos.side.idx() as int, mv.from_idx(), mv.to_idx())];
    let hist = state.butterfly.get(pos.side.index(), mv.from().index(), mv.to().index());
    if mv == tt_move {
        return 2_000_000;
    }
    match pos.piece_on(mv.to()) {
        Some(cap) => {
            let victim_val = piece_value_simple(cap.piece_type);
            let aggressor_pt = match pos.piece_type_on(mv.from(), pos.side) {
                Some(pt) => pt,
                None => PieceType::Pawn,
            };
            let aggressor_val = piece_value_simple(aggressor_pt);
            return 1_000_000 + victim_val * 10 - aggressor_val;
        },
        None => {},
    }
    if mv.is_promotion() {
        return 900_000;
    }
    let killers = state.killers.get(ply);
    if mv == killers[0] {
        return 800_000;
    }
    if mv == killers[1] {
        return 700_000;
    }
    hist
}

/// The moves of `moves` with their ordering scores, highest first (equal scores in
/// generation order).
fn order_moves(pos: &Position, state: &SearchState, moves: &MoveList, tt_move: Move, ply: usize) -> (scored: Vec<(Move, i32)>)
    requires
        state.killers.wf(),
        state.butterfly.wf(),
    ensures
        scored@.len() == moves@.len(),
        forall|k: int| 0 <= k < scored@.len() ==> moves@.contains(#[trigger] scored@[k].0),
        forall|a: int, b: int| 0 <= a < b < scored@.len() ==> scored@[a].1 >= scored@[b].1,
{
    let mut scored: Vec<(Move, i32)> = Vec::new();
    let mut i: usize = 0;
    while i < moves.moves.len()
        invariant
            0 <= i <= moves@.len(),
            scored@.len() == i,
            state.killers.wf(),
            state.butterfly.wf(),
            forall|k: int| 0 <= k < scored@.len() ==> moves@.contains(#[trigger] scored@[k].0),
            forall|a: int, b: int| 0 <= a < b < scored@.len() ==> scored@[a].1 >= scored@[b].1,
        decreases moves@.len() - i,
    {
        let mv = moves.moves[i];
        let sc = score_move(pos, state, mv, tt_move, ply);
        proof { assert(moves@.contains(moves@[i as int])); }
        insert_by_score(&mut scored, mv, sc);
        i = i + 1;
    }
    scored
}

/// Null move pruning: when passing still beats `beta` by a reduced search, the position
/// is good enough to cut. Gives the (capped) score in that case.
pub fn try_null_move<E: Fn(&Position, &NnueEval) -> i32>(
    pos: &mut Position,
    state: &mut SearchState,
    beta: i32,
    depth: i32,
    ply: usize,
    static_eval: i32,
    lmr: &Vec<[i32; 64]>,
    eval: &E,
) -> (r: Option<i32>)
    requires
        old(pos)@.wf(),
        old(state).search_wf(),
        ply + 1 < MAX_PLY,
        -32000 < beta <= 32000,
        1 <= depth <= 10000 + ply,
        -30100 <= static_eval <= 30100,
        lmr_ok(lmr@),
        eval_ok(eval),
    ensures
        final(pos)@ == old(pos)@,
        final(state).search_wf(),
        final(state).nnue.weights_spec() == old(state).nnue.weights_spec(),
        final(state).nnue.states().len() == old(state).nnue.states().len(),
        old(state).time.is_stopped() ==> final(state).time.is_stopped(),
        final(state).rows_kept(old(state), ply + 1),
        r matches Some(s) ==> s <= 30000 && (s >= beta || s == 30000),
        depth < 3 || static_eval < beta ==> r is None,
        crate::eval::material::side_non_pawn(old(pos)@, old(pos).side) == 0 ==> r is None,
    decreases MAX_PLY - ply, depth, 0int,
{
    if depth < 3 {
        return None;
    }
    if non_pawn_material(pos, pos.side) == 0 {
        return None;
    }
    if static_eval < beta {
        return None;
    }
    let q = (static_eval - beta) / 200;
    let reduction = 3 + depth / 4 + if q < 3 { q } else { 3 };
    let new_depth = if depth - reduction > 1 { depth - reduction } else { 1 };
    let ghost v = pos@;
    proof {
        lemma_null_keeps_wf(v);
        lemma_unmake_null_undoes_null(v);
    }
    let null_state = pos.make_null_move();
    let score = -pvs(pos, state, -beta, -beta + 1, new_depth, ply + 1, false, false, lmr, eval);
    pos.unmake_null_move(null_state);
    if score >= beta {
        Some(if score < 30000 { score } else { 30000 })
    } else {
        None
    }
}

/// Singular extension: when the transposition-table move beats every other move by a
/// margin in a reduced search that leaves it out, it is extended (by two when the margin
/// is wide); when even the reduced bound beats `beta`, -1 tells the caller to prune.
pub fn try_singular_extension<E: Fn(&Position, &NnueEval) -> i32>(
    pos: &mut Position,
    state: &mut SearchState,
    mv: Move,
    alpha: i32,
    beta: i32,
    depth: i32,
    ply: usize,
    lmr: &Vec<[i32; 64]>,
    eval: &E,
) -> (r: Option<i32>)
    requires
        old(pos)@.wf(),
        old(state).search_wf(),
        ply + 1 < MAX_PLY,
        -32000 <= alpha < beta <= 32000,
        8 <= depth <= 10000 + ply,
        lmr_ok(lmr@),
        eval_ok(eval),
    ensures
        final(pos)@ == old(pos)@,
        final(state).search_wf(),
        final(state).nnue.weights_spec() == old(state).nnue.weights_spec(),
        final(state).nnue.states().len() == old(state).nnue.states().len(),
        r matches Some(e) ==> e == -1 || e == 1 || e == 2,
        old(state).time.is_stopped() ==> final(state).time.is_stopped(),
        final(state).rows_kept(old(state), ply as int),
        old(state).row_legal(old(pos)@, ply as int) ==> final(state).row_legal(old(pos)@, ply as int),
        ({
            let n = old(state).tt.slots().len() as int;
            let e = old(state).tt.slots()[crate::tt::table::slot_of(old(pos).hash, n)];
            (e.hash != old(pos).hash || e.bound == Bound::Upper || (e.depth as int) < depth - 3) ==> r is None
        }),
    decreases MAX_PLY - ply, depth, 0int,
{
    let tt_entry = match state.tt.probe(pos.hash) {
        Some(e) => e,
        None => {
            return None;
        },
    };
    proof {
        let n = state.tt.slots().len() as int;
        assert(0 <= crate::tt::table::slot_of(pos.hash, n) < n);
    }
    if tt_entry.bound == Bound::Upper || (tt_entry.depth as i32) < depth - 3 {
        return None;
    }
    let s_beta = if tt_entry.score - depth * 2 > -30000 { tt_entry.score - depth * 2 } else { -30000 };
    let s_depth = (depth - 1) / 2;
    state.excl_move = mv;
    let excl_score = pvs(pos, state, s_beta - 1, s_beta, s_depth, ply, false, false, lmr, eval);
    state.excl_move = Move::null();
    if excl_score < s_beta {
        Some(if excl_score < s_beta - 50 { 2 } else { 1 })
    } else if s_beta >= beta {
        Some(-1)
    } else {
        None
    }
}


/// Principal variation search: the score of the position for the side to move, in
/// centipawns, searched `depth` plies deep within the window (`alpha`, `beta`). Positions
/// the move generator cannot take are scored by their static evaluation.
#[verifier::rlimit(100)]
#[verifier::spinoff_prover]
pub fn pvs<E: Fn(&Position, &NnueEval) -> i32>(
    pos: &mut Position,
    state: &mut SearchState,
    alpha: i32,
    beta: i32,
    depth: i32,
    ply: usize,
    is_pv: bool,
    cut_node: bool,
    lmr: &Vec<[i32; 64]>,
    eval: &E,
) -> (score: i32)
    requires
        old(pos)@.wf(),
        old(state).search_wf(),
        ply < MAX_PLY,
        -32000 <= alpha < beta <= 32000,
        depth <= 10000 + ply,
        lmr_ok(lmr@),
        eval_ok(eval),
    ensures
        final(pos)@ == old(pos)@,
        final(state).search_wf(),
        final(state).nnue.weights_spec() == old(state).nnue.weights_spec(),
        final(state).nnue.states().len() == old(state).nnue.states().len(),
        -32000 <= score <= 32000,
        0 < ply < MAX_PLY - 1 && draw_spec(old(pos)@) ==> score == SCORE_DRAW,
        old(state).time.is_stopped() ==> final(state).time.is_stopped(),
        final(state).rows_kept(old(state), ply as int),
        ply < MAX_PLY - 1 ==> final(state).row_legal(old(pos)@, ply as int),
        !final(state).time.is_stopped() && is_pv && depth > 0 && ply < MAX_PLY - 1
            && !(ply > 0 && draw_spec(old(pos)@)) && searchable_spec(old(pos)@)
            && legal_seq(old(pos)@).len() == 0
            ==> score == (if in_check(old(pos)@, old(pos).side) { SCORE_MATED + ply } else { 0int }),
    decreases MAX_PLY - ply, depth, 1int,
{
    let mut alpha = alpha;
    if ply >= MAX_PLY - 1 {
        return eval(pos, &state.nnue);
    }
    state.pv_length.set(ply, 0);
    if ply > 0 && (pos.is_repetition() || pos.is_fifty_move_draw() || pos.is_insufficient_material()) {
        return SCORE_DRAW;
    }
    if depth <= 0 {
        return quiescence(pos, state, alpha, beta, ply, eval);
    }
    count_node(state);
    if ply > state.seldepth as usize {
        state.seldepth = ply as u32;
    }
    if time_out(state) {
        return alpha;
    }
    if !searchable(pos) {
        return eval(pos, &state.nnue);
    }
    let in_check = is_in_check(pos, pos.side);
    let is_root = ply == 0;

    // Transposition table probe
    let tt_hit = state.tt.probe(pos.hash);
    proof {
        let n = state.tt.slots().len() as int;
        assert(0 <= crate::tt::table::slot_of(pos.hash, n) < n);
    }
    let mut tt_move = Move::null();
    let mut tt_score = SCORE_NONE;
    match tt_hit {
        Some(entry) => {
            tt_move = entry.mv;
            tt_score = entry.score;
            if !is_pv && entry.depth as i32 >= depth {
                match entry.bound {
                    Bound::Exact => { return entry.score; },
                    Bound::Lower => { if entry.score >= beta { return entry.score; } },
                    Bound::Upper => { if entry.score <= alpha { return entry.score; } },
                }
            }
        },
        None => {},
    }

    // Static evaluation
    proof { state.corr_hist.lemma_wf(); }
    let static_eval = if in_check {
        SCORE_NONE
    } else {
        let raw = eval(pos, &state.nnue);
        let corr = state.corr_hist.get(pos.side.index(), pos.hash);
        raw + corr / 128
    };
    state.eval_stack.set(ply, static_eval);
    let improving = !in_check && ply >= 2 && state.eval_stack[ply - 2] != SCORE_NONE
        && static_eval > state.eval_stack[ply - 2];

    // Pruning
    if !in_check && !is_pv {
        let rfp_margin = 120 * depth;
        if depth < 9 && static_eval - rfp_margin >= beta {
            return static_eval;
        }
        match try_null_move(pos, state, beta, depth, ply, static_eval, lmr, eval) {
            Some(score) => { return score; },
            None => {},
        }
        if depth <= 2 && static_eval + 300 * depth < alpha {
            let q = quiescence(pos, state, alpha, beta, ply, eval);
            if q < alpha {
                return q;
            }
        }
    }

    // Move loop
    let ghost v = pos@;
    let ghost w0 = state.nnue.weights_spec();
    let ghost n0 = state.nnue.states().len();
    let moves = legal_moves(pos);
    proof { lemma_legal_ok(v); }
    if moves.moves.len() == 0 {
        return if in_check { SCORE_MATED + ply as i32 } else { SCORE_DRAW };
    }
    let scored = order_moves(pos, state, &moves, tt_move, ply);
    proof {
        assert forall|k: int| 0 <= k < scored@.len() implies v.move_ok(#[trigger] scored@[k].0) by {
            let m = scored@[k].0;
            assert(moves@.contains(m));
            let j = choose|j: int| 0 <= j < moves@.len() && moves@[j] == m;
            assert(v.move_ok(legal_seq(v)[j]));
        }
        assert forall|k: int| 0 <= k < scored@.len() implies legal_seq(v).contains(#[trigger] scored@[k].0) by {
            assert(moves@.contains(scored@[k].0));
        }
    }
    let mut best_score = SCORE_MATED + ply as i32;
    let mut best_move = Move::null();
    let mut moves_searched: usize = 0;
    let mut i: usize = 0;
    while i < scored.len()
        invariant
            pos@ == v,
            v == old(pos)@,
            0 < ply ==> !draw_spec(v),
            state.rows_kept(old(state), ply as int),
            state.row_legal(v, ply as int),
            old(state).time.is_stopped() ==> state.time.is_stopped(),
            forall|k: int| 0 <= k < scored@.len() ==> legal_seq(v).contains(#[trigger] scored@[k].0),
            w0 == old(state).nnue.weights_spec(),
            n0 == old(state).nnue.states().len(),
            v.valid(),
            v.bb(Color::White, PieceType::King) != 0,
            v.bb(Color::Black, PieceType::King) != 0,
            state.search_wf(),
            state.nnue.weights_spec() == w0,
            state.nnue.states().len() == n0,
            ply + 1 < MAX_PLY,
            is_root == (ply == 0),
            1 <= depth <= 10000 + ply,
            -32000 <= alpha < beta <= 32000,
            -32000 <= best_score <= 32000,
            -32001 <= tt_score <= 32000,
            in_check || -30008 <= static_eval <= 30008,
            0 <= moves_searched <= i <= scored@.len(),
            lmr_ok(lmr@),
            eval_ok(eval),
            forall|k: int| 0 <= k < scored@.len() ==> v.move_ok(#[trigger] scored@[k].0),
        decreases scored@.len() - i,
    {
        let mv = scored[i].0;
        i = i + 1;
        if mv == state.excl_move {
            continue;
        }
        proof {
            lemma_unmake_undoes_make(v, mv);
            lemma_make_keeps_wf(v, mv);
        }
        let is_capture = mv.is_capture(pos);
        let st0 = pos.make_move(mv);
        let gives_check = pos.bb(pos.side, PieceType::King) != 0 && is_in_check(pos, pos.side);
        pos.unmake_move(mv, st0);
        assert(pos@ == v);

        // Extensions
        let mut extension: i32 = 0;
        if in_check {
            extension = 1;
        }
        if !is_root && depth >= 8 && mv == tt_move && !is_mate_score(tt_score) {
            match try_singular_extension(pos, state, mv, alpha, beta, depth, ply, lmr, eval) {
                Some(ext) => { extension = ext; },
                None => {},
            }
        }
        let new_depth = depth - 1 + extension;

        // Futility pruning and late move pruning
        if !is_pv && !in_check && !is_capture && !gives_check && moves_searched > 0 {
            let futility_margin = 80 + 60 * new_depth;
            if depth <= 8 && static_eval + futility_margin <= alpha {
                continue;
            }
            let d64 = depth as i64;
            assert(0 <= d64 * d64 <= 1000000000) by (nonlinear_arith)
                requires 1 <= d64 <= 20000;
            let dd = d64 * d64;
            let lmp_threshold: i64 = if improving { 4 + dd } else { 2 + dd / 2 };
            if depth <= 5 && (moves_searched as i64) >= lmp_threshold {
                continue;
            }
        }

        moves_searched = moves_searched + 1;
        let score = search_move(pos, state, mv, alpha, beta, new_depth, depth, ply, is_pv, cut_node,
            is_capture, gives_check, in_check, moves_searched, lmr, eval);

        if time_out(state) {
            return alpha;
        }

        if score > best_score {
            best_score = score;
            best_move = mv;
            if score > alpha {
                if is_pv {
                    state.update_pv(ply, mv);
                }
                if score >= beta {
                    if !is_capture {
                        cutoff_history(pos, state, &scored, mv, moves_searched, depth, ply);
                    }
                    break;
                }
                alpha = score;
            }
        }
    }

    let bound = if best_score >= beta {
        Bound::Lower
    } else if is_pv && best_move != Move::null() {
        Bound::Exact
    } else {
        Bound::Upper
    };
    state.tt.store(pos.hash, best_move, best_score, depth as u8, bound);
    best_score
}

/// Makes `mv`, searches the position after it (a full-window search for the first move,
/// a null-window search, reduced late in the list, for the others, searched again when it
/// beats `alpha`), and unmakes it, keeping the NNUE accumulator in step.
#[verifier::rlimit(60)]
#[verifier::spinoff_prover]
fn search_move<E: Fn(&Position, &NnueEval) -> i32>(
    pos: &mut Position,
    state: &mut SearchState,
    mv: Move,
    alpha: i32,
    beta: i32,
    new_depth: i32,
    depth: i32,
    ply: usize,
    is_pv: bool,
    cut_node: bool,
    is_capture: bool,
    gives_check: bool,
    in_check: bool,
    moves_searched: usize,
    lmr: &Vec<[i32; 64]>,
    eval: &E,
) -> (score: i32)
    requires
        old(pos)@.valid(),
        old(pos)@.move_ok(mv),
        old(pos)@.bb(Color::White, PieceType::King) != 0,
        old(pos)@.bb(Color::Black, PieceType::King) != 0,
        old(state).search_wf(),
        ply + 1 < MAX_PLY,
        -32000 <= alpha < beta <= 32000,
        1 <= depth <= 10000 + ply,
        -1 <= new_depth <= depth + 1,
        moves_searched >= 1,
        lmr_ok(lmr@),
        eval_ok(eval),
    ensures
        final(pos)@ == old(pos)@,
        final(state).search_wf(),
        final(state).nnue.weights_spec() == old(state).nnue.weights_spec(),
        final(state).nnue.states().len() == old(state).nnue.states().len(),
        -32000 <= score <= 32000,
        old(state).time.is_stopped() ==> final(state).time.is_stopped(),
        final(state).rows_kept(old(state), ply + 1),
    decreases MAX_PLY - ply, depth, 0int,
{
    let ghost v = pos@;
    proof {
        lemma_unmake_undoes_make(v, mv);
        lemma_make_keeps_wf(v, mv);
    }
    state.move_stack.set(ply, mv);
    state.nnue.push(pos, mv);
    let unmake = pos.make_move(mv);
    if state.nnue.needs_refresh() && pos.bb(Color::White, PieceType::King) != 0
        && pos.bb(Color::Black, PieceType::King) != 0 {
        state.nnue.refresh(pos);
    }
    let score = if moves_searched == 1 {
        -pvs(pos, state, -beta, -alpha, new_depth, ply + 1, is_pv, false, lmr, eval)
    } else {
        let reduction = if !is_capture && !gives_check && !in_check && moves_searched > 2 {
            lmr_reduction(lmr, depth, if moves_searched < 63 { moves_searched as i32 } else { 63 })
        } else {
            0
        };
        let reduced_depth = if new_depth - reduction > 1 { new_depth - reduction } else { 1 };
        let null_score = -pvs(pos, state, -alpha - 1, -alpha, reduced_depth, ply + 1, false, true, lmr, eval);
        if null_score > alpha && (reduction > 0 || !is_pv) {
            -pvs(pos, state, -alpha - 1, -alpha, new_depth, ply + 1, false, !cut_node, lmr, eval)
        } else if is_pv && null_score > alpha {
            -pvs(pos, state, -beta, -alpha, new_depth, ply + 1, true, false, lmr, eval)
        } else {
            null_score
        }
    };
    pos.unmake_move(mv, unmake);
    state.nnue.pop();
    score
}

/// After a quiet move caused a cutoff: it becomes a killer, its history gets the depth
/// bonus, and each quiet move ordered before the ones searched gets the same malus.
fn cutoff_history(pos: &Position, state: &mut SearchState, scored: &Vec<(Move, i32)>, mv: Move, moves_searched: usize, depth: i32, ply: usize)
    requires
        old(state).search_wf(),
        1 <= depth <= 100000,
        moves_searched >= 1,
    ensures
        final(state).search_wf(),
        final(state).nnue == old(state).nnue,
        final(state).pv == old(state).pv,
        final(state).pv_length == old(state).pv_length,
        final(state).time == old(state).time,
{
    state.killers.store(ply, mv);
    let bonus = history_bonus(depth);
    state.butterfly.update(pos.side.index(), mv.from().index(), mv.to().index(), bonus);
    let n = if moves_searched - 1 < scored.len() { moves_searched - 1 } else { scored.len() };
    let mut j: usize = 0;
    while j < n
        invariant
            0 <= j <= n <= scored@.len(),
            state.search_wf(),
            state.nnue == old(state).nnue,
            state.pv == old(state).pv,
            state.pv_length == old(state).pv_length,
            state.time == old(state).time,
            0 <= bonus <= 2800,
        decreases n - j,
    {
        let other = scored[j].0;
        if !other.is_capture(pos) {
            state.butterfly.update(pos.side.index(), other.from().index(), other.to().index(), -bonus);
        }
        j = j + 1;
    }
}

} // verus!
