//! Iterative deepening with aspiration windows, search results and their report in the
//! UCI `info` line.
use vstd::prelude::*;
use crate::board::fen::uci_text;
use crate::board::position::{Move, Position};
use crate::eval::{SCORE_INFINITE};
use crate::eval::nnue::NnueEval;
use crate::history::butterfly::ButterflyHistory;
use crate::history::capture::CaptureHistory;
use crate::history::continuation::ContinuationHistory;
use crate::history::correction::CorrectionHistory;
use crate::history::killer::KillerTable;
use crate::search::MAX_PLY;
use crate::search::pvs::{SearchState, pvs, lmr_ok, eval_ok};
use crate::movegen::legal::legal_seq;
use crate::search::timeman::TimeManager;
use crate::tt::table::TranspositionTable;
use crate::eval::{abs_spec, is_mate_score, mate_in, quot};
use crate::text::{chars_of, string_of, push_decimal, push_decimal_u64, push_signed, decimal, signed_decimal};

verus! {

/// The result of a completed search.
#[derive(Debug, Clone)]
pub struct SearchResult {
    pub best_move: Move,
    pub score: i32,
    pub depth: u32,
    pub seldepth: u32,
    pub nodes: u64,
    pub time_ms: u64,
    pub pv: Vec<Move>,
    pub nps: u64,
    pub hashfull: u32,
}

/// The moves' UCI texts joined with single spaces.
pub open spec fn pv_text(pv: Seq<Move>) -> Seq<char>
    decreases pv.len(),
{
    if pv.len() == 0 {
        Seq::empty()
    } else if pv.len() == 1 {
        uci_text(pv[0])
    } else {
        pv_text(pv.drop_last()) + seq![' '] + uci_text(pv.last())
    }
}

/// The moves to mate of a mate score, negative when the side to move is being mated.
pub open spec fn mate_count(score: i32) -> int {
    let m = quot(31000 - abs_spec(score as int) + 1, 2);
    if score < 0 { -m } else { m }
}

/// The score as UCI reports it: `mate` and the moves to mate within 200 of a mate score
/// (negative when being mated), else `cp` and the centipawns.
pub open spec fn score_text(score: i32) -> Seq<char> {
    if abs_spec(score as int) >= 30800 {
        "mate "@ + signed_decimal(mate_count(score))
    } else {
        "cp "@ + signed_decimal(score as int)
    }
}

/// The UCI `info` line of a search result.
pub open spec fn info_text(r: SearchResult) -> Seq<char> {
    "info depth "@ + decimal(r.depth as nat) + " seldepth "@ + decimal(r.seldepth as nat) + " score "@
        + score_text(r.score) + " nodes "@ + decimal(r.nodes as nat) + " time "@ + decimal(r.time_ms as nat)
        + " nps "@ + decimal(r.nps as nat) + " hashfull "@ + decimal(r.hashfull as nat) + " pv "@
        + pv_text(r.pv@)
}

/// Appends the characters of `s`.
fn push_str(out: &mut Vec<char>, s: &str)
    ensures
        final(out)@ == old(out)@ + s@,
{
    let cs = chars_of(s);
    let mut i: usize = 0;
    while i < cs.len()
        invariant
            cs@ == s@,
            0 <= i <= cs@.len(),
            out@ == old(out)@ + cs@.take(i as int),
        decreases cs@.len() - i,
    {
        out.push(cs[i]);
        i = i + 1;
        assert(out@ =~= old(out)@ + cs@.take(i as int));
    }
    assert(cs@.take(cs@.len() as int) =~= cs@);
}

/// Formats a search result as a UCI `info` line.
pub fn format_info(r: &SearchResult) -> (s: String)
    requires
        r.score != i32::MIN,
    ensures
        s@ == info_text(*r),
{
    let mut out: Vec<char> = Vec::new();
    push_str(&mut out, "info depth ");
    push_decimal(&mut out, r.depth);
    push_str(&mut out, " seldepth ");
    push_decimal(&mut out, r.seldepth);
    push_str(&mut out, " score ");
    let ghost before_score = out@;
    if is_mate_score(r.score) {
        push_str(&mut out, "mate ");
        let m = mate_in(r.score);
        push_signed(&mut out, if r.score < 0 { -m } else { m });
    } else {
        push_str(&mut out, "cp ");
        push_signed(&mut out, r.score);
    }
    assert(out@ =~= before_score + score_text(r.score));
    push_str(&mut out, " nodes ");
    push_decimal_u64(&mut out, r.nodes);
    push_str(&mut out, " time ");
    push_decimal_u64(&mut out, r.time_ms);
    push_str(&mut out, " nps ");
    push_decimal_u64(&mut out, r.nps);
    push_str(&mut out, " hashfull ");
    push_decimal(&mut out, r.hashfull);
    push_str(&mut out, " pv ");
    let ghost before_pv = out@;
    let mut i: usize = 0;
    while i < r.pv.len()
        invariant
            0 <= i <= r.pv@.len(),
            out@ == before_pv + pv_text(r.pv@.take(i as int)),
        decreases r.pv@.len() - i,
    {
        let ghost prev = out@;
        if i > 0 {
            out.push(' ');
        }
        let text = r.pv[i].to_uci();
        let tc = chars_of(text.as_str());
        let mut k: usize = 0;
        let ghost mid = out@;
        while k < tc.len()
            invariant
                0 <= k <= tc@.len(),
                out@ == mid + tc@.take(k as int),
            decreases tc@.len() - k,
        {
            out.push(tc[k]);
            k = k + 1;
            assert(out@ =~= mid + tc@.take(k as int));
        }
        assert(tc@.take(tc@.len() as int) =~= tc@);
        proof {
            let t = r.pv@.take(i as int + 1);
            assert(t.drop_last() =~= r.pv@.take(i as int));
            assert(t.last() == r.pv@[i as int]);
            if i == 0 {
                assert(t =~= seq![r.pv@[0]]);
            }
        }
        i = i + 1;
        assert(out@ =~= before_pv + pv_text(r.pv@.take(i as int)));
    }
    assert(r.pv@.take(r.pv@.len() as int) =~= r.pv@);
    string_of(&out)
}


/// A copy of a move list.
fn copy_moves(v: &Vec<Move>) -> (c: Vec<Move>)
    ensures
        c@ == v@,
{
    let mut c: Vec<Move> = Vec::new();
    let mut i: usize = 0;
    while i < v.len()
        invariant
            0 <= i <= v@.len(),
            c@ == v@.take(i as int),
        decreases v@.len() - i,
    {
        c.push(v[i]);
        i = i + 1;
        assert(c@ =~= v@.take(i as int));
    }
    assert(v@.take(v@.len() as int) =~= v@);
    c
}

/// A fresh search state around the table `tt` and the time manager `time`.
fn new_state(tt: TranspositionTable, time: TimeManager) -> (state: SearchState)
    requires
        tt.wf(),
        tt.slots().len() > 0,
        forall|i: int| 0 <= i < tt.slots().len() ==> -32000 <= #[trigger] tt.slots()[i].score <= 32000,
    ensures
        state.search_wf(),
        state.time == time,
        state.tt == tt,
        state.nodes == 0,
{
    let mut pv: Vec<Vec<Move>> = Vec::new();
    let mut p: usize = 0;
    while p < MAX_PLY
        invariant
            0 <= p <= MAX_PLY,
            pv@.len() == p,
            forall|q: int| 0 <= q < p ==> (#[trigger] pv@[q])@.len() == MAX_PLY,
        decreases MAX_PLY - p,
    {
        let mut row: Vec<Move> = Vec::new();
        let mut k: usize = 0;
        while k < MAX_PLY
            invariant
                0 <= k <= MAX_PLY,
                row@.len() == k,
            decreases MAX_PLY - k,
        {
            row.push(Move::null());
            k = k + 1;
        }
        pv.push(row);
        p = p + 1;
    }
    let mut pv_length: Vec<usize> = Vec::new();
    let mut move_stack: Vec<Move> = Vec::new();
    let mut eval_stack: Vec<i32> = Vec::new();
    let mut q: usize = 0;
    while q < MAX_PLY
        invariant
            0 <= q <= MAX_PLY,
            pv_length@.len() == q,
            move_stack@.len() == q,
            eval_stack@.len() == q,
            forall|j: int| 0 <= j < q ==> #[trigger] pv_length@[j] == 0,
        decreases MAX_PLY - q,
    {
        pv_length.push(0);
        move_stack.push(Move::null());
        eval_stack.push(0);
        q = q + 1;
    }
    SearchState {
        tt,
        killers: KillerTable::new(),
        butterfly: ButterflyHistory::new(),
        capture_hist: CaptureHistory::new(),
        cont_hist: ContinuationHistory::new(),
        corr_hist: CorrectionHistory::new(),
        nnue: NnueEval::new(),
        time,
        nodes: 0,
        seldepth: 0,
        pv,
        pv_length,
        move_stack,
        eval_stack,
        excl_move: Move::null(),
    }
}

/// Searches one depth with an aspiration window around `best_score` from depth 4 on,
/// widening the side that fails by `delta`, which doubles with each failure. A failure on
/// a side already at the score limit cannot widen, so its score stands.
fn aspiration<E: Fn(&Position, &NnueEval) -> i32>(
    pos: &mut Position,
    state: &mut SearchState,
    depth: u32,
    best_score: i32,
    delta: i32,
    lmr: &Vec<[i32; 64]>,
    eval: &E,
) -> (r: (i32, i32))
    requires
        old(pos)@.wf(),
        old(state).search_wf(),
        1 <= depth <= 10000,
        -32000 <= best_score <= 32000,
        25 <= delta <= 64000,
        lmr_ok(lmr@),
        eval_ok(eval),
    ensures
        final(pos)@ == old(pos)@,
        final(state).search_wf(),
        -32000 <= r.0 <= 32000,
        25 <= r.1 <= 64000,
        final(state).row_legal(old(pos)@, 0),
{
    let mut asp_delta = delta;
    let mut alpha: i32 = -SCORE_INFINITE;
    let mut beta: i32 = SCORE_INFINITE;
    if depth >= 4 {
        alpha = if best_score - asp_delta > -SCORE_INFINITE { best_score - asp_delta } else { -SCORE_INFINITE };
        beta = if best_score + asp_delta < SCORE_INFINITE { best_score + asp_delta } else { SCORE_INFINITE };
    }
    let ghost v = pos@;
    loop
        invariant
            pos@ == v,
            v == old(pos)@,
            v.wf(),
            state.search_wf(),
            1 <= depth <= 10000,
            -32000 <= alpha < beta <= 32000,
            25 <= asp_delta <= 64000,
            lmr_ok(lmr@),
            eval_ok(eval),
        decreases (alpha as int + 32000) + (32000 - beta as int),
    {
        let s = pvs(pos, state, alpha, beta, depth as i32, 0, true, false, lmr, eval);
        if state.time.is_hard_expired() {
            return (s, asp_delta);
        }
        if s <= alpha {
            if alpha == -SCORE_INFINITE {
                return (s, asp_delta);
            }
            alpha = if s - asp_delta > -SCORE_INFINITE { s - asp_delta } else { -SCORE_INFINITE };
            asp_delta = if asp_delta < 32000 { asp_delta * 2 } else { 64000 };
        } else if s >= beta {
            if beta == SCORE_INFINITE {
                return (s, asp_delta);
            }
            beta = if s + asp_delta < SCORE_INFINITE { s + asp_delta } else { SCORE_INFINITE };
            asp_delta = if asp_delta < 32000 { asp_delta * 2 } else { 64000 };
        } else {
            return (s, 25);
        }
    }
}

/// Iterative deepening: searches depth 1, 2, ... until the depth limit, the time or a mate
/// score ends it, and gives the result of the last completed depth with the result of
/// each completed depth in turn (for the caller to report).
pub fn search<E: Fn(&Position, &NnueEval) -> i32>(
    pos: &mut Position,
    tt: &mut TranspositionTable,
    time: TimeManager,
    lmr: &Vec<[i32; 64]>,
    eval: &E,
) -> (r: (SearchResult, Vec<SearchResult>))
    requires
        old(pos)@.wf(),
        old(tt).wf(),
        old(tt).slots().len() > 0,
        forall|i: int| 0 <= i < old(tt).slots().len() ==> -32000 <= #[trigger] old(tt).slots()[i].score <= 32000,
        lmr_ok(lmr@),
        eval_ok(eval),
    ensures
        final(pos)@ == old(pos)@,
        final(tt).wf(),
        final(tt).slots().len() > 0,
        forall|i: int| 0 <= i < final(tt).slots().len() ==> -32000 <= #[trigger] final(tt).slots()[i].score <= 32000,
        time.max_depth > 0 ==> r.0.depth <= time.max_depth,
        -32000 <= r.0.score <= 32000,
        forall|k: int| 0 <= k < r.1@.len() ==> (#[trigger] r.1@[k]).depth == k + 1,
        forall|k: int| 0 <= k < r.1@.len() - 1 ==> abs_spec((#[trigger] r.1@[k]).score as int) < 30800,
        r.1@.len() > 0 ==> r.0.depth == r.1@.last().depth && r.0.score == r.1@.last().score
            && r.0.pv@ == r.1@.last().pv@ && r.0.best_move == r.1@.last().best_move,
        r.1@.len() == 0 ==> r.0.depth == 0 && r.0.pv@.len() == 0,
        r.0.best_move == Move(0) || legal_seq(old(pos)@).contains(r.0.best_move),
        forall|k: int| 0 <= k < r.1@.len() ==> (#[trigger] r.1@[k]).best_move == Move(0)
            || legal_seq(old(pos)@).contains(r.1@[k].best_move),
{
    tt.new_search();
    let mut table = TranspositionTable::new(0);
    std::mem::swap(&mut table, tt);
    let mut state = new_state(table, time);
    let max_depth: u32 = if state.time.max_depth > 0 { state.time.max_depth } else { 100 };
    let mut best_move = Move::null();
    let mut best_score: i32 = -SCORE_INFINITE;
    let mut result = SearchResult {
        best_move: Move::null(),
        score: 0,
        depth: 0,
        seldepth: 0,
        nodes: 0,
        time_ms: 0,
        pv: Vec::new(),
        nps: 0,
        hashfull: 0,
    };
    let mut reports: Vec<SearchResult> = Vec::new();
    let mut asp_delta: i32 = 25;
    let ghost v = pos@;
    let mut depth: u32 = 1;
    while depth <= max_depth && depth <= 10000
        invariant_except_break
            forall|k: int| 0 <= k < reports@.len() ==> abs_spec((#[trigger] reports@[k]).score as int) < 30800,
        invariant
            pos@ == v,
            v == old(pos)@,
            v.wf(),
            state.search_wf(),
            max_depth == (if time.max_depth > 0 { time.max_depth } else { 100 }),
            1 <= depth,
            -32000 <= best_score <= 32000,
            25 <= asp_delta <= 64000,
            lmr_ok(lmr@),
            eval_ok(eval),
            reports@.len() == depth - 1,
            forall|k: int| 0 <= k < reports@.len() ==> (#[trigger] reports@[k]).depth == k + 1,
            reports@.len() > 0 ==> result.depth == reports@.last().depth && result.score == reports@.last().score
                && result.pv@ == reports@.last().pv@ && result.best_move == reports@.last().best_move,
            reports@.len() == 0 ==> result.depth == 0 && result.pv@.len() == 0,
            result.depth <= max_depth,
            -32000 <= result.score <= 32000,
            best_move == Move(0) || legal_seq(v).contains(best_move),
            result.best_move == Move(0) || legal_seq(v).contains(result.best_move),
            forall|k: int| 0 <= k < reports@.len() ==> (#[trigger] reports@[k]).best_move == Move(0)
                || legal_seq(v).contains(reports@[k].best_move),
        ensures
            forall|k: int| 0 <= k < reports@.len() - 1 ==> abs_spec((#[trigger] reports@[k]).score as int) < 30800,
        decreases 10001 - depth,
    {
        if state.time.depth_limit_reached(depth) {
            break;
        }
        if depth > 1 && state.time.is_soft_expired() {
            break;
        }
        state.seldepth = 0;
        let (score, d) = aspiration(pos, &mut state, depth, best_score, asp_delta, lmr, eval);
        asp_delta = d;
        if state.time.is_hard_expired() {
            break;
        }
        best_score = score;
        let pv = state.get_pv();
        if pv.len() > 0 {
            best_move = pv[0];
            assert(pv@[0] == state.pv@[0]@[0]);
        }
        let elapsed_ms = state.time.elapsed_ms();
        let nps = if elapsed_ms > 0 { state.nodes.wrapping_mul(1000) / elapsed_ms } else { 0 };
        let hashfull = state.tt.hashfull();
        let pv_copy = copy_moves(&pv);
        result = SearchResult {
            best_move,
            score: best_score,
            depth,
            seldepth: state.seldepth,
            nodes: state.nodes,
            time_ms: elapsed_ms,
            pv,
            nps,
            hashfull,
        };
        let done = is_mate_score(best_score);
        reports.push(SearchResult {
            best_move,
            score: best_score,
            depth,
            seldepth: state.seldepth,
            nodes: state.nodes,
            time_ms: elapsed_ms,
            pv: pv_copy,
            nps,
            hashfull,
        });
        depth = depth + 1;
        if done {
            break;
        }
    }
    std::mem::swap(tt, &mut state.tt);
    (result, reports)
}

} // verus!
