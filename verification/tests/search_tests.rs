use specter::board::position::{Move, MoveFlag};
use specter::board::square::Square;
use specter::eval::nnue::NnueEval;
use specter::history::butterfly::ButterflyHistory;
use specter::history::capture::CaptureHistory;
use specter::history::continuation::ContinuationHistory;
use specter::history::correction::CorrectionHistory;
use specter::history::killer::KillerTable;
use specter::search::pvs::SearchState;
use specter::search::timeman::TimeManager;
use specter::search::MAX_PLY;
use specter::tt::table::TranspositionTable;

fn fresh_state() -> SearchState {
    SearchState {
        tt: TranspositionTable::new(1),
        killers: KillerTable::new(),
        butterfly: ButterflyHistory::new(),
        capture_hist: CaptureHistory::new(),
        cont_hist: ContinuationHistory::new(),
        corr_hist: CorrectionHistory::new(),
        nnue: NnueEval::new(),
        time: TimeManager::infinite(),
        nodes: 0,
        seldepth: 0,
        pv: vec![vec![Move::null(); MAX_PLY]; MAX_PLY],
        pv_length: vec![0; MAX_PLY],
        move_stack: vec![Move::null(); MAX_PLY],
        eval_stack: vec![0; MAX_PLY],
        excl_move: Move::null(),
    }
}

fn mv(from: u8, to: u8) -> Move {
    Move::new(Square::from_index(from), Square::from_index(to), MoveFlag::Normal)
}

#[test]
fn update_pv_prepends_the_move_to_the_next_line() {
    let mut s = fresh_state();
    let (e4, e5, nf3) = (mv(12, 28), mv(52, 36), mv(6, 21));
    s.update_pv(2, nf3);
    assert_eq!(s.pv_length[2], 1);
    s.update_pv(1, e5);
    assert_eq!(s.pv_length[1], 2);
    s.update_pv(0, e4);
    assert_eq!(s.pv_length[0], 3);
    assert_eq!(s.get_pv(), vec![e4, e5, nf3]);
}

#[test]
fn get_pv_of_an_empty_root_line_is_empty() {
    let s = fresh_state();
    assert!(s.get_pv().is_empty());
}

#[test]
fn being_mated_reports_a_negative_mate_count() {
    let r = specter::search::iterative_deepening::SearchResult {
        best_move: Move::null(),
        score: -30998,
        depth: 2,
        seldepth: 2,
        nodes: 10,
        time_ms: 0,
        pv: vec![],
        nps: 0,
        hashfull: 0,
    };
    assert_eq!(
        specter::search::iterative_deepening::format_info(&r),
        "info depth 2 seldepth 2 score mate -1 nodes 10 time 0 nps 0 hashfull 0 pv "
    );
}

fn no_reductions() -> Vec<[i32; 64]> {
    vec![[0i32; 64]; 64]
}

fn material(pos: &specter::board::position::Position, _n: &NnueEval) -> i32 {
    specter::eval::material::material_balance(pos).clamp(-30000, 30000)
        * if pos.side == specter::board::color::Color::White { 1 } else { -1 }
}

#[test]
fn search_finds_a_back_rank_mate() {
    let mut pos = specter::board::position::Position::from_fen("6k1/5ppp/8/8/8/8/8/R5K1 w - - 0 1").unwrap();
    let before = pos.to_fen();
    let mut tt = TranspositionTable::new(1);
    let (result, reports) = specter::search::iterative_deepening::search(
        &mut pos, &mut tt, TimeManager::fixed_depth(3), &no_reductions(), &material);
    assert_eq!(result.best_move.to_uci(), "a1a8");
    assert!(specter::eval::is_mate_score(result.score));
    assert_eq!(reports.last().unwrap().depth, result.depth);
    assert_eq!(pos.to_fen(), before);
}

#[test]
fn search_takes_a_free_queen() {
    let mut pos = specter::board::position::Position::from_fen("4k3/8/8/3q4/8/8/8/3RK3 w - - 0 1").unwrap();
    let mut tt = TranspositionTable::new(1);
    let (result, reports) = specter::search::iterative_deepening::search(
        &mut pos, &mut tt, TimeManager::fixed_depth(2), &no_reductions(), &material);
    assert_eq!(result.best_move.to_uci(), "d1d5");
    assert_eq!(reports.len(), 2);
    assert!(result.score > 0);
}

#[test]
fn pvs_scores_stalemate_as_a_draw_and_mate_as_mated() {
    let mut s = fresh_state();
    let mut stale = specter::board::position::Position::from_fen("7k/5Q2/6K1/8/8/8/8/8 b - - 0 1").unwrap();
    let score = specter::search::pvs::pvs(&mut stale, &mut s, -32000, 32000, 2, 0, true, false, &no_reductions(), &material);
    assert_eq!(score, 0);
    let mut mated = specter::board::position::Position::from_fen("7k/6Q1/6K1/8/8/8/8/8 b - - 0 1").unwrap();
    let score = specter::search::pvs::pvs(&mut mated, &mut s, -32000, 32000, 2, 0, true, false, &no_reductions(), &material);
    assert_eq!(score, -31000);
}

#[test]
fn quiescence_resolves_a_capture() {
    let mut s = fresh_state();
    let mut pos = specter::board::position::Position::from_fen("4k3/8/8/3q4/8/8/8/3RK3 w - - 0 1").unwrap();
    let score = specter::search::pvs::quiescence(&mut pos, &mut s, -32000, 32000, 0, &material);
    assert!(score > 0);
}

#[test]
fn lmr_reduction_looks_up_capped_indices() {
    let mut t = vec![[0i32; 64]; 64];
    t[63][5] = 3;
    t[10][63] = 2;
    assert_eq!(specter::search::pvs::lmr_reduction(&t, 100, 5), 3);
    assert_eq!(specter::search::pvs::lmr_reduction(&t, 10, 70), 2);
    assert_eq!(specter::search::pvs::history_bonus(3), 600);
    assert_eq!(specter::search::pvs::history_bonus(20), 2800);
}

#[test]
fn count_pieces_counts_the_start_position() {
    let pos = specter::board::position::Position::startpos();
    assert_eq!(specter::datagen::count_pieces(&pos), 32);
    let k = specter::board::position::Position::from_fen("4k3/8/8/8/8/8/8/4K2R w - - 0 1").unwrap();
    assert_eq!(specter::datagen::count_pieces(&k), 3);
}
