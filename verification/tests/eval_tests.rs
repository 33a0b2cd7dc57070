use specter::board::color::Color;
use specter::board::piece::PieceType;
use specter::board::position::Position;
use specter::eval::{
    eg, evaluate, evaluate_hce, evaluate_with_nnue, game_phase, is_mate_score, make_score, mate_in, mg, taper,
};
use specter::eval::material::{evaluate_material, material_balance, non_pawn_material, piece_value_simple};
use specter::eval::nnue::NnueEval;
use specter::eval::nnue::weights::{feature_index, NetworkWeights};
use specter::eval::pawn_structure::evaluate_pawns;

#[test]
fn packed_scores_unpack() {
    for &(m, e) in &[(0, 0), (5, 10), (-15, -20), (110, 170), (-12, 30), (300, -400)] {
        let s = make_score(m, e);
        assert_eq!(mg(s), m);
        assert_eq!(eg(s), e);
    }
    assert_eq!(make_score(110, 170), 11141230);
}

#[test]
fn taper_blends_by_phase() {
    let s = make_score(100, 40);
    assert_eq!(taper(s, 24), 100);
    assert_eq!(taper(s, 0), 40);
    assert_eq!(taper(s, 12), 70);
}

#[test]
fn startpos_phase_and_material() {
    let pos = Position::startpos();
    assert_eq!(game_phase(&pos), 24);
    assert_eq!(evaluate_material(&pos), 0);
    assert_eq!(material_balance(&pos), 0);
    assert_eq!(non_pawn_material(&pos, Color::White), non_pawn_material(&pos, Color::Black));
    assert_eq!(piece_value_simple(PieceType::Queen), 900);
}

#[test]
fn mate_scores() {
    assert!(is_mate_score(30999));
    assert!(is_mate_score(-30990));
    assert!(!is_mate_score(500));
    assert_eq!(mate_in(30999), 1);
    assert_eq!(mate_in(30997), 2);
}

#[test]
fn lone_pawn_is_passed_and_isolated() {
    let pos = Position::from_fen("4k3/8/8/8/8/8/P7/4K3 w - - 0 1").unwrap();
    assert_eq!(evaluate_pawns(&pos), 655365 - 1310735);
}

#[test]
fn backward_connected_and_passed_pawns() {
    // d3 is backward (no friendly pawn beside or behind, c5 guards d4), e4 is passed and
    // defended by d3, c5 is isolated.
    let pos = Position::from_fen("4k3/8/8/2p5/4P3/3P4/8/4K3 w - - 0 1").unwrap();
    assert_eq!(evaluate_pawns(&pos), 3801118);
}

#[test]
fn symmetric_start_scores_the_tempo() {
    let pos = Position::startpos();
    assert_eq!(evaluate_hce(&pos, 0), 15);
    assert_eq!(evaluate(&pos, 0), 15);
    let black = Position::from_fen("rnbqkbnr/pppppppp/8/8/8/8/PPPPPPPP/RNBQKBNR b KQkq - 0 1").unwrap();
    assert_eq!(evaluate_hce(&black, 0), 15);
}

#[test]
fn without_a_network_nnue_falls_back() {
    let pos = Position::startpos();
    let mut nnue = NnueEval::new();
    assert!(!nnue.is_active());
    assert!(nnue.evaluate(&pos).is_none());
    nnue.refresh(&pos);
    assert!(!nnue.needs_refresh());
    assert_eq!(evaluate_with_nnue(&pos, &nnue, 0), evaluate_hce(&pos, 0));
    assert!(NetworkWeights::load().is_none());
}

#[test]
fn network_files_must_have_the_exact_size() {
    assert!(NetworkWeights::from_bytes(&[0u8; 10]).is_none());
}

#[test]
fn feature_indices_mirror_by_perspective() {
    // White king e1 (bucket 0, files e-h unmirrored): white pawn e2.
    assert_eq!(feature_index(4, 0, 0, 12, 0), 12);
    // Same piece from Black's perspective with the black king on e8 (bucket 3).
    assert_eq!(feature_index(60, 0, 0, 12, 1), 3 * 768 + 384 + (12 ^ 56));
    // King on the queen side mirrors the files.
    assert_eq!(feature_index(2, 1, 3, 0, 0), 384 + 3 * 64 + 7);
}

#[test]
fn a_hanging_knight_counts_against_its_owner() {
    let pos = Position::from_fen("4k3/8/8/7n/8/8/8/4K2R w - - 0 1").unwrap();
    assert_eq!(specter::eval::threats::evaluate_threats(&pos), make_score(69, 50));
}
