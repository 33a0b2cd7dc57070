use specter::board::color::Color;
use specter::board::position::{Move, MoveFlag, Position};
use specter::board::square::Square;
use specter::movegen::legal::{
    checker_count, is_checkmate, is_in_check, is_legal, is_stalemate, legal_captures, legal_moves,
};

fn has_move(pos: &mut Position, from: u8, to: u8) -> bool {
    let list = legal_moves(pos);
    list.moves.iter().any(|m| m.from().index() == from as usize && m.to().index() == to as usize)
}

#[test]
fn startpos_has_twenty_moves_and_no_captures() {
    let mut pos = Position::startpos();
    assert_eq!(legal_moves(&mut pos).moves.len(), 20);
    assert_eq!(legal_captures(&mut pos).moves.len(), 0);
    assert!(!is_in_check(&pos, Color::White));
}

#[test]
fn castling_allowed_with_a_free_path() {
    let mut pos = Position::from_fen("r3k2r/8/8/8/8/8/8/R3K2R w KQkq - 0 1").unwrap();
    assert!(has_move(&mut pos, 4, 6));
    assert!(has_move(&mut pos, 4, 2));
}

#[test]
fn no_castling_through_an_attacked_square() {
    // The rook on f8 attacks f1, which the king would cross castling short.
    let mut pos = Position::from_fen("4kr2/8/8/8/8/8/8/R3K2R w KQ - 0 1").unwrap();
    assert!(!has_move(&mut pos, 4, 6));
    assert!(has_move(&mut pos, 4, 2));
    let mut pos2 = Position::from_fen("4kr2/8/8/8/8/8/8/R3K2R w KQ - 0 1").unwrap();
    let short = Move::new(Square::E1, Square::G1, MoveFlag::CastleKing);
    assert!(!is_legal(&mut pos2, short));
}

#[test]
fn no_castling_out_of_check() {
    let mut pos = Position::from_fen("4k3/8/8/8/8/8/4r3/R3K2R w KQ - 0 1").unwrap();
    assert!(is_in_check(&pos, Color::White));
    assert!(!has_move(&mut pos, 4, 6));
    assert!(!has_move(&mut pos, 4, 2));
}

#[test]
fn fools_mate_is_checkmate() {
    let mut pos = Position::from_fen("rnb1kbnr/pppp1ppp/8/4p3/6Pq/5P2/PPPPP2P/RNBQKBNR w KQkq - 1 3").unwrap();
    assert!(is_checkmate(&mut pos));
    assert!(!is_stalemate(&mut pos));
    assert_eq!(checker_count(&pos), 1);
}

#[test]
fn cornered_king_is_stalemate() {
    let mut pos = Position::from_fen("7k/5Q2/6K1/8/8/8/8/8 b - - 0 1").unwrap();
    assert!(is_stalemate(&mut pos));
    assert!(!is_checkmate(&mut pos));
    assert_eq!(checker_count(&pos), 0);
}

#[test]
fn unmake_restores_the_position() {
    let mut pos = Position::from_fen("r3k2r/p1ppqpb1/bn2pnp1/3PN3/1p2P3/2N2Q1p/PPPBBPPP/R3K2R w KQkq - 0 1").unwrap();
    let before = pos.to_fen();
    let hash = pos.hash;
    let list = legal_moves(&mut pos);
    assert_eq!(list.moves.len(), 48);
    for mv in list.moves.iter() {
        let st = pos.make_move(*mv);
        assert_ne!(pos.hash, hash);
        pos.unmake_move(*mv, st);
        assert_eq!(pos.to_fen(), before);
        assert_eq!(pos.hash, hash);
    }
}

#[test]
fn en_passant_capture_is_generated() {
    let mut pos = Position::from_fen("4k3/8/8/3pP3/8/8/8/4K3 w - d6 0 2").unwrap();
    let list = legal_moves(&mut pos);
    assert!(list.moves.iter().any(|m| m.from().index() == 36 && m.to().index() == 43 && m.flag() == 4));
}

#[test]
fn is_valid_accepts_startpos_and_rejects_missing_king() {
    assert!(Position::startpos().is_valid());
    let pos = Position::from_fen("8/8/8/8/8/8/8/4K3 b - - 0 1").unwrap();
    assert!(!pos.is_valid());
}

#[test]
fn every_legal_move_leaves_a_consistent_board() {
    for fen in [
        "r3k2r/p1ppqpb1/bn2pnp1/3PN3/1p2P3/2N2Q1p/PPPBBPPP/R3K2R w KQkq - 0 1",
        "4k3/1P6/8/3pP3/8/8/8/R3K2R w KQ d6 0 2",
    ] {
        let mut pos = Position::from_fen(fen).unwrap();
        let list = legal_moves(&mut pos);
        for mv in list.moves.iter() {
            let st = pos.make_move(*mv);
            let occ = pos.color_bb(Color::White) | pos.color_bb(Color::Black);
            assert_eq!(pos.occupancy, occ);
            assert_eq!(pos.color_bb(Color::White) & pos.color_bb(Color::Black), 0);
            pos.unmake_move(*mv, st);
        }
    }
}

#[test]
fn checker_count_counts_each_checking_piece() {
    let pos = Position::from_fen("4r2k/8/8/8/8/8/8/3rK3 w - - 0 1").unwrap();
    assert_eq!(checker_count(&pos), 2);
}

#[test]
fn a_capture_resets_the_halfmove_clock() {
    let mut pos = Position::from_fen("r3k2r/8/8/8/8/8/8/R3K2R w KQkq - 0 1").unwrap();
    let st = pos.make_move(Move::new(Square::H1, Square::H8, MoveFlag::Normal));
    assert_eq!(pos.to_fen(), "r3k2R/8/8/8/8/8/8/R3K3 b Qq - 0 1");
    assert_eq!(st.captured, Some(specter::board::piece::PieceType::Rook));
}

#[test]
fn threefold_repetition_is_detected() {
    let mut pos = Position::startpos();
    let shuffle = ["g1f3", "g8f6", "f3g1", "f6g8", "g1f3", "g8f6", "f3g1", "f6g8"];
    for (i, s) in shuffle.iter().enumerate() {
        let mv = specter::uci::parser::parse_move(&pos, s).unwrap();
        pos.make_move(mv);
        assert_eq!(pos.is_repetition(), i == 7);
    }
}

#[test]
fn move_fields_follow_the_documented_layout() {
    let m = Move::new(Square::E2, Square::E4, MoveFlag::DoublePush);
    assert_eq!(m.0 & 0x3F, 12);
    assert_eq!((m.0 >> 6) & 0x3F, 28);
    assert_eq!((m.0 >> 15) & 0xF, 1);
    let q = Move::new(Square::A7, Square::A8, MoveFlag::PromoteQueen);
    assert_eq!((q.0 >> 12) & 0x7, 4);
    assert_eq!((q.0 >> 15) & 0xF, 8);
    assert_eq!(q.flag(), 8);
}

#[test]
fn distance_is_manhattan() {
    assert_eq!(Square::A1.distance(Square::H8), 14);
    assert_eq!(Square::E4.distance(Square::E4), 0);
    assert_eq!(Square::B1.distance(Square::C3), 3);
}

#[test]
fn captures_include_quiet_promotions() {
    let mut pos = Position::from_fen("8/P7/8/8/8/8/8/k6K w - - 0 1").unwrap();
    let gen = specter::movegen::pseudo_legal::generate_captures(&pos);
    assert!(gen.as_slice().contains(&Move::new(Square::A7, Square::A8, MoveFlag::PromoteQueen)));
    let legal = legal_captures(&mut pos);
    assert_eq!(legal.moves.len(), 4);
}

#[test]
fn square_names_parse_back() {
    for i in 0..64u8 {
        let sq = Square::from_index(i);
        let name = format!("{}{}", sq.file_char(), sq.rank_char());
        assert_eq!(Square::from_str(&name).map(|s| s.index()), Some(i as usize));
    }
}
