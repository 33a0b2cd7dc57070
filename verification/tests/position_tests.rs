use specter::board::bitboard::popcount;
use specter::board::color::Color;
use specter::board::piece::PieceType;
use specter::board::position::{Position, STARTPOS_FEN};

#[test]
fn test_startpos_fen() {
    let pos = Position::startpos();
    assert_eq!(pos.to_fen(), STARTPOS_FEN);
}

#[test]
fn test_fen_roundtrip() {
    let fens = [
        STARTPOS_FEN,
        "r3k2r/p1ppqpb1/bn2pnp1/3PN3/1p2P3/2N2Q1p/PPPBBPPP/R3K2R w KQkq - 0 1",
        "8/2p5/3p4/KP5r/1R3p1k/8/4P1P1/8 w - - 0 1",
    ];
    for fen in &fens {
        let pos = Position::from_fen(fen).unwrap();
        assert_eq!(&pos.to_fen(), fen, "FEN roundtrip failed for: {}", fen);
    }
}

#[test]
fn test_piece_count_startpos() {
    let pos = Position::startpos();
    assert_eq!(popcount(pos.bb(Color::White, PieceType::Pawn)), 8);
    assert_eq!(popcount(pos.bb(Color::Black, PieceType::Pawn)), 8);
    assert_eq!(popcount(pos.occupancy), 32);
}

#[test]
fn unmake_null_move_restores_the_position() {
    let mut pos = Position::from_fen("4k3/8/8/3pP3/8/8/8/4K3 w - d6 0 2").unwrap();
    let before = pos.to_fen();
    let hash = pos.hash;
    let st = pos.make_null_move();
    assert_ne!(pos.to_fen(), before);
    assert_ne!(pos.hash, hash);
    pos.unmake_null_move(st);
    assert_eq!(pos.to_fen(), before);
    assert_eq!(pos.hash, hash);
}
