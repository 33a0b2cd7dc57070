use specter::board::bitboard::popcount;
use specter::movegen::attacks::{
    init_all, rook_attacks, bishop_attacks, queen_attacks, knight_attacks_sq,
};

#[test]
fn test_rook_attacks_empty_board() {
    init_all();
    assert_eq!(popcount(rook_attacks(28, 0)), 14);
}

#[test]
fn test_bishop_attacks_empty_board() {
    init_all();
    assert_eq!(popcount(bishop_attacks(28, 0)), 13);
}

#[test]
fn test_queen_attacks_empty_board() {
    init_all();
    assert_eq!(popcount(queen_attacks(28, 0)), 27);
}

#[test]
fn test_knight_attacks_center() {
    init_all();
    assert_eq!(popcount(knight_attacks_sq(28)), 8);
}
