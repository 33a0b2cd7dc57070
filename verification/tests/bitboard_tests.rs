use specter::board::bitboard::{
    popcount, lsb, msb, knight_attacks, king_attacks, white_pawn_attacks, black_pawn_attacks, north_east, north_west, RANK_1, RANK_2,
    RANK_3, FILE_A,
};

#[test]
fn test_popcount() {
    assert_eq!(popcount(0), 0);
    assert_eq!(popcount(u64::MAX), 64);
    assert_eq!(popcount(RANK_1), 8);
    assert_eq!(popcount(FILE_A), 8);
}

#[test]
fn test_lsb_msb() {
    assert_eq!(lsb(1), 0);
    assert_eq!(lsb(8), 3);
    assert_eq!(msb(8), 3);
    assert_eq!(msb(u64::MAX), 63);
}

#[test]
fn test_knight_attacks() {
    let sq_bb = 1u64 << 28;
    let attacks = knight_attacks(sq_bb);
    assert_eq!(popcount(attacks), 8);
}

#[test]
fn test_king_attacks() {
    let sq_bb = 1u64 << 28;
    let attacks = king_attacks(sq_bb);
    assert_eq!(popcount(attacks), 8);
}

// White pawns on every square of rank 2 make 14 captures (two for each of the six
// inner files, one for each edge file), but those captures land on only the eight
// squares of rank 3, and an attack set is a set of squares: its count is 8, never 14.
#[test]
fn test_pawn_attacks() {
    let attacks = white_pawn_attacks(RANK_2);
    assert_eq!(attacks, RANK_3);
    assert_eq!(popcount(attacks), 8);
    assert_eq!(popcount(north_east(RANK_2)) + popcount(north_west(RANK_2)), 14);
}

#[test]
fn black_pawn_attacks_stay_on_the_board() {
    assert_eq!(black_pawn_attacks(1u64 << 48), 1u64 << 41);
    assert_eq!(black_pawn_attacks(1u64 << 55), 1u64 << 46);
    assert_eq!(black_pawn_attacks(1u64 << 3), 0);
}
