use specter::board::position::Position;
use specter::datagen::{Outcome, Record};

#[test]
fn record_of_a_small_position() {
    let pos = Position::from_fen("4k3/8/8/8/8/8/P7/4K3 w - - 0 1").unwrap();
    let r = Record::from_position(&pos, 150, Outcome::WhiteWin.wdl_white()).unwrap();
    assert_eq!(r.occupancy, (1u64 << 4) | (1u64 << 8) | (1u64 << 60));
    // King e1 (5), pawn a2 (0), black king e8 (5 + 8), lowest square first.
    assert_eq!(r.pieces, 5 + 0 * 16 + 13 * 256);
    assert_eq!(r.score, 150);
    assert_eq!(r.wdl, 2);
    assert_eq!(r.stm, 0);
    let b = r.as_bytes();
    assert_eq!(&b[0..8], &r.occupancy.to_le_bytes());
    assert_eq!(&b[8..16], &[0x05, 0x0D, 0, 0, 0, 0, 0, 0]);
    assert_eq!(&b[16..18], &[150, 0]);
    assert_eq!(b[18], 2);
    assert_eq!(b[19], 0);
    assert!(b[20..].iter().all(|&x| x == 0));
}

#[test]
fn black_to_move_scores_are_turned_to_white() {
    let pos = Position::from_fen("4k3/8/8/8/8/8/P7/4K3 b - - 0 1").unwrap();
    let r = Record::from_position(&pos, 200, Outcome::Draw.wdl_white()).unwrap();
    assert_eq!(r.score, -200);
    assert_eq!(r.stm, 1);
    assert_eq!(r.wdl, 1);
    let b = r.as_bytes();
    assert_eq!(&b[16..18], &(-200i16).to_le_bytes());
    assert_eq!(Outcome::BlackWin.wdl_white(), 0);
}

#[test]
fn extreme_scores_are_rejected() {
    let pos = Position::from_fen("4k3/8/8/8/8/8/P7/4K3 w - - 0 1").unwrap();
    assert!(Record::from_position(&pos, 10001, 1).is_none());
    assert!(Record::from_position(&pos, -10001, 1).is_none());
    assert!(Record::from_position(&pos, 10000, 1).is_some());
}
