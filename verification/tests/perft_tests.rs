use specter::board::position::Position;
use specter::movegen::attacks::init_all;
use specter::movegen::perft::perft;

fn setup() {
    init_all();
}

const KIWIPETE: &str = "r3k2r/p1ppqpb1/bn2pnp1/3PN3/1p2P3/2N2Q1p/PPPBBPPP/R3K2R w KQkq - 0 1";

#[test]
fn perft_startpos_depth1() {
    setup();
    let mut pos = Position::startpos();
    assert_eq!(perft(&mut pos, 1), 20);
}

#[test]
fn perft_startpos_depth2() {
    setup();
    let mut pos = Position::startpos();
    assert_eq!(perft(&mut pos, 2), 400);
}

#[test]
fn perft_startpos_depth3() {
    setup();
    let mut pos = Position::startpos();
    assert_eq!(perft(&mut pos, 3), 8_902);
}

#[test]
fn perft_kiwipete_depth1() {
    setup();
    let mut pos = Position::from_fen(KIWIPETE).unwrap();
    assert_eq!(perft(&mut pos, 1), 48);
}

#[test]
fn perft_kiwipete_depth2() {
    setup();
    let mut pos = Position::from_fen(KIWIPETE).unwrap();
    assert_eq!(perft(&mut pos, 2), 2_039);
}

#[test]
fn perft_startpos_d1() {
    setup();
    let mut p = Position::startpos();
    assert_eq!(perft(&mut p, 1), 20);
}

#[test]
fn perft_startpos_d2() {
    setup();
    let mut p = Position::startpos();
    assert_eq!(perft(&mut p, 2), 400);
}

#[test]
fn perft_startpos_d3() {
    setup();
    let mut p = Position::startpos();
    assert_eq!(perft(&mut p, 3), 8_902);
}
