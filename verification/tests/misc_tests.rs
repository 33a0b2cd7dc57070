use specter::board::position::{Move, MoveFlag, Position};
use specter::board::square::Square;
use specter::history::butterfly::ButterflyHistory;
use specter::history::killer::KillerTable;
use specter::personality::elo::level_to_elo;
use specter::personality::style::Style;
use specter::search::timeman::TimeManager;
use specter::syzygy::SyzygyProber;
use specter::tt::entry::Bound;
use specter::tt::table::TranspositionTable;

#[test]
fn history_stays_within_its_bound() {
    let mut h = ButterflyHistory::new();
    for _ in 0..200 {
        h.update(0, 12, 28, 2800);
    }
    let v = h.get(0, 12, 28);
    assert!(v > 0 && v <= 16384);
    for _ in 0..400 {
        h.update(0, 12, 28, -2800);
    }
    let w = h.get(0, 12, 28);
    assert!(w < 0 && w >= -16384);
    assert_eq!(h.get(1, 12, 28), 0);
}

#[test]
fn history_gravity_step() {
    let mut h = ButterflyHistory::new();
    h.update(0, 1, 2, 1000);
    assert_eq!(h.get(0, 1, 2), 1000);
    // 1000 + 1000 - 1000 * 1000 / 16384
    h.update(0, 1, 2, 1000);
    assert_eq!(h.get(0, 1, 2), 2000 - 61);
}

#[test]
fn killers_keep_the_two_latest() {
    let mut k = KillerTable::new();
    let a = Move::new(Square::E2, Square::E4, MoveFlag::DoublePush);
    let b = Move::new(Square::G1, Square::F3, MoveFlag::Normal);
    k.store(3, a);
    k.store(3, b);
    let got = k.get(3);
    assert!(got[0] == b && got[1] == a);
    k.store(3, b);
    let got = k.get(3);
    assert!(got[0] == b && got[1] == a);
}

#[test]
fn tt_returns_what_was_stored() {
    let mut tt = TranspositionTable::new(1);
    let mv = Move::new(Square::E2, Square::E4, MoveFlag::DoublePush);
    let hash = 0x1234_5678_9abc_def0u64;
    assert!(tt.probe(hash).is_none());
    tt.store(hash, mv, 42, 7, Bound::Lower);
    let e = tt.probe(hash).unwrap();
    assert!(e.mv == mv && e.score == 42 && e.depth == 7 && e.bound == Bound::Lower);
    tt.clear();
    assert!(tt.probe(hash).is_none());
    // Empty slots carry age 0, the age of the first search.
    assert_eq!(tt.hashfull(), 1000);
    tt.new_search();
    assert_eq!(tt.hashfull(), 0);
}

#[test]
fn time_limits() {
    let t = TimeManager::fixed_depth(5);
    assert!(t.depth_limit_reached(6));
    assert!(!t.depth_limit_reached(5));
    let mut inf = TimeManager::infinite();
    assert!(!inf.is_hard_expired());
    inf.stop();
    assert!(inf.is_hard_expired());
    assert!(inf.is_soft_expired());
    assert!(inf.elapsed_ms() < 10_000);
}

#[test]
fn styles_and_levels_by_name() {
    assert!(Style::from_str("AGGRESSIVE") == Style::Aggressive);
    assert!(Style::from_str("solid") == Style::Solid);
    assert!(Style::from_str("whatever") == Style::Balanced);
    assert_eq!(Style::Tactical.tactical_bonus(), 40000);
    assert_eq!(level_to_elo("Beginner"), 400);
    assert_eq!(level_to_elo("GrandMaster"), 2800);
    assert_eq!(level_to_elo("nobody"), 3200);
}

#[test]
fn tablebases_are_not_available() {
    let mut p = SyzygyProber::new();
    let pos = Position::startpos();
    assert!(p.probe_wdl(&pos).is_none());
    assert!(p.probe_dtz(&pos).is_none());
    let _ = p.init("/nonexistent");
}
