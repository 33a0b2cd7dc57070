use specter::board::position::Position;
use specter::openingbook::builtin::{build_book_entries, builtin_book, opening_lines, RuntimeBook};
use specter::openingbook::polyglot::PolyglotBook;
use specter::openingbook::OpeningBook;

fn entry(key: u64, mv: u16, weight: u16) -> Vec<u8> {
    let mut v = key.to_be_bytes().to_vec();
    v.extend_from_slice(&mv.to_be_bytes());
    v.extend_from_slice(&weight.to_be_bytes());
    v.extend_from_slice(&[0, 0, 0, 0]);
    v
}

/// e2e4: from e2 (file 4, rank 1), to e4 (file 4, rank 3).
const E2E4: u16 = (1 << 9) | (4 << 6) | (3 << 3) | 4;
/// d2d4.
const D2D4: u16 = (1 << 9) | (3 << 6) | (3 << 3) | 3;
/// e7e8q.
const E7E8Q: u16 = (4 << 12) | (6 << 9) | (4 << 6) | (7 << 3) | 4;

#[test]
fn polyglot_size_must_be_a_multiple_of_sixteen() {
    match PolyglotBook::load(&[0u8; 17]) {
        Err(e) => assert_eq!(e, "Invalid polyglot file: size not multiple of 16"),
        Ok(_) => panic!("expected an error"),
    }
    assert_eq!(PolyglotBook::load(&[]).unwrap().num_entries(), 0);
}

#[test]
fn polyglot_moves_heaviest_first() {
    let mut bytes = entry(5, E7E8Q, 1);
    bytes.extend(entry(7, E2E4, 10));
    bytes.extend(entry(7, D2D4, 30));
    bytes.extend(entry(7, E7E8Q, 10));
    bytes.extend(entry(9, D2D4, 99));
    let book = PolyglotBook::load(&bytes).unwrap();
    assert_eq!(book.num_entries(), 5);
    let all = book.probe_all(7);
    assert_eq!(all, vec![("d2d4".to_string(), 30), ("e2e4".to_string(), 10), ("e7e8q".to_string(), 10)]);
    assert_eq!(book.probe_all(5), vec![("e7e8q".to_string(), 1)]);
    assert!(book.probe_all(8).is_empty());
    assert_eq!(book.probe(7).map(|m| m.to_uci()), Some("d2d4".to_string()));
    assert_eq!(book.probe(5).map(|m| m.to_uci()), Some("e7e8q".to_string()));
    assert!(book.probe(8).is_none());
}

#[test]
fn polyglot_probe_takes_the_first_heaviest_move() {
    let mut bytes = entry(3, D2D4, 1);
    bytes.extend(entry(7, E7E8Q, 5));
    bytes.extend(entry(7, E2E4, 40));
    bytes.extend(entry(7, D2D4, 40));
    let book = PolyglotBook::load(&bytes).unwrap();
    assert_eq!(book.probe(7).map(|m| m.to_uci()), Some("e2e4".to_string()));
    assert!(book.probe(4).is_none());
}

#[test]
fn built_in_lines_start_from_the_start_position() {
    let lines = opening_lines();
    assert_eq!(lines.len(), 22);
    let entries = build_book_entries();
    let total: usize = lines.iter().map(|l| l.len()).sum();
    assert_eq!(entries.len(), total);
    let start = Position::startpos().hash;
    assert_eq!(entries[0], (start, "e2e4".to_string()));
    assert_eq!(entries[1].1, "e7e5");
    assert_ne!(entries[1].0, start);
}

#[test]
fn runtime_book_picks_a_first_move_at_the_start() {
    let book = RuntimeBook::build();
    let hash = Position::startpos().hash;
    let firsts: Vec<String> = opening_lines().iter().map(|l| l[0].to_string()).collect();
    let pick = (hash.wrapping_mul(6364136223846793005).wrapping_add(1442695040888963407) as usize) % firsts.len();
    assert_eq!(book.probe(hash), Some(firsts[pick].clone()));
    assert_eq!(book.probe(hash ^ 1), None);
}

#[test]
fn opening_book_prefers_the_polyglot_book() {
    let mut book = OpeningBook::new();
    let pos = Position::startpos();
    assert!(book.probe(&pos).is_none());
    assert!(book.load_polyglot(&[1u8; 3]).is_err());
    assert!(book.load_polyglot(&entry(pos.hash, E2E4, 1)).is_ok());
    assert_eq!(book.probe(&pos).map(|m| m.to_uci()), Some("e2e4".to_string()));
    book.disable();
    assert!(book.probe(&pos).is_none());
    book.enable();
    assert_eq!(book.probe(&pos).map(|m| m.to_uci()), Some("e2e4".to_string()));
    assert!(builtin_book().probe(pos.hash).is_none());
}
