use specter::board::position::{Position, STARTPOS_FEN};
use specter::uci::parser::{parse, parse_move, GoParams, UciCommand};

#[test]
fn simple_commands() {
    assert!(matches!(parse("uci"), UciCommand::Uci));
    assert!(matches!(parse("isready"), UciCommand::IsReady));
    assert!(matches!(parse("  ucinewgame  "), UciCommand::UciNewGame));
    assert!(matches!(parse("stop"), UciCommand::Stop));
    assert!(matches!(parse("quit"), UciCommand::Quit));
    assert!(matches!(parse("q"), UciCommand::Quit));
    assert!(matches!(parse("d"), UciCommand::D));
}

#[test]
fn unknown_and_empty_lines_keep_their_text() {
    match parse("   ") {
        UciCommand::Unknown(s) => assert_eq!(s, "   "),
        _ => panic!("expected Unknown"),
    }
    match parse("hello world") {
        UciCommand::Unknown(s) => assert_eq!(s, "hello world"),
        _ => panic!("expected Unknown"),
    }
}

#[test]
fn perft_depth_defaults_to_one() {
    assert!(matches!(parse("perft 4"), UciCommand::Perft(4)));
    assert!(matches!(parse("perft"), UciCommand::Perft(1)));
    assert!(matches!(parse("perft x"), UciCommand::Perft(1)));
    assert!(matches!(parse("perft +3"), UciCommand::Perft(3)));
}

#[test]
fn setoption_name_and_value() {
    match parse("setoption name Hash value 128") {
        UciCommand::SetOption { name, value } => {
            assert_eq!(name, "Hash");
            assert_eq!(value, "128");
        },
        _ => panic!("expected SetOption"),
    }
    match parse("setoption name Syzygy Path value /tb/a b") {
        UciCommand::SetOption { name, value } => {
            assert_eq!(name, "Syzygy Path");
            assert_eq!(value, "/tb/a b");
        },
        _ => panic!("expected SetOption"),
    }
}

#[test]
fn position_startpos_with_moves() {
    match parse("position startpos moves e2e4 e7e5") {
        UciCommand::Position { fen, moves } => {
            assert_eq!(fen, STARTPOS_FEN);
            assert_eq!(moves, vec!["e2e4".to_string(), "e7e5".to_string()]);
        },
        _ => panic!("expected Position"),
    }
}

#[test]
fn position_fen_without_moves() {
    match parse("position fen 8/8/8/8/8/8/8/K6k w - - 0 1") {
        UciCommand::Position { fen, moves } => {
            assert_eq!(fen, "8/8/8/8/8/8/8/K6k w - - 0 1");
            assert!(moves.is_empty());
        },
        _ => panic!("expected Position"),
    }
}

#[test]
fn go_limits() {
    match parse("go wtime 60000 btime 59000 winc 1000 binc 1000 movestogo 30") {
        UciCommand::Go(p) => {
            assert_eq!(p.wtime, Some(60000));
            assert_eq!(p.btime, Some(59000));
            assert_eq!(p.winc, Some(1000));
            assert_eq!(p.binc, Some(1000));
            assert_eq!(p.movestogo, Some(30));
            assert_eq!(p.depth, None);
            assert!(!p.infinite);
        },
        _ => panic!("expected Go"),
    }
    match parse("go depth 7 nodes 5000 movetime 250 infinite") {
        UciCommand::Go(p) => {
            assert_eq!(p.depth, Some(7));
            assert_eq!(p.nodes, Some(5000));
            assert_eq!(p.movetime, Some(250));
            assert!(p.infinite);
        },
        _ => panic!("expected Go"),
    }
    match parse("go depth x") {
        UciCommand::Go(p) => assert_eq!(p.depth, None),
        _ => panic!("expected Go"),
    }
    let d = GoParams::default();
    assert!(d.wtime.is_none() && !d.infinite);
}

#[test]
fn moves_are_matched_against_legal_moves() {
    let pos = Position::startpos();
    let mv = parse_move(&pos, "e2e4").unwrap();
    assert_eq!(mv.from().index(), 12);
    assert_eq!(mv.to().index(), 28);
    assert_eq!(mv.flag(), 1);
    assert!(parse_move(&pos, "e2e5").is_none());
    assert!(parse_move(&pos, "e2").is_none());
    assert!(parse_move(&pos, "z9e4").is_none());
}

#[test]
fn promotions_need_their_letter() {
    let pos = Position::from_fen("8/4P3/8/8/8/8/k7/7K w - - 0 1").unwrap();
    assert_eq!(parse_move(&pos, "e7e8q").unwrap().flag(), 8);
    assert_eq!(parse_move(&pos, "e7e8n").unwrap().flag(), 5);
    assert!(parse_move(&pos, "e7e8").is_none());
    assert!(parse_move(&pos, "e7e8x").is_none());
}
