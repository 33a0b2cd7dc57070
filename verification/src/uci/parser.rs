//! UCI command parser. A line is split into words at white space; the first word names
//! the command.
use vstd::prelude::*;
use vstd::utf8::{decode_utf8, encode_utf8, is_char_boundary};
use vstd::string::StringSliceAdditionalSpecFns;
use crate::board::position::{Move, Position, STARTPOS_FEN};
use crate::board::square::{Square, parse_square_spec};
use crate::movegen::legal::{legal_moves, legal_seq};
use crate::text::{chars_of, string_of, split_words, words, chars_eq_str, parse_uint, parse_uint_chars, parse_u64_chars};

verus! {

#[derive(Debug)]
pub enum UciCommand {
    Uci,
    IsReady,
    UciNewGame,
    Position { fen: String, moves: Vec<String> },
    Go(GoParams),
    Stop,
    Quit,
    SetOption { name: String, value: String },
    /// Print the board.
    D,
    Perft(u32),
    Unknown(String),
}

#[derive(Debug)]
pub struct GoParams {
    pub wtime: Option<u64>,
    pub btime: Option<u64>,
    pub winc: Option<u64>,
    pub binc: Option<u64>,
    pub movestogo: Option<u32>,
    pub depth: Option<u32>,
    pub nodes: Option<u64>,
    pub movetime: Option<u64>,
    pub infinite: bool,
}

/// No limit given.
pub open spec fn go_default() -> GoParams {
    GoParams {
        wtime: None,
        btime: None,
        winc: None,
        binc: None,
        movestogo: None,
        depth: None,
        nodes: None,
        movetime: None,
        infinite: false,
    }
}

impl Default for GoParams {
    fn default() -> (p: Self)
        ensures
            p == go_default(),
    {
        GoParams {
            wtime: None,
            btime: None,
            winc: None,
            binc: None,
            movestogo: None,
            depth: None,
            nodes: None,
            movetime: None,
            infinite: false,
        }
    }
}

// ─── Specification ────────────────────────────────────────────────────────────

/// The texts of a list of words.
pub open spec fn views(v: Seq<Vec<char>>) -> Seq<Seq<char>> {
    Seq::new(v.len(), |i: int| v[i]@)
}

/// The first index from `i` on of the word `w` in `ws`.
pub open spec fn first_from(ws: Seq<Seq<char>>, w: Seq<char>, i: int) -> Option<int>
    decreases ws.len() - i,
{
    if i < 0 || i >= ws.len() {
        None
    } else if ws[i] == w {
        Some(i)
    } else {
        first_from(ws, w, i + 1)
    }
}

/// A found index lies in range and holds the word.
proof fn lemma_first_from(ws: Seq<Seq<char>>, w: Seq<char>, i: int)
    ensures
        first_from(ws, w, i) matches Some(j) ==> 0 <= i <= j < ws.len() && ws[j] == w,
    decreases ws.len() - i,
{
    if 0 <= i < ws.len() && ws[i] != w {
        lemma_first_from(ws, w, i + 1);
    }
}

/// The first index of the word `w` in `ws`.
pub open spec fn first_index(ws: Seq<Seq<char>>, w: Seq<char>) -> Option<int> {
    first_from(ws, w, 0)
}

/// The words joined with single spaces.
pub open spec fn join_words(ws: Seq<Seq<char>>) -> Seq<char>
    decreases ws.len(),
{
    if ws.len() == 0 {
        Seq::empty()
    } else if ws.len() == 1 {
        ws[0]
    } else {
        join_words(ws.drop_last()) + seq![' '] + ws.last()
    }
}

/// `setoption`: the name runs from after `name` (else from the third word) to before
/// the word before the value; the value from after `value` (else nothing) to the end.
pub open spec fn setoption_bounds(ws: Seq<Seq<char>>) -> (int, int, int) {
    let name_idx = match first_index(ws, "name"@) { Some(i) => i + 1, None => 2 };
    let value_idx = match first_index(ws, "value"@) { Some(i) => i + 1, None => ws.len() as int };
    let end = if value_idx >= 1 { value_idx - 1 } else { 0 };
    (name_idx, end, value_idx)
}

/// `position startpos`.
pub open spec fn uses_startpos(ws: Seq<Seq<char>>) -> bool {
    ws.len() > 1 && ws[1] == "startpos"@
}

/// `position`: the FEN runs from after `fen` (else from the third word) to before
/// `moves` (else to the end).
pub open spec fn fen_bounds(ws: Seq<Seq<char>>) -> (int, int) {
    let fen_start = match first_index(ws, "fen"@) { Some(i) => i, None => 1 } + 1;
    let fen_end = match first_index(ws, "moves"@) { Some(i) => i, None => ws.len() as int };
    (fen_start, fen_end)
}

/// `position`: the moves follow `moves`.
pub open spec fn moves_start(ws: Seq<Seq<char>>) -> int {
    match first_index(ws, "moves"@) { Some(i) => i + 1, None => ws.len() as int }
}

/// The FEN of a `position` command.
pub open spec fn position_fen(ws: Seq<Seq<char>>) -> Seq<char> {
    if uses_startpos(ws) {
        STARTPOS_FEN@
    } else {
        join_words(ws.subrange(fen_bounds(ws).0, fen_bounds(ws).1))
    }
}

/// The words after word `i`, parsed as a number of at most `max`, if there is one.
pub open spec fn arg_of(ws: Seq<Seq<char>>, i: int, max: int) -> Option<int> {
    if 0 <= i + 1 < ws.len() { parse_uint(ws[i + 1], max) } else { None }
}

pub open spec fn opt_u64(o: Option<int>) -> Option<u64> {
    match o { Some(n) => Some(n as u64), None => None }
}

pub open spec fn opt_u32(o: Option<int>) -> Option<u32> {
    match o { Some(n) => Some(n as u32), None => None }
}

/// The index after a limit's name at `i` and its value: two words on, or the end.
pub open spec fn after_value(ws: Seq<Seq<char>>, i: int) -> int {
    if i + 2 <= ws.len() { i + 2 } else { ws.len() as int }
}

/// The search limits of `go`, read from word `i` on: a limit's name takes the next word
/// as its value (none if it is not a number), `infinite` stands alone, other words are
/// skipped; a later value replaces an earlier one.
pub open spec fn go_scan(ws: Seq<Seq<char>>, i: int, p: GoParams) -> GoParams
    decreases ws.len() - i,
{
    if i >= ws.len() {
        p
    } else {
        let w = ws[i];
        if w == "wtime"@ {
            go_scan(ws, after_value(ws, i), GoParams { wtime: opt_u64(arg_of(ws, i, u64::MAX as int)), ..p })
        } else if w == "btime"@ {
            go_scan(ws, after_value(ws, i), GoParams { btime: opt_u64(arg_of(ws, i, u64::MAX as int)), ..p })
        } else if w == "winc"@ {
            go_scan(ws, after_value(ws, i), GoParams { winc: opt_u64(arg_of(ws, i, u64::MAX as int)), ..p })
        } else if w == "binc"@ {
            go_scan(ws, after_value(ws, i), GoParams { binc: opt_u64(arg_of(ws, i, u64::MAX as int)), ..p })
        } else if w == "movestogo"@ {
            go_scan(ws, after_value(ws, i), GoParams { movestogo: opt_u32(arg_of(ws, i, u32::MAX as int)), ..p })
        } else if w == "depth"@ {
            go_scan(ws, after_value(ws, i), GoParams { depth: opt_u32(arg_of(ws, i, u32::MAX as int)), ..p })
        } else if w == "nodes"@ {
            go_scan(ws, after_value(ws, i), GoParams { nodes: opt_u64(arg_of(ws, i, u64::MAX as int)), ..p })
        } else if w == "movetime"@ {
            go_scan(ws, after_value(ws, i), GoParams { movetime: opt_u64(arg_of(ws, i, u64::MAX as int)), ..p })
        } else if w == "infinite"@ {
            go_scan(ws, i + 1, GoParams { infinite: true, ..p })
        } else {
            go_scan(ws, i + 1, p)
        }
    }
}

/// The depth of `perft`: its argument, or 1 if there is none or it is not a number.
pub open spec fn perft_depth(ws: Seq<Seq<char>>) -> u32 {
    match arg_of(ws, 0, u32::MAX as int) { Some(n) => n as u32, None => 1 }
}

/// The line would have the parser slice its words out of order: `setoption` with the
/// name starting after the value's end, or `position` (without `startpos`) with the FEN
/// starting after `moves`.
pub open spec fn parse_ok(line: Seq<char>) -> bool {
    let ws = words(line);
    ws.len() > 0 ==> {
        &&& ws[0] == "setoption"@ ==> setoption_bounds(ws).0 <= setoption_bounds(ws).1
        &&& ws[0] == "position"@ && !uses_startpos(ws) ==> fen_bounds(ws).0 <= fen_bounds(ws).1
    }
}

/// The command of a line.
pub open spec fn command_matches(r: UciCommand, line: Seq<char>) -> bool {
    let ws = words(line);
    if ws.len() == 0 {
        r matches UciCommand::Unknown(s) && s@ == line
    } else {
        let w = ws[0];
        if w == "uci"@ {
            r is Uci
        } else if w == "isready"@ {
            r is IsReady
        } else if w == "ucinewgame"@ {
            r is UciNewGame
        } else if w == "stop"@ {
            r is Stop
        } else if w == "quit"@ || w == "q"@ {
            r is Quit
        } else if w == "d"@ {
            r is D
        } else if w == "perft"@ {
            r == UciCommand::Perft(perft_depth(ws))
        } else if w == "setoption"@ {
            let (a, e, v) = setoption_bounds(ws);
            r matches UciCommand::SetOption { name, value } && name@ == join_words(ws.subrange(a, e))
                && value@ == join_words(ws.subrange(v, ws.len() as int))
        } else if w == "position"@ {
            let m = moves_start(ws);
            r matches UciCommand::Position { fen, moves } && fen@ == position_fen(ws)
                && moves@.len() == ws.len() - m
                && forall|k: int| 0 <= k < moves@.len() ==> (#[trigger] moves@[k])@ == ws[m + k]
        } else if w == "go"@ {
            r == UciCommand::Go(go_scan(ws, 1, go_default()))
        } else {
            r matches UciCommand::Unknown(s) && s@ == line
        }
    }
}

// ─── Word helpers ─────────────────────────────────────────────────────────────

/// The index of the first word equal to `w`.
fn find_word(ws: &Vec<Vec<char>>, w: &str) -> (r: Option<usize>)
    ensures
        r matches Some(i) ==> first_index(views(ws@), w@) == Some(i as int) && i < ws@.len(),
        r is None ==> first_index(views(ws@), w@) is None,
{
    let ghost v = views(ws@);
    proof { lemma_first_from(v, w@, 0); }
    let mut i: usize = 0;
    while i < ws.len()
        invariant
            v == views(ws@),
            0 <= i <= ws@.len(),
            first_index(v, w@) == first_from(v, w@, i as int),
        decreases ws@.len() - i,
    {
        if chars_eq_str(&ws[i], w) {
            return Some(i);
        }
        i = i + 1;
    }
    None
}

/// Appends the characters of `w`.
fn append_chars(out: &mut Vec<char>, w: &Vec<char>)
    ensures
        final(out)@ == old(out)@ + w@,
{
    let mut i: usize = 0;
    while i < w.len()
        invariant
            0 <= i <= w@.len(),
            out@ == old(out)@ + w@.take(i as int),
        decreases w@.len() - i,
    {
        out.push(w[i]);
        i = i + 1;
        assert(out@ =~= old(out)@ + w@.take(i as int));
    }
    assert(w@.take(w@.len() as int) =~= w@);
}

/// The words `a..b` joined with single spaces.
fn join_range(ws: &Vec<Vec<char>>, a: usize, b: usize) -> (s: String)
    requires
        a <= b <= ws@.len(),
    ensures
        s@ == join_words(views(ws@).subrange(a as int, b as int)),
{
    let ghost v = views(ws@);
    let mut out: Vec<char> = Vec::new();
    let mut k: usize = a;
    assert(v.subrange(a as int, a as int) =~= Seq::<Seq<char>>::empty());
    while k < b
        invariant
            v == views(ws@),
            a <= k <= b <= ws@.len(),
            out@ == join_words(v.subrange(a as int, k as int)),
        decreases b - k,
    {
        let ghost before = v.subrange(a as int, k as int);
        let ghost after = v.subrange(a as int, k as int + 1);
        assert(after.drop_last() =~= before);
        assert(after.last() == ws@[k as int]@);
        if k > a {
            out.push(' ');
        } else {
            assert(after =~= seq![ws@[k as int]@]);
            assert(out@ =~= Seq::<char>::empty());
        }
        append_chars(&mut out, &ws[k]);
        if k == a {
            assert(out@ =~= ws@[k as int]@);
        }
        k = k + 1;
    }
    string_of(&out)
}

// ─── Parsing ──────────────────────────────────────────────────────────────────

/// Parses one line of UCI input.
pub fn parse(line: &str) -> (r: UciCommand)
    requires
        parse_ok(line@),
    ensures
        command_matches(r, line@),
{
    let cs = chars_of(line);
    let parts = split_words(&cs);
    assert(views(parts@) =~= words(line@));
    if parts.len() == 0 {
        return UciCommand::Unknown(string_of(&cs));
    }
    let w = &parts[0];
    if chars_eq_str(w, "uci") {
        UciCommand::Uci
    } else if chars_eq_str(w, "isready") {
        UciCommand::IsReady
    } else if chars_eq_str(w, "ucinewgame") {
        UciCommand::UciNewGame
    } else if chars_eq_str(w, "stop") {
        UciCommand::Stop
    } else if chars_eq_str(w, "quit") || chars_eq_str(w, "q") {
        UciCommand::Quit
    } else if chars_eq_str(w, "d") {
        UciCommand::D
    } else if chars_eq_str(w, "perft") {
        let depth = if parts.len() > 1 {
            match parse_uint_chars(&parts[1], u32::MAX) {
                Some(n) => n,
                None => 1,
            }
        } else {
            1
        };
        UciCommand::Perft(depth)
    } else if chars_eq_str(w, "setoption") {
        parse_setoption(&parts)
    } else if chars_eq_str(w, "position") {
        parse_position(&parts)
    } else if chars_eq_str(w, "go") {
        UciCommand::Go(parse_go(&parts))
    } else {
        UciCommand::Unknown(string_of(&cs))
    }
}

/// Parses one line of UCI input; `None` on the lines whose words would be sliced out of
/// order (see [`parse_ok`]).
pub fn try_parse(line: &str) -> (r: Option<UciCommand>)
    ensures
        r is None <==> !parse_ok(line@),
        r matches Some(c) ==> command_matches(c, line@),
{
    proof {
        reveal_strlit("setoption");
        reveal_strlit("position");
    }
    assert("setoption"@ != "position"@) by {
        assert("setoption"@[0] != "position"@[0]);
    }
    let cs = chars_of(line);
    let parts = split_words(&cs);
    assert(views(parts@) =~= words(line@));
    if parts.len() > 0 {
        let n = parts.len();
        if chars_eq_str(&parts[0], "setoption") {
            let name_idx = match find_word(&parts, "name") {
                Some(i) => i + 1,
                None => 2,
            };
            let value_idx = match find_word(&parts, "value") {
                Some(i) => i + 1,
                None => n,
            };
            let end = if value_idx >= 1 { value_idx - 1 } else { 0 };
            if name_idx > end {
                return None;
            }
        } else if chars_eq_str(&parts[0], "position") && !(n > 1 && chars_eq_str(&parts[1], "startpos")) {
            let fen_start = match find_word(&parts, "fen") {
                Some(i) => i,
                None => 1,
            } + 1;
            let fen_end = match find_word(&parts, "moves") {
                Some(i) => i,
                None => n,
            };
            if fen_start > fen_end {
                return None;
            }
        }
    }
    Some(parse(line))
}

fn parse_setoption(parts: &Vec<Vec<char>>) -> (r: UciCommand)
    requires
        parts@.len() > 0,
        setoption_bounds(views(parts@)).0 <= setoption_bounds(views(parts@)).1,
    ensures
        ({
            let ws = views(parts@);
            let (a, e, v) = setoption_bounds(ws);
            r matches UciCommand::SetOption { name, value } && name@ == join_words(ws.subrange(a, e))
                && value@ == join_words(ws.subrange(v, ws.len() as int))
        }),
{
    let n = parts.len();
    let name_idx = match find_word(parts, "name") {
        Some(i) => i + 1,
        None => 2,
    };
    let value_idx = match find_word(parts, "value") {
        Some(i) => i + 1,
        None => parts.len(),
    };
    let end = if value_idx >= 1 { value_idx - 1 } else { 0 };
    let name = join_range(parts, name_idx, end);
    let value = join_range(parts, value_idx, parts.len());
    UciCommand::SetOption { name, value }
}

fn parse_position(parts: &Vec<Vec<char>>) -> (r: UciCommand)
    requires
        parts@.len() > 0,
        !uses_startpos(views(parts@)) ==> fen_bounds(views(parts@)).0 <= fen_bounds(views(parts@)).1,
    ensures
        ({
            let ws = views(parts@);
            let m = moves_start(ws);
            r matches UciCommand::Position { fen, moves } && fen@ == position_fen(ws)
                && moves@.len() == ws.len() - m
                && forall|k: int| 0 <= k < moves@.len() ==> (#[trigger] moves@[k])@ == ws[m + k]
        }),
{
    let ghost ws = views(parts@);
    let n = parts.len();
    let moves_at = find_word(parts, "moves");
    let fen = if parts.len() > 1 && chars_eq_str(&parts[1], "startpos") {
        string_of(&chars_of(STARTPOS_FEN))
    } else {
        let fen_start = match find_word(parts, "fen") {
            Some(i) => i,
            None => 1,
        } + 1;
        let fen_end = match moves_at {
            Some(i) => i,
            None => parts.len(),
        };
        join_range(parts, fen_start, fen_end)
    };
    let start = match moves_at {
        Some(i) => i + 1,
        None => parts.len(),
    };
    let mut moves: Vec<String> = Vec::new();
    let mut k: usize = start;
    while k < parts.len()
        invariant
            ws == views(parts@),
            start == moves_start(ws),
            start <= k <= parts@.len(),
            moves@.len() == k - start,
            forall|j: int| 0 <= j < moves@.len() ==> (#[trigger] moves@[j])@ == ws[start + j],
        decreases parts@.len() - k,
    {
        moves.push(string_of(&parts[k]));
        k = k + 1;
    }
    UciCommand::Position { fen, moves }
}

/// The number after word `i`, if there is one and it parses.
fn arg_u64(parts: &Vec<Vec<char>>, i: usize) -> (r: Option<u64>)
    ensures
        r == opt_u64(arg_of(views(parts@), i as int, u64::MAX as int)),
{
    if parts.len() > 0 && i < parts.len() - 1 {
        match parse_u64_chars(&parts[i + 1], u64::MAX) {
            Some(n) => Some(n),
            None => None,
        }
    } else {
        None
    }
}

/// The number after word `i`, if there is one and it parses.
fn arg_u32(parts: &Vec<Vec<char>>, i: usize) -> (r: Option<u32>)
    ensures
        r == opt_u32(arg_of(views(parts@), i as int, u32::MAX as int)),
{
    if parts.len() > 0 && i < parts.len() - 1 {
        match parse_uint_chars(&parts[i + 1], u32::MAX) {
            Some(n) => Some(n),
            None => None,
        }
    } else {
        None
    }
}

fn parse_go(parts: &Vec<Vec<char>>) -> (p: GoParams)
    ensures
        p == go_scan(views(parts@), 1, go_default()),
{
    let ghost ws = views(parts@);
    let mut p = GoParams::default();
    let n = parts.len();
    if n <= 1 {
        return p;
    }
    let mut i: usize = 1;
    while i < n
        invariant
            ws == views(parts@),
            n == parts@.len(),
            1 <= i <= n,
            go_scan(ws, i as int, p) == go_scan(ws, 1, go_default()),
        decreases parts@.len() - i,
    {
        let w = &parts[i];
        if chars_eq_str(w, "wtime") {
            p.wtime = arg_u64(parts, i);
            i = skip_value(i, n);
        } else if chars_eq_str(w, "btime") {
            p.btime = arg_u64(parts, i);
            i = skip_value(i, n);
        } else if chars_eq_str(w, "winc") {
            p.winc = arg_u64(parts, i);
            i = skip_value(i, n);
        } else if chars_eq_str(w, "binc") {
            p.binc = arg_u64(parts, i);
            i = skip_value(i, n);
        } else if chars_eq_str(w, "movestogo") {
            p.movestogo = arg_u32(parts, i);
            i = skip_value(i, n);
        } else if chars_eq_str(w, "depth") {
            p.depth = arg_u32(parts, i);
            i = skip_value(i, n);
        } else if chars_eq_str(w, "nodes") {
            p.nodes = arg_u64(parts, i);
            i = skip_value(i, n);
        } else if chars_eq_str(w, "movetime") {
            p.movetime = arg_u64(parts, i);
            i = skip_value(i, n);
        } else if chars_eq_str(w, "infinite") {
            p.infinite = true;
            i = i + 1;
        } else {
            i = i + 1;
        }
    }
    p
}

/// The index after a limit's name and value: two words on, or the end.
fn skip_value(i: usize, n: usize) -> (j: usize)
    requires
        i < n,
    ensures
        j == (if i + 2 <= n { i + 2 } else { n as int }),
{
    if i + 1 < n { i + 2 } else { n }
}

// ─── Moves ────────────────────────────────────────────────────────────────────

/// The promotion letter, if any, selects the move's flag; without one the move is no
/// promotion.
pub open spec fn promo_matches(m: Move, promo: Option<char>) -> bool {
    match promo {
        Some(c) => if c == 'q' {
            m.flag_spec() == 8
        } else if c == 'r' {
            m.flag_spec() == 7
        } else if c == 'b' {
            m.flag_spec() == 6
        } else if c == 'n' {
            m.flag_spec() == 5
        } else {
            false
        },
        None => m.flag_spec() < 5,
    }
}

/// The fifth character of the move text, if any.
pub open spec fn promo_char(s: Seq<char>) -> Option<char> {
    if s.len() > 4 { Some(s[4]) } else { None }
}

/// The moves that go from `from` to `to` with the promotion `promo`.
pub open spec fn uci_match(from: int, to: int, promo: Option<char>) -> spec_fn(Move) -> bool {
    |m: Move| m.from_idx() == from && m.to_idx() == to && promo_matches(m, promo)
}

/// The move text can be cut at bytes 2 and 4, where the squares end.
pub open spec fn move_text_ok(s: Seq<char>) -> bool {
    encode_utf8(s).len() >= 4 ==> is_char_boundary(encode_utf8(s), 2) && is_char_boundary(encode_utf8(s), 4)
}

/// The squares named by the first two and the next two bytes of a move text, if it has
/// four bytes and both name squares.
pub open spec fn move_squares_spec(s: Seq<char>) -> Option<(int, int)> {
    let b = encode_utf8(s);
    if b.len() < 4 {
        None
    } else {
        match (parse_square_spec(decode_utf8(b.subrange(0, 2))), parse_square_spec(decode_utf8(b.subrange(2, 4)))) {
            (Some(from), Some(to)) => Some((from, to)),
            _ => None,
        }
    }
}

/// The move a UCI move text names in a position: the first legal move from the square
/// of its first two bytes to that of the next two, with its promotion letter.
pub open spec fn uci_move_spec(v: crate::board::position::PositionView, s: Seq<char>) -> Option<Move> {
    match move_squares_spec(s) {
        Some((from, to)) => {
            let c = legal_seq(v).filter(uci_match(from, to, promo_char(s)));
            if c.len() > 0 { Some(c[0]) } else { None }
        },
        None => None,
    }
}

/// The squares of the first two and the next two bytes of a move text.
fn move_squares(mv_str: &str) -> (r: Option<(Square, Square)>)
    requires
        move_text_ok(mv_str@),
    ensures
        match move_squares_spec(mv_str@) {
            Some((f, t)) => r matches Some(p) && p.0.idx() == f && p.1.idx() == t,
            None => r is None,
        },
{
    broadcast use vstd::utf8::encode_utf8_valid_utf8, vstd::utf8::encode_utf8_decode_utf8,
        vstd::utf8::valid_utf8_split, vstd::utf8::is_char_boundary_start_end_of_seq,
        vstd::utf8::is_char_boundary_iff_not_is_continuation_byte;
    let ghost b = mv_str.spec_bytes();
    if mv_str.as_bytes().len() < 4 {
        return None;
    }
    let (head, rest) = mv_str.split_at(2);
    proof {
        let rb = rest.spec_bytes();
        assert(rb =~= b.subrange(2, b.len() as int));
        vstd::utf8::encode_utf8_valid_utf8(rest@);
        vstd::utf8::encode_utf8_valid_utf8(mv_str@);
        if b.len() > 4 {
            assert(rb[2] == b[4]);
            vstd::utf8::is_char_boundary_iff_not_is_continuation_byte(b, 4);
            vstd::utf8::is_char_boundary_iff_not_is_continuation_byte(rb, 2);
        } else {
            assert(rb.len() == 2);
            vstd::utf8::is_char_boundary_start_end_of_seq(rb);
        }
    }
    let (second, _) = rest.split_at(2);
    proof {
        assert(head@ == decode_utf8(head.spec_bytes()));
        assert(second@ == decode_utf8(second.spec_bytes()));
        assert(second.spec_bytes() =~= b.subrange(2, 4));
    }
    let from = match Square::from_str(head) {
        Some(s) => s,
        None => return None,
    };
    let to = match Square::from_str(second) {
        Some(s) => s,
        None => return None,
    };
    Some((from, to))
}

/// The first move of `list` from `from` to `to` with the promotion `promo`.
fn first_match(list: &crate::movegen::pseudo_legal::MoveList, from: Square, to: Square, promo: Option<char>) -> (r: Option<Move>)
    ensures
        ({
            let c = list@.filter(uci_match(from.idx() as int, to.idx() as int, promo));
            r == if c.len() > 0 { Some(c[0]) } else { None }
        }),
{
    let ghost pred = uci_match(from.idx() as int, to.idx() as int, promo);
    let ghost l = list@;
    let n = list.moves.len();
    let mut i: usize = 0;
    while i < n
        invariant
            n == list@.len(),
            list@ == l,
            0 <= i <= n,
            l.take(i as int).filter(pred) =~= Seq::<Move>::empty(),
            pred == uci_match(from.idx() as int, to.idx() as int, promo),
        decreases n - i,
    {
        let m = list.moves[i];
        let promo_ok = match promo {
            Some(c) => if c == 'q' {
                m.flag() == 8
            } else if c == 'r' {
                m.flag() == 7
            } else if c == 'b' {
                m.flag() == 6
            } else if c == 'n' {
                m.flag() == 5
            } else {
                false
            },
            None => !m.is_promotion(),
        };
        let ghost t1 = l.take(i as int + 1);
        proof {
            reveal(Seq::filter);
            assert(t1.drop_last() =~= l.take(i as int));
        }
        if m.from().index() == from.index() && m.to().index() == to.index() && promo_ok {
            proof {
                assert(pred(m));
                assert(t1.filter(pred) =~= seq![m]);
                assert(l =~= t1 + l.skip(i as int + 1));
                Seq::filter_distributes_over_add(t1, l.skip(i as int + 1), pred);
            }
            return Some(m);
        }
        i = i + 1;
    }
    assert(l.take(n as int) =~= l);
    None
}

/// Parses a UCI move text (e.g. "e2e4", "e7e8q") into the legal move it names.
pub fn parse_move(pos: &Position, mv_str: &str) -> (r: Option<Move>)
    requires
        pos@.valid(),
        move_text_ok(mv_str@),
    ensures
        r == uci_move_spec(pos@, mv_str@),
{
    let (from, to) = match move_squares(mv_str) {
        Some(p) => p,
        None => return None,
    };
    let cs = chars_of(mv_str);
    let promo: Option<char> = if cs.len() > 4 { Some(cs[4]) } else { None };
    assert(promo == promo_char(mv_str@));
    let mut copy = pos.duplicate();
    let list = legal_moves(&mut copy);
    assert(list@ == legal_seq(pos@));
    first_match(&list, from, to, promo)
}

} // verus!
