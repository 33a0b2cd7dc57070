//! Reading and writing positions in Forsyth–Edwards Notation, and the UCI text of moves.
use vstd::prelude::*;
use crate::board::color::Color;
use crate::board::piece::{Piece, PieceType, piece_type_of_char, ascii_lower};
use crate::board::position::{Move, Position, PositionView, promo_of_flag, STARTPOS_FEN, pidx, lemma_put_bit};
use crate::board::bitboard::{has_bit, lemma_bits_ext, lemma_zero_bits};
use crate::board::keep_wf::{bits_wf, square_wf, lemma_wf_bits, lemma_put_keeps_wf};
use crate::board::square::{Square, parse_square_spec, square_of, lemma_square_of, square_name, lemma_square_name_roundtrip};
use crate::board::zobrist::{CASTLING_KEYS, EN_PASSANT_KEYS, SIDE_KEY};
use crate::text::{
    chars_of, string_of, is_ws, word_state, words, lemma_words_nonempty, split_words, is_digit,
    digits_value, parse_uint, parse_uint_chars, decimal, push_decimal, all_digits, unsigned_digits,
};

verus! {

/// A message: the text `prefix` followed by the character `c`.
fn message_with(prefix: &str, c: char) -> (s: String)
    ensures
        s@ == prefix@.push(c),
{
    let mut v = chars_of(prefix);
    v.push(c);
    string_of(&v)
}

// ─── Reading a FEN ────────────────────────────────────────────────────────────

/// The state of reading the piece placement field.
pub enum Placement {
    /// Reading, at `rank` and `file`, with the position built so far.
    Reading(int, int, PositionView),
    /// A character that is neither a piece letter, a digit nor `/`.
    BadPiece(char),
    /// The field walks off the board or past the counters' range.
    Overrun,
}

/// The piece a FEN letter stands for.
pub open spec fn piece_of_char(c: char) -> Option<Piece> {
    match piece_type_of_char(ascii_lower(c)) {
        Some(pt) => Some(Piece { piece_type: pt, color: if 'A' <= c <= 'Z' { Color::White } else { Color::Black } }),
        None => None,
    }
}

/// One character of the placement field: `/` goes down a rank, a digit skips files, a
/// piece letter puts the piece on the current square.
pub open spec fn place_step(st: Placement, c: char) -> Placement {
    match st {
        Placement::Reading(rank, file, v) => {
            if c == '/' {
                if rank - 1 < -128 { Placement::Overrun } else { Placement::Reading(rank - 1, 0, v) }
            } else if '1' <= c <= '8' {
                let f = file + (c as int - '0' as int);
                if f > 127 { Placement::Overrun } else { Placement::Reading(rank, f, v) }
            } else {
                match piece_of_char(c) {
                    None => Placement::BadPiece(c),
                    Some(p) => if rank < 0 || rank * 8 + file >= 64 {
                        Placement::Overrun
                    } else {
                        Placement::Reading(rank, file + 1, v.put(p.color, p.piece_type, rank * 8 + file))
                    },
                }
            }
        },
        _ => st,
    }
}

/// Reading the placement field `s` onto `v0`, from the eighth rank down.
pub open spec fn placement(s: Seq<char>, v0: PositionView) -> Placement
    decreases s.len(),
{
    if s.len() == 0 {
        Placement::Reading(7, 0, v0)
    } else {
        place_step(placement(s.drop_last(), v0), s.last())
    }
}

/// Once reading stops, the rest of the field does not matter.
proof fn lemma_placement_stops(s: Seq<char>, i: int, v0: PositionView)
    requires
        0 <= i <= s.len(),
        !(placement(s.take(i), v0) is Reading),
    ensures
        placement(s, v0) == placement(s.take(i), v0),
    decreases s.len(),
{
    if i < s.len() {
        assert(s.drop_last().take(i) =~= s.take(i));
        lemma_placement_stops(s.drop_last(), i, v0);
    } else {
        assert(s.take(i) =~= s);
    }
}

/// The castling rights field read left to right, or the first character that is not a
/// right letter or `-`.
pub open spec fn castling_rights(s: Seq<char>) -> Result<u8, char>
    decreases s.len(),
{
    if s.len() == 0 {
        Ok(0)
    } else {
        match castling_rights(s.drop_last()) {
            Ok(c) => {
                let x = s.last();
                if x == 'K' {
                    Ok(c | 1)
                } else if x == 'Q' {
                    Ok(c | 2)
                } else if x == 'k' {
                    Ok(c | 4)
                } else if x == 'q' {
                    Ok(c | 8)
                } else if x == '-' {
                    Ok(c)
                } else {
                    Err(x)
                }
            },
            Err(e) => Err(e),
        }
    }
}

proof fn lemma_castling_stops(s: Seq<char>, i: int)
    requires
        0 <= i <= s.len(),
        castling_rights(s.take(i)) is Err,
    ensures
        castling_rights(s) == castling_rights(s.take(i)),
    decreases s.len(),
{
    if i < s.len() {
        assert(s.drop_last().take(i) =~= s.take(i));
        lemma_castling_stops(s.drop_last(), i);
    } else {
        assert(s.take(i) =~= s);
    }
}

proof fn lemma_castling_small(s: Seq<char>)
    ensures
        castling_rights(s) matches Ok(c) ==> c < 16,
        s.len() > 0 ==> (0u8 | 1u8) | 2u8 == 3u8 && (3u8 | 4u8) == 7u8 && (7u8 | 8u8) == 15u8,
    decreases s.len(),
{
    if s.len() > 0 {
        lemma_castling_small(s.drop_last());
        let c: u8 = match castling_rights(s.drop_last()) {
            Ok(c) => c,
            Err(_) => 0u8,
        };
        lemma_castling_bits(c, 0, 0, 0, 0, 0);
    }
}

/// Four-bit castling rights: setting a right keeps them under sixteen, non-zero rights
/// hold at least one right, and setting the rights one by one in the order K, Q, k, q
/// from nothing gives them back.
proof fn lemma_castling_bits(c: u8, r0: u8, r1: u8, r2: u8, r3: u8, r4: u8)
    ensures
        c < 16 ==> (c | 1) < 16 && (c | 2) < 16 && (c | 4) < 16 && (c | 8) < 16,
        c < 16 && c != 0 ==> (c & 1 != 0 || c & 2 != 0 || c & 4 != 0 || c & 8 != 0),
        (c < 16 && r0 == 0 && r1 == (if c & 1 != 0 { r0 | 1 } else { r0 })
            && r2 == (if c & 2 != 0 { r1 | 2 } else { r1 }) && r3 == (if c & 4 != 0 { r2 | 4 } else { r2 })
            && r4 == (if c & 8 != 0 { r3 | 8 } else { r3 })) ==> r4 == c,
        (0u8 | 1u8) | 2u8 == 3u8 && (3u8 | 4u8) == 7u8 && (7u8 | 8u8) == 15u8,
{
    assert((c < 16 ==> (c | 1) < 16 && (c | 2) < 16 && (c | 4) < 16 && (c | 8) < 16)
        && (c < 16 && c != 0 ==> (c & 1 != 0 || c & 2 != 0 || c & 4 != 0 || c & 8 != 0))
        && ((c < 16 && r0 == 0 && r1 == (if c & 1 != 0 { r0 | 1 } else { r0 })
            && r2 == (if c & 2 != 0 { r1 | 2 } else { r1 }) && r3 == (if c & 4 != 0 { r2 | 4 } else { r2 })
            && r4 == (if c & 8 != 0 { r3 | 8 } else { r3 })) ==> r4 == c)
        && (0u8 | 1u8) | 2u8 == 3u8 && (3u8 | 4u8) == 7u8 && (7u8 | 8u8) == 15u8) by (bit_vector);
}

/// Reads the castling rights field.
fn read_castling(field: &Vec<char>) -> (r: Result<u8, char>)
    ensures
        r == castling_rights(field@),
{
    let mut castling: u8 = 0;
    let mut i: usize = 0;
    while i < field.len()
        invariant
            0 <= i <= field@.len(),
            castling_rights(field@.take(i as int)) == Ok::<u8, char>(castling),
        decreases field@.len() - i,
    {
        let ch = field[i];
        proof {
            let t = field@.take(i as int + 1);
            assert(t.drop_last() =~= field@.take(i as int));
            assert(t.last() == ch);
        }
        if ch == 'K' {
            castling = castling | 1;
        } else if ch == 'Q' {
            castling = castling | 2;
        } else if ch == 'k' {
            castling = castling | 4;
        } else if ch == 'q' {
            castling = castling | 8;
        } else if ch == '-' {
        } else {
            proof {
                lemma_castling_stops(field@, i as int + 1);
            }
            return Err(ch);
        }
        i = i + 1;
    }
    assert(field@.take(field@.len() as int) =~= field@);
    Ok(castling)
}

/// The empty board that reading starts from.
pub open spec fn empty_view() -> PositionView {
    PositionView {
        pieces: Seq::new(12, |i: int| 0u64),
        colors: Seq::new(2, |i: int| 0u64),
        occupancy: 0,
        side: Color::White,
        castling: 0,
        en_passant: None,
        halfmove_clock: 0,
        fullmove: 1,
        hash: 0,
        hash_history: Seq::empty(),
        checks_given: Seq::new(2, |i: int| 0u8),
    }
}

/// The FEN `s` walks off the board while placing pieces (where reading panics).
pub open spec fn fen_overruns(s: Seq<char>) -> bool {
    let w = words(s);
    w.len() >= 4 && placement(w[0], empty_view()) is Overrun
}

/// The position a FEN describes, or the error message reading it gives.
pub open spec fn fen_spec(s: Seq<char>) -> Result<PositionView, Seq<char>> {
    let w = words(s);
    if w.len() < 4 {
        Err("FEN too short"@)
    } else {
        match placement(w[0], empty_view()) {
            Placement::BadPiece(c) => Err("Invalid piece char: "@.push(c)),
            Placement::Overrun => Err(Seq::empty()),
            Placement::Reading(_, _, v1) => {
                let c = w[1][0];
                if c != 'w' && c != 'b' {
                    Err("Invalid color char: "@.push(c))
                } else {
                    let side = if c == 'w' { Color::White } else { Color::Black };
                    let h1 = if side == Color::Black { v1.hash ^ SIDE_KEY } else { v1.hash };
                    let h2 = h1 ^ CASTLING_KEYS[0];
                    match castling_rights(w[2]) {
                        Err(x) => Err("Invalid castling char: "@.push(x)),
                        Ok(cr) => {
                            let h3 = h2 ^ CASTLING_KEYS[cr as int];
                            let sq = if w[3] != seq!['-'] { parse_square_spec(w[3]) } else { None };
                            let ep = match sq { Some(i) => Some(square_of(i)), None => None };
                            let h4 = match sq { Some(i) => h3 ^ EN_PASSANT_KEYS[i % 8], None => h3 };
                            let hm = if w.len() > 4 {
                                match parse_uint(w[4], 255) { Some(n) => n as u8, None => 0u8 }
                            } else {
                                0u8
                            };
                            let fm = if w.len() > 5 {
                                match parse_uint(w[5], 65535) { Some(n) => n as u16, None => 1u16 }
                            } else {
                                1u16
                            };
                            Ok(PositionView {
                                side,
                                castling: cr,
                                en_passant: ep,
                                halfmove_clock: hm,
                                fullmove: fm,
                                hash: h4,
                                hash_history: seq![h4],
                                ..v1
                            })
                        },
                    }
                }
            },
        }
    }
}

/// The outcome of reading, by its views.
pub open spec fn fen_result(r: Result<Position, String>) -> Result<PositionView, Seq<char>> {
    match r {
        Ok(p) => Ok(p@),
        Err(e) => Err(e@),
    }
}

/// The FEN's piece placement stays on the board and in range, so that it can be read.
pub fn fen_fits(fen: &str) -> (b: bool)
    ensures
        b == !fen_overruns(fen@),
{
    let cs = chars_of(fen);
    let parts = split_words(&cs);
    let ghost w = words(fen@);
    if parts.len() < 4 {
        return true;
    }
    let field = &parts[0];
    assert(field@ == w[0]);
    let ghost v0 = empty_view();
    let mut rank: i64 = 7;
    let mut file: i64 = 0;
    let mut i: usize = 0;
    while i < field.len()
        invariant
            0 <= i <= field@.len(),
            v0 == empty_view(),
            field@ == w[0],
            w == words(fen@),
            w.len() >= 4,
            -128 <= rank <= 7,
            0 <= file <= 127,
            placement(field@.take(i as int), v0) matches Placement::Reading(r, f, _) && r == rank && f == file,
        decreases field@.len() - i,
    {
        let ch = field[i];
        let ghost st = placement(field@.take(i as int), v0);
        proof {
            let t = field@.take(i as int + 1);
            assert(t.drop_last() =~= field@.take(i as int));
            assert(placement(t, v0) == place_step(st, ch));
            if !(placement(t, v0) is Reading) {
                lemma_placement_stops(field@, i as int + 1, v0);
            }
        }
        if ch == '/' {
            if rank - 1 < -128 {
                return false;
            }
            rank = rank - 1;
            file = 0;
        } else if '1' <= ch && ch <= '8' {
            let f = file + ((ch as u32) - 48) as i64;
            if f > 127 {
                return false;
            }
            file = f;
        } else {
            match Piece::from_char(ch) {
                None => {
                    return true;
                },
                Some(_) => {
                    if rank < 0 || rank * 8 + file >= 64 {
                        return false;
                    }
                    file = file + 1;
                },
            }
        }
        i = i + 1;
    }
    assert(field@.take(field@.len() as int) =~= field@);
    true
}

impl Position {
    /// Reads the piece placement field into `self`, or gives the first bad letter.
    fn read_placement(&mut self, field: &Vec<char>) -> (r: Option<char>)
        requires
            old(self)@ == empty_view(),
            !(placement(field@, empty_view()) is Overrun),
        ensures
            placement(field@, empty_view()) matches Placement::Reading(_, _, v) ==> r is None && final(self)@ == v,
            placement(field@, empty_view()) matches Placement::BadPiece(c) ==> r == Some(c),
            r is None ==> placement(field@, empty_view()) is Reading,
            final(self)@.castling == empty_view().castling,
            final(self)@.hash_history == empty_view().hash_history,
            final(self)@.side == empty_view().side,
            final(self)@.en_passant == empty_view().en_passant,
            final(self)@.halfmove_clock == empty_view().halfmove_clock,
            final(self)@.fullmove == empty_view().fullmove,
    {
        let ghost v0 = empty_view();
        let mut rank: i8 = 7;
        let mut file: i8 = 0;
        let mut i: usize = 0;
        while i < field.len()
            invariant
                0 <= i <= field@.len(),
                !(placement(field@, v0) is Overrun),
                v0 == empty_view(),
                file >= 0,
                placement(field@.take(i as int), v0) == Placement::Reading(rank as int, file as int, self@),
                self@.castling == v0.castling,
                self@.hash_history == v0.hash_history,
                self@.side == v0.side,
                self@.en_passant == v0.en_passant,
                self@.halfmove_clock == v0.halfmove_clock,
                self@.fullmove == v0.fullmove,
            decreases field@.len() - i,
        {
            let ch = field[i];
            let ghost st = placement(field@.take(i as int), v0);
            proof {
                let t = field@.take(i as int + 1);
                assert(t.drop_last() =~= field@.take(i as int));
                assert(placement(t, v0) == place_step(st, ch));
                if !(placement(t, v0) is Reading) {
                    lemma_placement_stops(field@, i as int + 1, v0);
                }
            }
            if ch == '/' {
                rank = rank - 1;
                file = 0;
            } else if '1' <= ch && ch <= '8' {
                file = file + ((ch as u32) - 48) as i8;
            } else {
                match Piece::from_char(ch) {
                    None => {
                        return Some(ch);
                    },
                    Some(piece) => {
                        let sq = Square::from_file_rank(file as u8, rank as u8);
                        self.put_piece(piece.color, piece.piece_type, sq);
                        file = file + 1;
                    },
                }
            }
            i = i + 1;
        }
        assert(field@.take(field@.len() as int) =~= field@);
        None
    }

    /// Parses a FEN string: piece placement, side to move, castling rights, en passant
    /// square and, when present, the halfmove clock and fullmove number (an unreadable
    /// clock counts as 0, an unreadable move number as 1).
    pub fn from_fen(fen: &str) -> (r: Result<Position, String>)
        requires
            !fen_overruns(fen@),
        ensures
            fen_result(r) == fen_spec(fen@),
    {
        let mut pos = Position {
            pieces: [0u64; 12],
            colors: [0u64; 2],
            occupancy: 0,
            side: Color::White,
            castling: 0,
            en_passant: None,
            halfmove_clock: 0,
            fullmove: 1,
            hash: 0,
            hash_history: Vec::new(),
            checks_given: [0u8; 2],
        };
        assert(pos@ == empty_view()) by {
            assert(pos.pieces@ =~= Seq::new(12, |i: int| 0u64));
            assert(pos.colors@ =~= Seq::new(2, |i: int| 0u64));
            assert(pos.checks_given@ =~= Seq::new(2, |i: int| 0u8));
            assert(pos.hash_history@ =~= Seq::<u64>::empty());
        }
        let cs = chars_of(fen);
        let parts = split_words(&cs);
        let ghost w = words(fen@);
        proof {
            lemma_words_nonempty(fen@);
        }
        if parts.len() < 4 {
            return Err("FEN too short".to_owned());
        }
        assert(parts@[0]@ == w[0] && parts@[1]@ == w[1] && parts@[2]@ == w[2] && parts@[3]@ == w[3]);

        // 1. Piece placement
        match pos.read_placement(&parts[0]) {
            Some(ch) => {
                return Err(message_with("Invalid piece char: ", ch));
            },
            None => {},
        }
        let ghost v1 = pos@;

        // 2. Side to move
        let c = parts[1][0];
        pos.side = match Color::try_from_char(c) {
            Some(side) => side,
            None => {
                return Err(message_with("Invalid color char: ", c));
            },
        };
        if pos.side == Color::Black {
            pos.hash = pos.hash ^ SIDE_KEY;
        }

        // 3. Castling rights
        pos.hash = pos.hash ^ CASTLING_KEYS[pos.castling as usize];
        pos.castling = match read_castling(&parts[2]) {
            Ok(cr) => cr,
            Err(ch) => {
                return Err(message_with("Invalid castling char: ", ch));
            },
        };
        proof {
            lemma_castling_small(parts@[2]@);
        }
        pos.hash = pos.hash ^ CASTLING_KEYS[pos.castling as usize];

        // 4. En passant
        let ep_field = &parts[3];
        let is_dash = ep_field.len() == 1 && ep_field[0] == '-';
        assert(is_dash <==> ep_field@ == seq!['-']) by {
            if ep_field@ == seq!['-'] {
                assert(ep_field@.len() == 1 && ep_field@[0] == '-');
            }
            if is_dash {
                assert(ep_field@ =~= seq!['-']);
            }
        }
        if !is_dash {
            let text = string_of(ep_field);
            match Square::from_str(text.as_str()) {
                Some(sq) => {
                    proof {
                        lemma_square_of(sq);
                    }
                    pos.hash = pos.hash ^ EN_PASSANT_KEYS[sq.file() as usize];
                    pos.en_passant = Some(sq);
                },
                None => {},
            }
        }

        // 5. Halfmove clock
        if parts.len() > 4 {
            pos.halfmove_clock = match parse_uint_chars(&parts[4], 255) {
                Some(n) => n as u8,
                None => 0,
            };
        }

        // 6. Fullmove number
        if parts.len() > 5 {
            pos.fullmove = match parse_uint_chars(&parts[5], 65535) {
                Some(n) => n as u16,
                None => 1,
            };
        }

        pos.hash_history.push(pos.hash);
        proof {
            assert(pos.hash_history@ =~= seq![pos.hash]);
        }
        Ok(pos)
    }
}

// ─── Writing a FEN ────────────────────────────────────────────────────────────

/// The digit of a run of empty squares.
pub open spec fn run_text(empty: int) -> Seq<char> {
    if empty > 0 { seq![(48 + empty) as char] } else { Seq::empty() }
}

/// The placement text of `rank` from `file` on, with `empty` empty squares pending.
pub open spec fn rank_text(v: PositionView, rank: int, file: int, empty: int) -> Seq<char>
    decreases 8 - file,
{
    if file >= 8 {
        run_text(empty)
    } else {
        match v.piece_at(rank * 8 + file) {
            Some(p) => run_text(empty) + seq![p.char_spec()] + rank_text(v, rank, file + 1, 0),
            None => rank_text(v, rank, file + 1, empty + 1),
        }
    }
}

/// The placement text of the ranks from `rank` down to the first, separated by `/`.
pub open spec fn ranks_text(v: PositionView, rank: int) -> Seq<char>
    decreases rank + 1,
{
    if rank < 0 {
        Seq::empty()
    } else {
        rank_text(v, rank, 0, 0) + (if rank > 0 { seq!['/'] } else { Seq::empty() }) + ranks_text(v, rank - 1)
    }
}

/// The castling rights field: `-`, or the letters of the rights held.
pub open spec fn castling_text(c: u8) -> Seq<char> {
    if c == 0 {
        seq!['-']
    } else {
        (if c & 1 != 0 { seq!['K'] } else { Seq::empty() })
            + (if c & 2 != 0 { seq!['Q'] } else { Seq::empty() })
            + (if c & 4 != 0 { seq!['k'] } else { Seq::empty() })
            + (if c & 8 != 0 { seq!['q'] } else { Seq::empty() })
    }
}

/// The name of square `i`, such as `e4`.
pub open spec fn square_text(i: int) -> Seq<char> {
    seq![(97 + i % 8) as char, (49 + i / 8) as char]
}

/// The FEN of a position.
pub open spec fn fen_text(v: PositionView) -> Seq<char> {
    ranks_text(v, 7) + seq![' ', if v.side == Color::White { 'w' } else { 'b' }, ' '] + castling_text(v.castling)
        + seq![' '] + (match v.en_passant { Some(sq) => square_text(sq.idx() as int), None => seq!['-'] })
        + seq![' '] + decimal(v.halfmove_clock as nat) + seq![' '] + decimal(v.fullmove as nat)
}

/// Pushes the name of a square.
fn push_square(out: &mut Vec<char>, sq: Square)
    ensures
        final(out)@ == old(out)@ + square_text(sq.idx() as int),
{
    let f = sq.file_char();
    let r = sq.rank_char();
    out.push(f);
    out.push(r);
    proof {
        assert(f == (97 + sq.idx() % 8) as char);
        assert(r == (49 + sq.idx() / 8) as char);
        assert(final(out)@ =~= old(out)@ + square_text(sq.idx() as int));
    }
}

impl Position {
    /// Appends the placement text of one rank.
    fn push_rank(&self, out: &mut Vec<char>, rank: u8)
        requires
            rank < 8,
        ensures
            final(out)@ == old(out)@ + rank_text(self@, rank as int, 0, 0),
    {
        let mut empty: u8 = 0;
        let mut file: u8 = 0;
        while file < 8
            invariant
                rank < 8,
                file <= 8,
                empty <= file,
                out@ + rank_text(self@, rank as int, file as int, empty as int) == old(out)@ + rank_text(self@, rank as int, 0, 0),
            decreases 8 - file,
        {
            let sq = Square::from_file_rank(file, rank);
            let ghost o0 = out@;
            match self.piece_on(sq) {
                Some(piece) => {
                    let ghost e0 = empty;
                    if empty > 0 {
                        out.push((48u8 + empty) as char);
                        empty = 0;
                    }
                    out.push(piece.to_char());
                    assert(out@ =~= o0 + run_text(e0 as int) + seq![piece.char_spec()]);
                },
                None => {
                    empty = empty + 1;
                },
            }
            file = file + 1;
        }
        if empty > 0 {
            out.push((48u8 + empty) as char);
        }
        assert(out@ =~= old(out)@ + rank_text(self@, rank as int, 0, 0));
    }

    /// Appends the placement field.
    fn push_placement(&self, fen: &mut Vec<char>)
        ensures
            final(fen)@ == old(fen)@ + ranks_text(self@, 7),
    {
        let mut k: u8 = 0;
        while k < 8
            invariant
                k <= 8,
                fen@ + ranks_text(self@, 7 - k) == old(fen)@ + ranks_text(self@, 7),
            decreases 8 - k,
        {
            let rank = 7 - k;
            let ghost f0 = fen@;
            self.push_rank(fen, rank);
            if rank > 0 {
                fen.push('/');
            }
            assert(fen@ + ranks_text(self@, 7 - (k + 1)) =~= f0 + ranks_text(self@, 7 - k));
            k = k + 1;
        }
        assert(fen@ =~= old(fen)@ + ranks_text(self@, 7));
    }

    /// Writes the position as a FEN string.
    pub fn to_fen(&self) -> (s: String)
        ensures
            s@ == fen_text(self@),
    {
        let mut fen: Vec<char> = Vec::new();
        self.push_placement(&mut fen);
        let ghost f1 = fen@;
        fen.push(' ');
        fen.push(self.side.to_char());
        fen.push(' ');
        push_castling(&mut fen, self.castling);
        let ghost f2 = fen@;
        fen.push(' ');
        match self.en_passant {
            Some(sq) => push_square(&mut fen, sq),
            None => fen.push('-'),
        }
        let ghost f3 = fen@;
        fen.push(' ');
        push_decimal(&mut fen, self.halfmove_clock as u32);
        fen.push(' ');
        push_decimal(&mut fen, self.fullmove as u32);
        assert(f1 == ranks_text(self@, 7));
        assert(f2 == f1 + seq![' ', if self.side == Color::White { 'w' } else { 'b' }, ' '] + castling_text(self.castling));
        assert(fen@ =~= fen_text(self@));
        string_of(&fen)
    }
}

/// Appends the castling rights field.
fn push_castling(fen: &mut Vec<char>, castling: u8)
    ensures
        final(fen)@ == old(fen)@ + castling_text(castling),
{
    if castling == 0 {
        fen.push('-');
    } else {
        let ghost f0 = fen@;
        if castling & 1 != 0 { fen.push('K'); }
        let ghost f1 = fen@;
        if castling & 2 != 0 { fen.push('Q'); }
        let ghost f2 = fen@;
        if castling & 4 != 0 { fen.push('k'); }
        let ghost f3 = fen@;
        if castling & 8 != 0 { fen.push('q'); }
        assert(f1 =~= f0 + (if castling & 1 != 0 { seq!['K'] } else { Seq::empty() }));
        assert(f2 =~= f1 + (if castling & 2 != 0 { seq!['Q'] } else { Seq::empty() }));
        assert(f3 =~= f2 + (if castling & 4 != 0 { seq!['k'] } else { Seq::empty() }));
        assert(fen@ =~= f3 + (if castling & 8 != 0 { seq!['q'] } else { Seq::empty() }));
    }
    assert(fen@ =~= old(fen)@ + castling_text(castling));
}

// ─── UCI text of a move ───────────────────────────────────────────────────────

/// The UCI text of a move: origin and destination squares, then the promotion letter.
pub open spec fn uci_text(m: Move) -> Seq<char> {
    square_text(m.from_idx()) + square_text(m.to_idx()) + match promo_of_flag(m.flag_spec()) {
        Some(pt) => seq![pt.char_spec()],
        None => Seq::empty(),
    }
}

impl Move {
    /// UCI string representation (e.g. "e2e4", "e7e8q").
    pub fn to_uci(self) -> (s: String)
        ensures
            s@ == uci_text(self),
    {
        let mut out: Vec<char> = Vec::new();
        push_square(&mut out, self.from());
        push_square(&mut out, self.to());
        match self.promotion_piece() {
            Some(pt) => out.push(pt.to_char()),
            None => {},
        }
        assert(out@ =~= uci_text(self));
        string_of(&out)
    }
}

// ─── The starting position ────────────────────────────────────────────────────

/// One character of word splitting.
pub open spec fn word_step(st: (Seq<Seq<char>>, Seq<char>), c: char) -> (Seq<Seq<char>>, Seq<char>) {
    let (done, cur) = st;
    if is_ws(c) {
        if cur.len() > 0 { (done.push(cur), Seq::empty()) } else { (done, Seq::empty()) }
    } else {
        (done, cur.push(c))
    }
}

/// Word splitting of `s` continued from the state `st`.
pub open spec fn words_from(st: (Seq<Seq<char>>, Seq<char>), s: Seq<char>) -> (Seq<Seq<char>>, Seq<char>)
    decreases s.len(),
{
    if s.len() == 0 { st } else { word_step(words_from(st, s.drop_last()), s.last()) }
}

/// Placement reading of `s` continued from the state `st`.
pub open spec fn placement_from(st: Placement, s: Seq<char>) -> Placement
    decreases s.len(),
{
    if s.len() == 0 { st } else { place_step(placement_from(st, s.drop_last()), s.last()) }
}

proof fn lemma_words_from(s: Seq<char>)
    ensures
        word_state(s) == words_from((Seq::empty(), Seq::empty()), s),
    decreases s.len(),
{
    if s.len() > 0 {
        lemma_words_from(s.drop_last());
    }
}

proof fn lemma_placement_from(s: Seq<char>, v0: PositionView)
    ensures
        placement(s, v0) == placement_from(Placement::Reading(7, 0, v0), s),
    decreases s.len(),
{
    if s.len() > 0 {
        lemma_placement_from(s.drop_last(), v0);
    }
}

proof fn lemma_words_concat(st: (Seq<Seq<char>>, Seq<char>), a: Seq<char>, b: Seq<char>)
    ensures
        words_from(st, a + b) == words_from(words_from(st, a), b),
    decreases b.len(),
{
    if b.len() == 0 {
        assert(a + b =~= a);
    } else {
        assert((a + b).drop_last() =~= a + b.drop_last());
        lemma_words_concat(st, a, b.drop_last());
    }
}

proof fn lemma_placement_concat(st: Placement, a: Seq<char>, b: Seq<char>)
    ensures
        placement_from(st, a + b) == placement_from(placement_from(st, a), b),
    decreases b.len(),
{
    if b.len() == 0 {
        assert(a + b =~= a);
    } else {
        assert((a + b).drop_last() =~= a + b.drop_last());
        lemma_placement_concat(st, a, b.drop_last());
    }
}

proof fn lemma_word_one(st: (Seq<Seq<char>>, Seq<char>), c: char)
    ensures
        words_from(st, seq![c]) == word_step(st, c),
{
    reveal_with_fuel(words_from, 2);
    assert(seq![c].drop_last() =~= Seq::<char>::empty());
}

proof fn lemma_place_one(st: Placement, c: char)
    ensures
        placement_from(st, seq![c]) == place_step(st, c),
{
    reveal_with_fuel(placement_from, 2);
    assert(seq![c].drop_last() =~= Seq::<char>::empty());
}

/// A run of letters without white space extends the word being read.
proof fn lemma_word_letters(st: (Seq<Seq<char>>, Seq<char>), x: Seq<char>)
    requires
        forall|i: int| 0 <= i < x.len() ==> !is_ws(#[trigger] x[i]),
    ensures
        words_from(st, x) == (st.0, st.1 + x),
    decreases x.len(),
{
    if x.len() == 0 {
        assert(st.1 + x =~= st.1);
    } else {
        lemma_word_letters(st, x.drop_last());
        assert(st.1 + x.drop_last() + seq![x.last()] =~= st.1 + x);
    }
}

/// A run of piece letters on one rank puts the pieces and moves along the files.
proof fn lemma_piece_run(r: int, f: int, v: PositionView, x: Seq<char>)
    requires
        0 <= r <= 7,
        0 <= f,
        f + x.len() <= 8,
        forall|i: int| 0 <= i < x.len() ==> (#[trigger] piece_of_char(x[i]) is Some && x[i] != '/' && !('1' <= x[i] <= '8')),
    ensures
        placement_from(Placement::Reading(r, f, v), x) matches Placement::Reading(r2, f2, _) && r2 == r && f2 == f + x.len(),
    decreases x.len(),
{
    if x.len() > 0 {
        lemma_piece_run(r, f, v, x.drop_last());
        assert(piece_of_char(x[x.len() - 1]) is Some);
    }
}

/// The FEN of the starting position reads without error.
#[verifier::rlimit(80)]
proof fn lemma_startpos_reads()
    ensures
        !fen_overruns(STARTPOS_FEN@),
        fen_spec(STARTPOS_FEN@) is Ok,
{
    reveal_strlit("rnbqkbnr/pppppppp/8/8/8/8/PPPPPPPP/RNBQKBNR w KQkq - 0 1");
    let back_b = seq!['r', 'n', 'b', 'q', 'k', 'b', 'n', 'r'];
    let pawns_b = seq!['p', 'p', 'p', 'p', 'p', 'p', 'p', 'p'];
    let pawns_w = seq!['P', 'P', 'P', 'P', 'P', 'P', 'P', 'P'];
    let back_w = seq!['R', 'N', 'B', 'Q', 'K', 'B', 'N', 'R'];
    let sl = seq!['/'];
    let e8 = seq!['8'];
    let board = back_b + sl + pawns_b + sl + e8 + sl + e8 + sl + e8 + sl + e8 + sl + pawns_w + sl + back_w;
    let sp = seq![' '];
    let w1 = seq!['w'];
    let w2 = seq!['K', 'Q', 'k', 'q'];
    let w3 = seq!['-'];
    let w4 = seq!['0'];
    let w5 = seq!['1'];
    let s = board + sp + w1 + sp + w2 + sp + w3 + sp + w4 + sp + w5;
    assert(STARTPOS_FEN@ =~= s);

    // The words.
    let e: (Seq<Seq<char>>, Seq<char>) = (Seq::empty(), Seq::empty());
    assert forall|i: int| 0 <= i < board.len() implies !is_ws(#[trigger] board[i]) by {}
    lemma_word_letters(e, board);
    let st1 = words_from(e, board);
    assert(st1.1 =~= board);
    lemma_words_concat(e, board, sp);
    lemma_word_one(st1, ' ');
    let st2 = words_from(e, board + sp);
    assert(st2.0 =~= seq![board]);
    assert(st2.1 =~= Seq::<char>::empty());
    lemma_word_letters(st2, w1);
    lemma_words_concat(e, board + sp, w1);
    lemma_words_concat(e, board + sp + w1, sp);
    let pre3 = words_from(e, board + sp + w1);
    assert(pre3.1 =~= w1);
    lemma_word_one(pre3, ' ');
    let st3 = words_from(e, board + sp + w1 + sp);
    assert(st3.0 =~= seq![board, w1]);
    assert(st3.1 =~= Seq::<char>::empty());
    lemma_word_letters(st3, w2);
    lemma_words_concat(e, board + sp + w1 + sp, w2);
    lemma_words_concat(e, board + sp + w1 + sp + w2, sp);
    let pre4 = words_from(e, board + sp + w1 + sp + w2);
    assert(pre4.1 =~= w2);
    lemma_word_one(pre4, ' ');
    let st4 = words_from(e, board + sp + w1 + sp + w2 + sp);
    assert(st4.0 =~= seq![board, w1, w2]);
    assert(st4.1 =~= Seq::<char>::empty());
    lemma_word_letters(st4, w3);
    lemma_words_concat(e, board + sp + w1 + sp + w2 + sp, w3);
    lemma_words_concat(e, board + sp + w1 + sp + w2 + sp + w3, sp);
    let pre5 = words_from(e, board + sp + w1 + sp + w2 + sp + w3);
    assert(pre5.1 =~= w3);
    lemma_word_one(pre5, ' ');
    let st5 = words_from(e, board + sp + w1 + sp + w2 + sp + w3 + sp);
    assert(st5.0 =~= seq![board, w1, w2, w3]);
    assert(st5.1 =~= Seq::<char>::empty());
    lemma_word_letters(st5, w4);
    lemma_words_concat(e, board + sp + w1 + sp + w2 + sp + w3 + sp, w4);
    lemma_words_concat(e, board + sp + w1 + sp + w2 + sp + w3 + sp + w4, sp);
    let pre6 = words_from(e, board + sp + w1 + sp + w2 + sp + w3 + sp + w4);
    assert(pre6.1 =~= w4);
    lemma_word_one(pre6, ' ');
    let st6 = words_from(e, board + sp + w1 + sp + w2 + sp + w3 + sp + w4 + sp);
    assert(st6.0 =~= seq![board, w1, w2, w3, w4]);
    assert(st6.1 =~= Seq::<char>::empty());
    lemma_word_letters(st6, w5);
    lemma_words_concat(e, board + sp + w1 + sp + w2 + sp + w3 + sp + w4 + sp, w5);
    let pre7 = words_from(e, s);
    assert(pre7.1 =~= w5);
    lemma_words_from(s);
    let w = words(s);
    assert(w =~= seq![board, w1, w2, w3, w4, w5]);

    // The placement.
    let v0 = empty_view();
    let p0 = Placement::Reading(7, 0, v0);
    lemma_placement_from(board, v0);
    lemma_startpos_rows(p0, back_b, pawns_b, pawns_w, back_w);
    assert(castling_rights(w2) == Ok::<u8, char>(15)) by {
        reveal_with_fuel(castling_rights, 5);
        assert(w2.drop_last() =~= seq!['K', 'Q', 'k']);
        assert(w2.drop_last().drop_last() =~= seq!['K', 'Q']);
        assert(w2.drop_last().drop_last().drop_last() =~= seq!['K']);
        assert(w2.drop_last().drop_last().drop_last().drop_last() =~= Seq::<char>::empty());
        lemma_castling_small(w2);
    }
}

/// A rank of eight piece letters then `/`.
proof fn lemma_row_slash(r: int, v: PositionView, x: Seq<char>)
    requires
        1 <= r <= 7,
        x.len() == 8,
        forall|i: int| 0 <= i < x.len() ==> (#[trigger] piece_of_char(x[i]) is Some && x[i] != '/' && !('1' <= x[i] <= '8')),
    ensures
        placement_from(Placement::Reading(r, 0, v), x + seq!['/']) matches Placement::Reading(r2, f2, _) && r2 == r - 1 && f2 == 0,
{
    let p = Placement::Reading(r, 0, v);
    lemma_piece_run(r, 0, v, x);
    lemma_placement_concat(p, x, seq!['/']);
    lemma_place_one(placement_from(p, x), '/');
}

/// An empty rank then `/`.
proof fn lemma_empty_slash(r: int, v: PositionView)
    requires
        1 <= r <= 7,
    ensures
        placement_from(Placement::Reading(r, 0, v), seq!['8', '/']) == Placement::Reading(r - 1, 0, v),
{
    let p = Placement::Reading(r, 0, v);
    lemma_placement_concat(p, seq!['8'], seq!['/']);
    assert(seq!['8'] + seq!['/'] =~= seq!['8', '/']);
    lemma_place_one(p, '8');
    lemma_place_one(Placement::Reading(r, 8, v), '/');
}

/// Continuing from a reading state at the start of a rank.
proof fn lemma_rank_step(p0: Placement, a: Seq<char>, b: Seq<char>, r: int)
    requires
        placement_from(p0, a) matches Placement::Reading(r1, f1, _) && r1 == r && f1 == 0,
        1 <= r <= 7,
        b == seq!['8', '/'] || (b.len() == 9 && b[8] == '/' && forall|i: int| 0 <= i < 8 ==>
            (#[trigger] piece_of_char(b[i]) is Some && b[i] != '/' && !('1' <= b[i] <= '8'))),
    ensures
        placement_from(p0, a + b) matches Placement::Reading(r2, f2, _) && r2 == r - 1 && f2 == 0,
{
    let v = placement_from(p0, a)->2;
    lemma_placement_concat(p0, a, b);
    if b == seq!['8', '/'] {
        lemma_empty_slash(r, v);
    } else {
        let x = b.take(8);
        assert(x + seq!['/'] =~= b);
        lemma_row_slash(r, v, x);
    }
}

/// Reading the ranks of the starting position never stops.
#[verifier::rlimit(60)]
proof fn lemma_startpos_rows(p0: Placement, back_b: Seq<char>, pawns_b: Seq<char>, pawns_w: Seq<char>, back_w: Seq<char>)
    requires
        p0 matches Placement::Reading(r, f, _) && r == 7 && f == 0,
        back_b == seq!['r', 'n', 'b', 'q', 'k', 'b', 'n', 'r'],
        pawns_b == seq!['p', 'p', 'p', 'p', 'p', 'p', 'p', 'p'],
        pawns_w == seq!['P', 'P', 'P', 'P', 'P', 'P', 'P', 'P'],
        back_w == seq!['R', 'N', 'B', 'Q', 'K', 'B', 'N', 'R'],
    ensures
        placement_from(p0, back_b + seq!['/'] + pawns_b + seq!['/'] + seq!['8'] + seq!['/'] + seq!['8'] + seq!['/']
            + seq!['8'] + seq!['/'] + seq!['8'] + seq!['/'] + pawns_w + seq!['/'] + back_w) is Reading,
{
    let sl = seq!['/'];
    let e = seq!['8', '/'];
    let r8 = back_b + sl;
    let r7 = pawns_b + sl;
    let r2 = pawns_w + sl;
    assert forall|i: int| 0 <= i < 8 implies (#[trigger] piece_of_char(r8[i]) is Some && r8[i] != '/' && !('1' <= r8[i] <= '8')) by {}
    assert forall|i: int| 0 <= i < 8 implies (#[trigger] piece_of_char(r7[i]) is Some && r7[i] != '/' && !('1' <= r7[i] <= '8')) by {}
    assert forall|i: int| 0 <= i < 8 implies (#[trigger] piece_of_char(r2[i]) is Some && r2[i] != '/' && !('1' <= r2[i] <= '8')) by {}
    assert forall|i: int| 0 <= i < 8 implies (#[trigger] piece_of_char(back_w[i]) is Some && back_w[i] != '/' && !('1' <= back_w[i] <= '8')) by {}
    assert(placement_from(p0, Seq::<char>::empty()) == p0);
    lemma_rank_step(p0, Seq::empty(), r8, 7);
    assert(Seq::<char>::empty() + r8 =~= r8);
    lemma_rank_step(p0, r8, r7, 6);
    lemma_rank_step(p0, r8 + r7, e, 5);
    lemma_rank_step(p0, r8 + r7 + e, e, 4);
    lemma_rank_step(p0, r8 + r7 + e + e, e, 3);
    lemma_rank_step(p0, r8 + r7 + e + e + e, e, 2);
    lemma_rank_step(p0, r8 + r7 + e + e + e + e, r2, 1);
    let a = r8 + r7 + e + e + e + e + r2;
    let v = placement_from(p0, a)->2;
    lemma_piece_run(0, 0, v, back_w);
    lemma_placement_concat(p0, a, back_w);
    assert(a + back_w =~= back_b + seq!['/'] + pawns_b + seq!['/'] + seq!['8'] + seq!['/'] + seq!['8'] + seq!['/']
        + seq!['8'] + seq!['/'] + seq!['8'] + seq!['/'] + pawns_w + seq!['/'] + back_w);
}

impl Position {
    /// Load the standard starting position.
    pub fn startpos() -> (p: Position)
        ensures
            fen_spec(STARTPOS_FEN@) == Ok::<PositionView, Seq<char>>(p@),
    {
        proof {
            lemma_startpos_reads();
        }
        let r = Position::from_fen(STARTPOS_FEN);
        r.unwrap()
    }
}

// ─── Reading back what was written ────────────────────────────────────────────

/// The castling field written for rights `c` is one word, and reads back as `c`.
proof fn lemma_castling_text(c: u8)
    requires
        c < 16,
    ensures
        castling_text(c).len() > 0,
        forall|i: int| 0 <= i < castling_text(c).len() ==> !is_ws(#[trigger] castling_text(c)[i]),
        castling_rights(castling_text(c)) == Ok::<u8, char>(c),
{
    if c == 0 {
        assert(seq!['-'].drop_last() =~= Seq::<char>::empty());
        reveal_with_fuel(castling_rights, 2);
    } else {
        let t1 = if c & 1 != 0 { seq!['K'] } else { Seq::<char>::empty() };
        let t2 = if c & 2 != 0 { seq!['Q'] } else { Seq::<char>::empty() };
        let t4 = if c & 4 != 0 { seq!['k'] } else { Seq::<char>::empty() };
        let t8 = if c & 8 != 0 { seq!['q'] } else { Seq::<char>::empty() };
        let e = Seq::<char>::empty();
        assert(castling_rights(e) == Ok::<u8, char>(0u8));
        let r0: u8 = 0;
        lemma_castling_push(e, c & 1 != 0, 'K', 1);
        assert(e + t1 =~= t1);
        let r1: u8 = if c & 1 != 0 { r0 | 1 } else { r0 };
        lemma_castling_push(t1, c & 2 != 0, 'Q', 2);
        let r2: u8 = if c & 2 != 0 { r1 | 2 } else { r1 };
        lemma_castling_push(t1 + t2, c & 4 != 0, 'k', 4);
        let r3: u8 = if c & 4 != 0 { r2 | 4 } else { r2 };
        lemma_castling_push(t1 + t2 + t4, c & 8 != 0, 'q', 8);
        let r4: u8 = if c & 8 != 0 { r3 | 8 } else { r3 };
        lemma_castling_bits(c, r0, r1, r2, r3, r4);
        assert(castling_text(c) == t1 + t2 + t4 + t8);
        assert(castling_rights(castling_text(c)) == Ok::<u8, char>(r4));
        let t = castling_text(c);
        assert forall|i: int| 0 <= i < t.len() implies !is_ws(#[trigger] t[i]) by {
            assert(t[i] == 'K' || t[i] == 'Q' || t[i] == 'k' || t[i] == 'q');
        }
    }
}

/// Reading one more castling letter, or none.
proof fn lemma_castling_push(s: Seq<char>, on: bool, x: char, bit: u8)
    requires
        castling_rights(s) is Ok,
        (x == 'K' && bit == 1) || (x == 'Q' && bit == 2) || (x == 'k' && bit == 4) || (x == 'q' && bit == 8),
    ensures
        castling_rights(s + (if on { seq![x] } else { Seq::<char>::empty() })) == Ok::<u8, char>(
            if on { castling_rights(s)->Ok_0 | bit } else { castling_rights(s)->Ok_0 }),
{
    if on {
        assert((s + seq![x]).drop_last() =~= s);
        assert((s + seq![x]).last() == x);
    } else {
        assert(s + Seq::<char>::empty() =~= s);
    }
}

/// The decimal text of `n` is a non-empty run of digits worth `n`.
proof fn lemma_decimal_digits(n: nat)
    ensures
        decimal(n).len() > 0,
        all_digits(decimal(n)),
        digits_value(decimal(n)) == n,
    decreases n,
{
    if n >= 10 {
        lemma_decimal_digits(n / 10);
        let s = decimal(n / 10);
        let d = (48 + n % 10) as char;
        assert(decimal(n) == s.push(d));
        assert(decimal(n).drop_last() =~= s);
        assert(decimal(n).last() == d);
        assert(d as int - '0' as int == n % 10);
        assert(n == (n / 10) * 10 + n % 10);
        assert(digits_value(decimal(n)) == digits_value(s) * 10 + (d as int - '0' as int));
        assert(digits_value(s) == n / 10);
        assert forall|i: int| 0 <= i < decimal(n).len() implies is_digit(#[trigger] decimal(n)[i]) by {
            if i < s.len() {
                assert(decimal(n)[i] == s[i]);
            }
        }
    } else {
        let d = (48 + n) as char;
        assert(decimal(n).drop_last() =~= Seq::<char>::empty());
        assert(decimal(n).last() == d);
        assert(d as int - '0' as int == n);
        assert(digits_value(Seq::<char>::empty()) == 0);
        assert(digits_value(decimal(n)) == digits_value(Seq::<char>::empty()) * 10 + (d as int - '0' as int));
    }
}

/// Reading the decimal text of `n`, when `n` is at most `max`, gives `n`.
proof fn lemma_decimal_reads(n: nat, max: int)
    requires
        n <= max,
    ensures
        parse_uint(decimal(n), max) == Some(n as int),
        decimal(n).len() > 0,
        forall|i: int| 0 <= i < decimal(n).len() ==> !is_ws(#[trigger] decimal(n)[i]),
{
    lemma_decimal_digits(n);
    let d = decimal(n);
    assert(is_digit(d[0]));
    assert(unsigned_digits(d) == d);
    assert forall|i: int| 0 <= i < d.len() implies !is_ws(#[trigger] d[i]) by {
        assert(is_digit(d[i]));
    }
}

/// No white space in the placement text of a rank.
proof fn lemma_rank_text_plain(v: PositionView, rank: int, file: int, empty: int)
    requires
        0 <= empty <= file <= 8,
    ensures
        forall|i: int| 0 <= i < rank_text(v, rank, file, empty).len()
            ==> !is_ws(#[trigger] rank_text(v, rank, file, empty)[i]),
    decreases 8 - file,
{
    let t = rank_text(v, rank, file, empty);
    let r = run_text(empty);
    assert forall|i: int| 0 <= i < r.len() implies !is_ws(#[trigger] r[i]) by {
        assert(r[i] == (48 + empty) as char);
    }
    if file < 8 {
        match v.piece_at(rank * 8 + file) {
            Some(p) => {
                lemma_rank_text_plain(v, rank, file + 1, 0);
                let rest = rank_text(v, rank, file + 1, 0);
                let pc = p.char_spec();
                assert(!is_ws(pc)) by {
                    match p.piece_type {
                        PieceType::Pawn => {},
                        PieceType::Knight => {},
                        PieceType::Bishop => {},
                        PieceType::Rook => {},
                        PieceType::Queen => {},
                        PieceType::King => {},
                    }
                }
                assert(t == r + seq![pc] + rest);
                assert forall|i: int| 0 <= i < t.len() implies !is_ws(#[trigger] t[i]) by {
                    if i < r.len() {
                        assert(t[i] == r[i]);
                    } else if i == r.len() {
                        assert(t[i] == pc);
                    } else {
                        assert(t[i] == rest[i - r.len() - 1]);
                    }
                }
            },
            None => {
                lemma_rank_text_plain(v, rank, file + 1, empty + 1);
                assert(t == rank_text(v, rank, file + 1, empty + 1));
            },
        }
    } else {
        assert(t == r);
    }
}

/// No white space in the placement text of the ranks from `rank` down.
proof fn lemma_ranks_text_plain(v: PositionView, rank: int)
    ensures
        forall|i: int| 0 <= i < ranks_text(v, rank).len() ==> !is_ws(#[trigger] ranks_text(v, rank)[i]),
        rank > 0 ==> ranks_text(v, rank).len() > 0,
    decreases rank + 1,
{
    if rank >= 0 {
        lemma_rank_text_plain(v, rank, 0, 0);
        lemma_ranks_text_plain(v, rank - 1);
        let a = rank_text(v, rank, 0, 0);
        let b = if rank > 0 { seq!['/'] } else { Seq::<char>::empty() };
        let c = ranks_text(v, rank - 1);
        let t = ranks_text(v, rank);
        assert(t == a + b + c);
        assert forall|i: int| 0 <= i < t.len() implies !is_ws(#[trigger] t[i]) by {
            if i < a.len() {
                assert(t[i] == a[i]);
            } else if i < a.len() + b.len() {
                assert(t[i] == b[i - a.len()]);
            } else {
                assert(t[i] == c[i - a.len() - b.len()]);
            }
        }
    }
}

/// The FEN letter of a piece reads back as that piece.
proof fn lemma_piece_char(p: Piece)
    ensures
        piece_of_char(p.char_spec()) == Some(p),
        p.char_spec() != '/',
        !('1' <= p.char_spec() <= '8'),
{
    match p.piece_type {
        PieceType::Pawn => {},
        PieceType::Knight => {},
        PieceType::Bishop => {},
        PieceType::Rook => {},
        PieceType::Queen => {},
        PieceType::King => {},
    }
}

/// Reading the digit of a run of empty squares moves along the files.
proof fn lemma_run_reads(rank: int, file: int, empty: int, u: PositionView)
    requires
        0 <= empty <= file <= 8,
    ensures
        placement_from(Placement::Reading(rank, file - empty, u), run_text(empty)) == Placement::Reading(rank, file, u),
{
    let st = Placement::Reading(rank, file - empty, u);
    if empty > 0 {
        let d = (48 + empty) as char;
        lemma_place_one(st, d);
        assert(d as int - '0' as int == empty);
    } else {
        assert(run_text(empty) =~= Seq::<char>::empty());
    }
}

/// The squares reading has passed on reaching `file` of `rank`: the ranks above, and the
/// files of `rank` before `file`.
pub open spec fn read_before(rank: int, file: int, s: int) -> bool {
    s >= (rank + 1) * 8 || (rank * 8 <= s && s < rank * 8 + file)
}

/// The board `u` read so far is well-formed and holds the pieces of `v` on the squares
/// passed, and nothing elsewhere.
pub open spec fn board_read(u: PositionView, v: PositionView, rank: int, file: int) -> bool {
    &&& bits_wf(u)
    &&& forall|i: int, s: int| 0 <= i < 12 && 0 <= s < 64 ==>
        (#[trigger] has_bit(u.pieces[i], s) <==> (read_before(rank, file, s) && has_bit(v.pieces[i], s)))
}

/// Which piece bitboards of a well-formed position hold a square.
proof fn lemma_piece_bits(v: PositionView, s: int)
    requires
        v.wf(),
        0 <= s < 64,
    ensures
        v.piece_at(s) is None ==> forall|i: int| 0 <= i < 12 ==> !#[trigger] has_bit(v.pieces[i], s),
        v.piece_at(s) matches Some(p) ==> forall|i: int| 0 <= i < 12 ==>
            (#[trigger] has_bit(v.pieces[i], s) <==> i == pidx(p.color, p.piece_type)),
{
    lemma_wf_bits(v);
    assert(square_wf(v, s));
    let b = v.pieces;
    assert forall|i: int| 0 <= i < 12 implies (#[trigger] has_bit(b[i], s) ==> v.piece_at(s) is Some) by {
        assert(i == 0 || i == 1 || i == 2 || i == 3 || i == 4 || i == 5 || i == 6 || i == 7 || i == 8
            || i == 9 || i == 10 || i == 11);
    }
    match v.piece_at(s) {
        Some(p) => {
            let k = pidx(p.color, p.piece_type);
            assert(has_bit(b[k], s));
            assert forall|i: int| 0 <= i < 12 implies (#[trigger] has_bit(b[i], s) <==> i == k) by {
                if i < k {
                    assert(!(has_bit(b[i], s) && has_bit(b[k], s)));
                } else if i > k {
                    assert(!(has_bit(b[k], s) && has_bit(b[i], s)));
                }
            }
        },
        None => {},
    }
}

/// Passing empty squares keeps what was read.
proof fn lemma_read_skip(u: PositionView, v: PositionView, rank: int, f0: int, f1: int)
    requires
        v.wf(),
        board_read(u, v, rank, f0),
        0 <= rank <= 7,
        0 <= f0 <= f1 <= 8,
        forall|s: int| rank * 8 + f0 <= s < rank * 8 + f1 ==> (#[trigger] v.piece_at(s)) is None,
    ensures
        board_read(u, v, rank, f1),
{
    assert forall|i: int, s: int| 0 <= i < 12 && 0 <= s < 64 implies
        (#[trigger] has_bit(u.pieces[i], s) <==> (read_before(rank, f1, s) && has_bit(v.pieces[i], s))) by {
        if rank * 8 + f0 <= s < rank * 8 + f1 {
            assert(v.piece_at(s) is None);
            lemma_piece_bits(v, s);
        }
    }
}

/// Reading the piece on the next square puts it on the board read so far.
proof fn lemma_read_put(u: PositionView, v: PositionView, rank: int, f: int, p: Piece)
    requires
        v.wf(),
        board_read(u, v, rank, f),
        0 <= rank <= 7,
        0 <= f < 8,
        v.piece_at(rank * 8 + f) == Some(p),
    ensures
        board_read(u.put(p.color, p.piece_type, rank * 8 + f), v, rank, f + 1),
{
    broadcast use lemma_put_bit;
    let sq = rank * 8 + f;
    let k = pidx(p.color, p.piece_type);
    let w = u.put(p.color, p.piece_type, sq);
    assert(square_wf(u, sq));
    assert forall|i: int| 0 <= i < 12 implies !#[trigger] has_bit(u.pieces[i], sq) by {}
    lemma_put_keeps_wf(u, p.color, p.piece_type, sq);
    lemma_piece_bits(v, sq);
    assert forall|i: int, s: int| 0 <= i < 12 && 0 <= s < 64 implies
        (#[trigger] has_bit(w.pieces[i], s) <==> (read_before(rank, f + 1, s) && has_bit(v.pieces[i], s))) by {
        if i == k {
            assert(has_bit(w.pieces[i], s) == (has_bit(u.pieces[i], s) || s == sq));
        } else {
            assert(w.pieces[i] == u.pieces[i]);
        }
        if s == sq {
            assert(has_bit(v.pieces[i], s) <==> i == k);
        }
    }
}

/// Reading the placement text of a rank, with `empty` empty squares pending, ends at the
/// end of that rank, with the rank's pieces on the board read.
proof fn lemma_rank_reads(v: PositionView, rank: int, file: int, empty: int, u: PositionView)
    requires
        v.wf(),
        0 <= rank <= 7,
        0 <= empty <= file <= 8,
        board_read(u, v, rank, file - empty),
        forall|s: int| rank * 8 + file - empty <= s < rank * 8 + file ==> (#[trigger] v.piece_at(s)) is None,
    ensures
        placement_from(Placement::Reading(rank, file - empty, u), rank_text(v, rank, file, empty))
            matches Placement::Reading(r2, f2, u2) && r2 == rank && f2 == 8 && board_read(u2, v, rank, 8),
    decreases 8 - file,
{
    let st = Placement::Reading(rank, file - empty, u);
    let t = rank_text(v, rank, file, empty);
    let r = run_text(empty);
    lemma_run_reads(rank, file, empty, u);
    lemma_read_skip(u, v, rank, file - empty, file);
    if file < 8 {
        match v.piece_at(rank * 8 + file) {
            Some(p) => {
                let pc = p.char_spec();
                let rest = rank_text(v, rank, file + 1, 0);
                assert(t == r + seq![pc] + rest);
                lemma_piece_char(p);
                lemma_placement_concat(st, r + seq![pc], rest);
                lemma_placement_concat(st, r, seq![pc]);
                lemma_place_one(Placement::Reading(rank, file, u), pc);
                let u2 = u.put(p.color, p.piece_type, rank * 8 + file);
                assert(placement_from(st, r + seq![pc]) == Placement::Reading(rank, file + 1, u2));
                lemma_read_put(u, v, rank, file, p);
                lemma_rank_reads(v, rank, file + 1, 0, u2);
            },
            None => {
                assert(t == rank_text(v, rank, file + 1, empty + 1));
                assert forall|s: int| rank * 8 + file + 1 - (empty + 1) <= s < rank * 8 + file + 1
                    implies (#[trigger] v.piece_at(s)) is None by {
                    if s < rank * 8 + file {
                        assert(rank * 8 + file - empty <= s);
                    }
                }
                lemma_rank_reads(v, rank, file + 1, empty + 1, u);
            },
        }
    } else {
        assert(t == r);
    }
}

/// Reading the placement text of the ranks from `rank` down, from the start of that rank,
/// never stops, and ends with every piece of `v` on the board read.
proof fn lemma_ranks_read(v: PositionView, rank: int, u: PositionView)
    requires
        v.wf(),
        0 <= rank <= 7,
        board_read(u, v, rank, 0),
    ensures
        placement_from(Placement::Reading(rank, 0, u), ranks_text(v, rank)) matches Placement::Reading(_, _, u2)
            && board_read(u2, v, 0, 8),
    decreases rank + 1,
{
    let st = Placement::Reading(rank, 0, u);
    let a = rank_text(v, rank, 0, 0);
    let b = if rank > 0 { seq!['/'] } else { Seq::<char>::empty() };
    let c = ranks_text(v, rank - 1);
    assert(ranks_text(v, rank) == a + b + c);
    lemma_placement_concat(st, a + b, c);
    lemma_placement_concat(st, a, b);
    lemma_rank_reads(v, rank, 0, 0, u);
    let u2 = placement_from(st, a)->2;
    if rank > 0 {
        lemma_place_one(placement_from(st, a), '/');
        assert(placement_from(st, a + b) == Placement::Reading(rank - 1, 0, u2));
        assert forall|i: int, s: int| 0 <= i < 12 && 0 <= s < 64 implies
            (#[trigger] has_bit(u2.pieces[i], s) <==> (read_before(rank - 1, 0, s) && has_bit(v.pieces[i], s))) by {
            assert(read_before(rank, 8, s) == read_before(rank - 1, 0, s));
        }
        lemma_ranks_read(v, rank - 1, u2);
    } else {
        assert(a + b =~= a);
        assert(c =~= Seq::<char>::empty());
    }
}

/// Reading starts from an empty board, which has read nothing of `v`.
proof fn lemma_read_start(v: PositionView)
    ensures
        board_read(empty_view(), v, 7, 0),
{
    let e = empty_view();
    lemma_zero_bits();
    assert forall|t: int| 0 <= t < 64 implies #[trigger] square_wf(e, t) by {
        assert forall|i: int| 0 <= i < 12 implies !#[trigger] has_bit(e.pieces[i], t) by {
            assert(e.pieces[i] == 0u64);
        }
        assert(e.colors[0] == 0u64 && e.colors[1] == 0u64);
    }
    assert forall|i: int, s: int| 0 <= i < 12 && 0 <= s < 64 implies
        (#[trigger] has_bit(e.pieces[i], s) <==> (read_before(7, 0, s) && has_bit(v.pieces[i], s))) by {
        assert(e.pieces[i] == 0u64);
    }
}

/// A board that has read all of a well-formed `v` holds its bitboards.
proof fn lemma_read_all(u: PositionView, v: PositionView)
    requires
        v.wf(),
        board_read(u, v, 0, 8),
    ensures
        u.pieces == v.pieces,
        u.colors == v.colors,
        u.occupancy == v.occupancy,
{
    lemma_wf_bits(v);
    assert forall|i: int| 0 <= i < 12 implies u.pieces[i] == v.pieces[i] by {
        assert forall|s: int| 0 <= s < 64 implies has_bit(u.pieces[i], s) == has_bit(v.pieces[i], s) by {
            assert(read_before(0, 8, s));
        }
        lemma_bits_ext(u.pieces[i], v.pieces[i]);
    }
    assert(u.pieces =~= v.pieces);
    assert forall|s: int| 0 <= s < 64 implies has_bit(u.colors[0], s) == has_bit(v.colors[0], s)
        && has_bit(u.colors[1], s) == has_bit(v.colors[1], s) by {
        assert(square_wf(u, s));
        assert(square_wf(v, s));
    }
    lemma_bits_ext(u.colors[0], v.colors[0]);
    lemma_bits_ext(u.colors[1], v.colors[1]);
    assert(u.colors =~= v.colors);
    assert forall|s: int| 0 <= s < 64 implies has_bit(u.occupancy, s) == has_bit(v.occupancy, s) by {
        assert(square_wf(u, s));
        assert(square_wf(v, s));
    }
    lemma_bits_ext(u.occupancy, v.occupancy);
}

/// A word followed by a space is split off as one more word.
proof fn lemma_words_field(d: Seq<Seq<char>>, x: Seq<char>)
    requires
        x.len() > 0,
        forall|i: int| 0 <= i < x.len() ==> !is_ws(#[trigger] x[i]),
    ensures
        words_from((d, Seq::<char>::empty()), x + seq![' ']) == (d.push(x), Seq::<char>::empty()),
{
    let st = (d, Seq::<char>::empty());
    lemma_words_concat(st, x, seq![' ']);
    lemma_word_letters(st, x);
    assert(Seq::<char>::empty() + x =~= x);
    lemma_word_one((d, x), ' ');
}

/// Six words joined by single spaces split back into those words.
proof fn lemma_six_words(f0: Seq<char>, f1: Seq<char>, f2: Seq<char>, f3: Seq<char>, f4: Seq<char>, f5: Seq<char>)
    requires
        f0.len() > 0 && f1.len() > 0 && f2.len() > 0 && f3.len() > 0 && f4.len() > 0 && f5.len() > 0,
        forall|i: int| 0 <= i < f0.len() ==> !is_ws(#[trigger] f0[i]),
        forall|i: int| 0 <= i < f1.len() ==> !is_ws(#[trigger] f1[i]),
        forall|i: int| 0 <= i < f2.len() ==> !is_ws(#[trigger] f2[i]),
        forall|i: int| 0 <= i < f3.len() ==> !is_ws(#[trigger] f3[i]),
        forall|i: int| 0 <= i < f4.len() ==> !is_ws(#[trigger] f4[i]),
        forall|i: int| 0 <= i < f5.len() ==> !is_ws(#[trigger] f5[i]),
    ensures
        words(f0 + seq![' '] + f1 + seq![' '] + f2 + seq![' '] + f3 + seq![' '] + f4 + seq![' '] + f5)
            == seq![f0, f1, f2, f3, f4, f5],
{
    let sp = seq![' '];
    let e: (Seq<Seq<char>>, Seq<char>) = (Seq::empty(), Seq::empty());
    let a1 = f0 + sp;
    let a2 = a1 + (f1 + sp);
    let a3 = a2 + (f2 + sp);
    let a4 = a3 + (f3 + sp);
    let a5 = a4 + (f4 + sp);
    let s = a5 + f5;
    lemma_words_field(Seq::empty(), f0);
    let d1 = Seq::<Seq<char>>::empty().push(f0);
    lemma_words_concat(e, a1, f1 + sp);
    lemma_words_field(d1, f1);
    let d2 = d1.push(f1);
    lemma_words_concat(e, a2, f2 + sp);
    lemma_words_field(d2, f2);
    let d3 = d2.push(f2);
    lemma_words_concat(e, a3, f3 + sp);
    lemma_words_field(d3, f3);
    let d4 = d3.push(f3);
    lemma_words_concat(e, a4, f4 + sp);
    lemma_words_field(d4, f4);
    let d5 = d4.push(f4);
    lemma_words_concat(e, a5, f5);
    lemma_word_letters((d5, Seq::<char>::empty()), f5);
    assert(Seq::<char>::empty() + f5 =~= f5);
    lemma_words_from(s);
    assert(s =~= f0 + sp + f1 + sp + f2 + sp + f3 + sp + f4 + sp + f5);
    assert(d5.push(f5) =~= seq![f0, f1, f2, f3, f4, f5]);
}

/// FEN round trip: the FEN written for a position reads without error, and reading it
/// gives back the position's pieces on every square, side to move, castling rights, en
/// passant square, halfmove clock and move number.
pub proof fn lemma_fen_roundtrip(v: PositionView)
    requires
        v.wf(),
    ensures
        words(fen_text(v)) == seq![
            ranks_text(v, 7),
            seq![if v.side == Color::White { 'w' } else { 'b' }],
            castling_text(v.castling),
            match v.en_passant { Some(sq) => square_text(sq.idx() as int), None => seq!['-'] },
            decimal(v.halfmove_clock as nat),
            decimal(v.fullmove as nat),
        ],
        !fen_overruns(fen_text(v)),
        fen_spec(fen_text(v)) matches Ok(w) && {
            &&& w.pieces == v.pieces
            &&& w.colors == v.colors
            &&& w.occupancy == v.occupancy
            &&& w.side == v.side
            &&& w.castling == v.castling
            &&& w.en_passant == v.en_passant
            &&& w.halfmove_clock == v.halfmove_clock
            &&& w.fullmove == v.fullmove
        },
{
    let f3 = match v.en_passant { Some(sq) => square_text(sq.idx() as int), None => seq!['-'] };
    lemma_placement_from(ranks_text(v, 7), empty_view());
    lemma_read_start(v);
    lemma_ranks_read(v, 7, empty_view());
    let u = placement(ranks_text(v, 7), empty_view())->2;
    lemma_read_all(u, v);
    lemma_fen_text_words(v);
    lemma_castling_text(v.castling);
    lemma_decimal_reads(v.halfmove_clock as nat, 255);
    lemma_decimal_reads(v.fullmove as nat, 65535);
    let w = words(fen_text(v));
    assert(w[3] == f3);
    match v.en_passant {
        Some(sq) => {
            let i = sq.idx() as int;
            assert(square_text(i) =~= square_name(i));
            lemma_square_name_roundtrip(i);
            lemma_square_of(sq);
            assert(f3.len() == 2);
            assert(f3 != seq!['-']);
        },
        None => {},
    }
}

/// The FEN written for a position splits into its six fields.
proof fn lemma_fen_text_words(v: PositionView)
    requires
        v.wf(),
    ensures
        words(fen_text(v)) == seq![
            ranks_text(v, 7),
            seq![if v.side == Color::White { 'w' } else { 'b' }],
            castling_text(v.castling),
            match v.en_passant { Some(sq) => square_text(sq.idx() as int), None => seq!['-'] },
            decimal(v.halfmove_clock as nat),
            decimal(v.fullmove as nat),
        ],
{
    let f0 = ranks_text(v, 7);
    let f1 = seq![if v.side == Color::White { 'w' } else { 'b' }];
    let f2 = castling_text(v.castling);
    let f3 = match v.en_passant { Some(sq) => square_text(sq.idx() as int), None => seq!['-'] };
    let f4 = decimal(v.halfmove_clock as nat);
    let f5 = decimal(v.fullmove as nat);
    let sp = seq![' '];
    lemma_ranks_text_plain(v, 7);
    lemma_castling_text(v.castling);
    lemma_decimal_reads(v.halfmove_clock as nat, 255);
    lemma_decimal_reads(v.fullmove as nat, 65535);
    assert forall|i: int| 0 <= i < f1.len() implies !is_ws(#[trigger] f1[i]) by {}
    assert forall|i: int| 0 <= i < f3.len() implies !is_ws(#[trigger] f3[i]) by {
        match v.en_passant {
            Some(sq) => {
                assert(f3[i] == (97 + sq.idx() % 8) as char || f3[i] == (49 + sq.idx() / 8) as char);
            },
            None => {},
        }
    }
    lemma_six_words(f0, f1, f2, f3, f4, f5);
    assert(fen_text(v) =~= f0 + sp + f1 + sp + f2 + sp + f3 + sp + f4 + sp + f5);
}

} // verus!
