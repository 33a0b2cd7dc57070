//! Moves and the complete game state, with make / unmake.
use vstd::prelude::*;
use crate::board::bitboard::{has_bit, lsb, popcount, popcount_spec, lemma_or_bits, lemma_and_bits, lemma_bits_ext};
use crate::board::color::Color;
use crate::board::piece::{Piece, PieceType, piece_type_of};
use crate::board::square::{Square, square_of, lemma_square_of};
use crate::board::zobrist::{
    CASTLING_KEYS, EN_PASSANT_KEYS, PIECE_KEYS,
    SIDE_KEY,
};

verus! {

pub const STARTPOS_FEN: &'static str = "rnbqkbnr/pppppppp/8/8/8/8/PPPPPPPP/RNBQKBNR w KQkq - 0 1";

// ─── Move representation ──────────────────────────────────────────────────────

/// A compact move encoded in a u32.
///
/// Bits:
///  0– 5: from square (0–63)
///  6–11: to square   (0–63)
/// 12–15: move flag (see MoveFlag)
#[derive(Debug, Clone, Copy, PartialEq, Eq, Hash, Structural)]
pub struct Move(pub u32);

#[derive(Debug, Clone, Copy, PartialEq, Eq, Structural)]
pub enum MoveFlag {
    Normal,
    DoublePush,
    CastleKing,
    CastleQueen,
    EnPassant,
    PromoteKnight,
    PromoteBishop,
    PromoteRook,
    PromoteQueen,
}

impl MoveFlag {
    /// The numeric code of the flag (Normal = 0 .. PromoteQueen = 8).
    pub open spec fn code_spec(self) -> u32 {
        match self {
            MoveFlag::Normal => 0,
            MoveFlag::DoublePush => 1,
            MoveFlag::CastleKing => 2,
            MoveFlag::CastleQueen => 3,
            MoveFlag::EnPassant => 4,
            MoveFlag::PromoteKnight => 5,
            MoveFlag::PromoteBishop => 6,
            MoveFlag::PromoteRook => 7,
            MoveFlag::PromoteQueen => 8,
        }
    }

    /// The numeric code of the flag as stored in a move.
    pub fn code(self) -> (c: u32)
        ensures
            c == self.code_spec(),
    {
        match self {
            MoveFlag::Normal => 0,
            MoveFlag::DoublePush => 1,
            MoveFlag::CastleKing => 2,
            MoveFlag::CastleQueen => 3,
            MoveFlag::EnPassant => 4,
            MoveFlag::PromoteKnight => 5,
            MoveFlag::PromoteBishop => 6,
            MoveFlag::PromoteRook => 7,
            MoveFlag::PromoteQueen => 8,
        }
    }
}

/// The promotion piece code of a flag code: 1 = knight .. 4 = queen, 0 for other moves.
pub open spec fn promo_code(flag: u32) -> u32 {
    if 5 <= flag <= 8 { (flag - 4) as u32 } else { 0 }
}

/// The promotion piece of a flag code (5 = knight .. 8 = queen).
pub open spec fn promo_of_flag(flag: u32) -> Option<PieceType> {
    if flag == 5 {
        Some(PieceType::Knight)
    } else if flag == 6 {
        Some(PieceType::Bishop)
    } else if flag == 7 {
        Some(PieceType::Rook)
    } else if flag == 8 {
        Some(PieceType::Queen)
    } else {
        None
    }
}

impl Move {
    /// Index of the origin square.
    pub open spec fn from_idx(self) -> int {
        (self.0 & 0x3f) as int
    }

    /// Index of the destination square.
    pub open spec fn to_idx(self) -> int {
        ((self.0 >> 6) & 0x3f) as int
    }

    /// The flag code, in bits 15-18.
    pub open spec fn flag_spec(self) -> u32 {
        (self.0 >> 15) & 0xf
    }

    /// The promotion piece code, in bits 12-14.
    pub open spec fn promo_field(self) -> u32 {
        (self.0 >> 12) & 0x7
    }

    /// The move value made of its fields: origin in bits 0-5, destination in bits 6-11,
    /// promotion piece in bits 12-14 and flag in bits 15-18.
    pub open spec fn encode(from: int, to: int, flag: u32) -> u32 {
        (from as u32) | ((to as u32) << 6u32) | (promo_code(flag) << 12u32) | (flag << 15u32)
    }

    /// The null move.
    pub fn null() -> (m: Move)
        ensures
            m.0 == 0,
    {
        Move(0)
    }

    pub fn new(from: Square, to: Square, flag: MoveFlag) -> (m: Move)
        ensures
            m.0 == Move::encode(from.idx() as int, to.idx() as int, flag.code_spec()),
            m.from_idx() == from.idx(),
            m.to_idx() == to.idx(),
            m.flag_spec() == flag.code_spec(),
    {
        let f = from.index_u8() as u32;
        let t = to.index_u8() as u32;
        let c = flag.code();
        let p: u32 = if c >= 5 { c - 4 } else { 0 };
        proof {
            lemma_encode_fields(f, t, p, c);
        }
        Move(f | (t << 6) | (p << 12) | (c << 15))
    }

    pub fn from(self) -> (s: Square)
        ensures
            s.idx() == self.from_idx(),
    {
        let x = self.0;
        proof { lemma_move_field_bounds(x); }
        Square::from_index((x & 0x3f) as u8)
    }

    pub fn to(self) -> (s: Square)
        ensures
            s.idx() == self.to_idx(),
    {
        let x = self.0;
        proof { lemma_move_field_bounds(x); }
        Square::from_index(((x >> 6) & 0x3f) as u8)
    }

    pub fn flag(self) -> (f: u32)
        ensures
            f == self.flag_spec(),
            f < 16,
    {
        let x = self.0;
        proof { lemma_move_field_bounds(x); }
        (x >> 15) & 0xf
    }

    pub fn is_null(self) -> (b: bool)
        ensures
            b <==> self.0 == 0,
    {
        self.0 == 0
    }

    pub fn is_promotion(self) -> (b: bool)
        ensures
            b <==> self.flag_spec() >= 5,
    {
        self.flag() >= 5
    }

    pub fn promotion_piece(self) -> (p: Option<PieceType>)
        ensures
            p == promo_of_flag(self.flag_spec()),
            self.flag_spec() == MoveFlag::PromoteKnight.code_spec() ==> p == Some(PieceType::Knight),
            self.flag_spec() == MoveFlag::PromoteBishop.code_spec() ==> p == Some(PieceType::Bishop),
            self.flag_spec() == MoveFlag::PromoteRook.code_spec() ==> p == Some(PieceType::Rook),
            self.flag_spec() == MoveFlag::PromoteQueen.code_spec() ==> p == Some(PieceType::Queen),
            self.flag_spec() < 5 ==> p is None,
    {
        match self.flag() {
            5 => Some(PieceType::Knight),
            6 => Some(PieceType::Bishop),
            7 => Some(PieceType::Rook),
            8 => Some(PieceType::Queen),
            _ => None,
        }
    }
}

// ─── Position ─────────────────────────────────────────────────────────────────

/// Stores the complete game state.
#[derive(Clone)]
pub struct Position {
    /// Bitboard for each of the 12 piece kinds: [WP, WN, WB, WR, WQ, WK, BP, BN, BB, BR, BQ, BK]
    pub pieces: [u64; 12],
    /// Bitboard of all pieces for each color.
    pub colors: [u64; 2],
    /// Combined occupancy (colors[0] | colors[1]).
    pub occupancy: u64,
    /// Side to move.
    pub side: Color,
    /// Castling rights bitmask (bits: WK=1, WQ=2, BK=4, BQ=8).
    pub castling: u8,
    /// En passant target square (if any).
    pub en_passant: Option<Square>,
    /// Halfmove clock for 50-move rule.
    pub halfmove_clock: u8,
    /// Fullmove number.
    pub fullmove: u16,
    /// Zobrist hash of this position.
    pub hash: u64,
    /// History of hashes for repetition detection.
    pub hash_history: Vec<u64>,
    /// Check counter for Three-Check variant.
    pub checks_given: [u8; 2],
}

/// The mathematical value of a [`Position`].
pub struct PositionView {
    pub pieces: Seq<u64>,
    pub colors: Seq<u64>,
    pub occupancy: u64,
    pub side: Color,
    pub castling: u8,
    pub en_passant: Option<Square>,
    pub halfmove_clock: u8,
    pub fullmove: u16,
    pub hash: u64,
    pub hash_history: Seq<u64>,
    pub checks_given: Seq<u8>,
}

impl View for Position {
    type V = PositionView;

    open spec fn view(&self) -> PositionView {
        PositionView {
            pieces: self.pieces@,
            colors: self.colors@,
            occupancy: self.occupancy,
            side: self.side,
            castling: self.castling,
            en_passant: self.en_passant,
            halfmove_clock: self.halfmove_clock,
            fullmove: self.fullmove,
            hash: self.hash,
            hash_history: self.hash_history@,
            checks_given: self.checks_given@,
        }
    }
}

/// Index into the piece bitboards of a color and a piece type.
pub open spec fn pidx(c: Color, pt: PieceType) -> int {
    (c.idx() * 6 + pt.idx()) as int
}

/// Single-square bitboard of square index `s`.
pub open spec fn sq_bit(s: int) -> u64 {
    1u64 << (s as u64)
}

impl PositionView {
    /// Bitboard of one piece kind.
    pub open spec fn bb(self, c: Color, pt: PieceType) -> u64 {
        self.pieces[pidx(c, pt)]
    }

    /// The piece type of color `c` on square `s`, scanning pawn to king.
    pub open spec fn piece_type_at(self, s: int, c: Color) -> Option<PieceType> {
        if has_bit(self.bb(c, PieceType::Pawn), s) {
            Some(PieceType::Pawn)
        } else if has_bit(self.bb(c, PieceType::Knight), s) {
            Some(PieceType::Knight)
        } else if has_bit(self.bb(c, PieceType::Bishop), s) {
            Some(PieceType::Bishop)
        } else if has_bit(self.bb(c, PieceType::Rook), s) {
            Some(PieceType::Rook)
        } else if has_bit(self.bb(c, PieceType::Queen), s) {
            Some(PieceType::Queen)
        } else if has_bit(self.bb(c, PieceType::King), s) {
            Some(PieceType::King)
        } else {
            None
        }
    }

    /// The piece on square `s`, White pieces scanned first.
    pub open spec fn piece_at(self, s: int) -> Option<Piece> {
        match self.piece_type_at(s, Color::White) {
            Some(pt) => Some(Piece { piece_type: pt, color: Color::White }),
            None => match self.piece_type_at(s, Color::Black) {
                Some(pt) => Some(Piece { piece_type: pt, color: Color::Black }),
                None => None,
            },
        }
    }

    /// Representation invariant: the piece bitboards are disjoint and the color and
    /// occupancy bitboards are their unions; castling rights fit in four bits.
    pub open spec fn wf(self) -> bool {
        &&& self.pieces.len() == 12
        &&& self.colors.len() == 2
        &&& self.checks_given.len() == 2
        &&& forall|i: int, j: int| 0 <= i < j < 12 ==> #[trigger] self.pieces[i] & #[trigger] self.pieces[j] == 0
        &&& self.colors[0] == self.pieces[0] | self.pieces[1] | self.pieces[2] | self.pieces[3]
            | self.pieces[4] | self.pieces[5]
        &&& self.colors[1] == self.pieces[6] | self.pieces[7] | self.pieces[8] | self.pieces[9]
            | self.pieces[10] | self.pieces[11]
        &&& self.occupancy == self.colors[0] | self.colors[1]
        &&& self.castling < 16
    }

    /// The position after putting a piece of color `c` and type `pt` on square `s`.
    pub open spec fn put(self, c: Color, pt: PieceType, s: int) -> PositionView {
        let i = pidx(c, pt);
        PositionView {
            pieces: self.pieces.update(i, self.pieces[i] | sq_bit(s)),
            colors: self.colors.update(c.idx() as int, self.colors[c.idx() as int] | sq_bit(s)),
            occupancy: self.occupancy | sq_bit(s),
            hash: self.hash ^ PIECE_KEYS[i][s],
            ..self
        }
    }

    /// The position after removing a piece of color `c` and type `pt` from square `s`.
    pub open spec fn remove(self, c: Color, pt: PieceType, s: int) -> PositionView {
        let i = pidx(c, pt);
        PositionView {
            pieces: self.pieces.update(i, self.pieces[i] & !sq_bit(s)),
            colors: self.colors.update(c.idx() as int, self.colors[c.idx() as int] & !sq_bit(s)),
            occupancy: self.occupancy & !sq_bit(s),
            hash: self.hash ^ PIECE_KEYS[i][s],
            ..self
        }
    }

    /// The position after moving a piece from `from` to `to`.
    pub open spec fn move_piece(self, c: Color, pt: PieceType, from: int, to: int) -> PositionView {
        self.remove(c, pt, from).put(c, pt, to)
    }
}


/// Pawn push direction of a color in square-index units.
pub open spec fn push_of(c: Color) -> int {
    if c == Color::White { 8 } else { -8 }
}

/// Rook origin and destination squares of a castling move of color `c`
/// (`kingside` for flag 2, queenside otherwise).
pub open spec fn castle_rook_squares(c: Color, kingside: bool) -> (int, int) {
    if kingside {
        if c == Color::White { (7, 5) } else { (63, 61) }
    } else {
        if c == Color::White { (0, 3) } else { (56, 59) }
    }
}

/// Castling rights mask — if a rook or king moves from (or something arrives on) a
/// square, the corresponding castling right is revoked.
pub const CASTLING_MASKS: [u8; 64] = [
    0xFD, 0xFF, 0xFF, 0xFF, 0xFC, 0xFF, 0xFF, 0xFE,
    0xFF, 0xFF, 0xFF, 0xFF, 0xFF, 0xFF, 0xFF, 0xFF,
    0xFF, 0xFF, 0xFF, 0xFF, 0xFF, 0xFF, 0xFF, 0xFF,
    0xFF, 0xFF, 0xFF, 0xFF, 0xFF, 0xFF, 0xFF, 0xFF,
    0xFF, 0xFF, 0xFF, 0xFF, 0xFF, 0xFF, 0xFF, 0xFF,
    0xFF, 0xFF, 0xFF, 0xFF, 0xFF, 0xFF, 0xFF, 0xFF,
    0xFF, 0xFF, 0xFF, 0xFF, 0xFF, 0xFF, 0xFF, 0xFF,
    0xF7, 0xFF, 0xFF, 0xFF, 0xF3, 0xFF, 0xFF, 0xFB,
];

/// State needed to unmake a move.
#[derive(Clone, Copy)]
pub struct UnmakeState {
    pub castling: u8,
    pub en_passant: Option<Square>,
    pub halfmove_clock: u8,
    pub hash: u64,
    pub captured: Option<PieceType>,
}

/// State needed to unmake a null move.
#[derive(Clone, Copy)]
pub struct NullMoveState {
    pub en_passant: Option<Square>,
    pub halfmove_clock: u8,
    pub hash: u64,
}

impl PositionView {
    /// The position after clearing the en passant square and the old castling key.
    pub open spec fn make_prelude(self) -> PositionView {
        let v1 = match self.en_passant {
            Some(ep) => PositionView {
                hash: self.hash ^ EN_PASSANT_KEYS[(ep.idx() % 8) as int],
                en_passant: None,
                ..self
            },
            None => self,
        };
        PositionView { hash: v1.hash ^ CASTLING_KEYS[v1.castling as int], ..v1 }
    }

    /// The piece type of the side to move on the origin square of `mv`.
    pub open spec fn moving_type(self, mv: Move) -> PieceType {
        self.piece_type_at(mv.from_idx(), self.side)->0
    }

    /// The piece of the opponent on the destination square of `mv`.
    pub open spec fn captured_type(self, mv: Move) -> Option<PieceType> {
        self.piece_type_at(mv.to_idx(), self.side.other())
    }

    /// The board part of making `mv`: captures, the moving pieces and the clocks.
    pub open spec fn make_body(self, mv: Move) -> PositionView {
        self.make_prelude().apply_move(mv)
    }

    /// The position after taking off a captured piece on the destination of `mv`.
    pub open spec fn apply_capture(self, mv: Move) -> PositionView {
        match self.captured_type(mv) {
            Some(c) => PositionView { halfmove_clock: 0, ..self.remove(self.side.other(), c, mv.to_idx()) },
            None => self,
        }
    }

    /// Captures and piece movements of `mv`, with the halfmove clock and en passant square.
    pub open spec fn apply_move(self, mv: Move) -> PositionView {
        let us = self.side;
        let them = us.other();
        let from = mv.from_idx();
        let to = mv.to_idx();
        let flag = mv.flag_spec();
        let mpt = self.moving_type(mv);
        let v3 = self.apply_capture(mv);
        if flag == 0 || flag == 1 {
            let m = v3.move_piece(us, mpt, from, to);
            if mpt == PieceType::Pawn {
                if flag == 1 {
                    let ep = to - push_of(us);
                    PositionView {
                        halfmove_clock: 0,
                        en_passant: Some(square_of(ep)),
                        hash: m.hash ^ EN_PASSANT_KEYS[ep % 8],
                        ..m
                    }
                } else {
                    PositionView { halfmove_clock: 0, ..m }
                }
            } else if self.captured_type(mv) is None {
                PositionView { halfmove_clock: (m.halfmove_clock + 1) as u8, ..m }
            } else {
                m
            }
        } else if flag == 2 || flag == 3 {
            let (rf, rt) = castle_rook_squares(us, flag == 2);
            let m = v3.move_piece(us, PieceType::King, from, to).move_piece(us, PieceType::Rook, rf, rt);
            PositionView { halfmove_clock: (m.halfmove_clock + 1) as u8, ..m }
        } else if flag == 4 {
            let m = v3.move_piece(us, PieceType::Pawn, from, to).remove(them, PieceType::Pawn, to - push_of(us));
            PositionView { halfmove_clock: 0, ..m }
        } else {
            let m = v3.remove(us, PieceType::Pawn, from).put(us, promo_of_flag(flag)->0, to);
            PositionView { halfmove_clock: 0, ..m }
        }
    }

    /// The position after making `mv`.
    pub open spec fn make_spec(self, mv: Move) -> PositionView {
        let us = self.side;
        let v4 = self.make_body(mv);
        let c5 = v4.castling & CASTLING_MASKS[mv.from_idx()] & CASTLING_MASKS[mv.to_idx()];
        let h5 = (v4.hash ^ CASTLING_KEYS[c5 as int]) ^ SIDE_KEY;
        PositionView {
            castling: c5,
            hash: h5,
            side: us.other(),
            fullmove: if us == Color::Black { (v4.fullmove + 1) as u16 } else { v4.fullmove },
            hash_history: v4.hash_history.push(h5),
            ..v4
        }
    }

    /// The record returned by making `mv`.
    pub open spec fn unmake_state_spec(self, mv: Move) -> UnmakeState {
        UnmakeState {
            castling: self.castling,
            en_passant: self.en_passant,
            halfmove_clock: self.halfmove_clock,
            hash: self.hash,
            captured: if mv.flag_spec() == 4 { Some(PieceType::Pawn) } else { self.captured_type(mv) },
        }
    }

    /// Making `mv` cannot fail: a piece of the side to move stands on the origin, the
    /// flag is known, en passant squares stay on the board and the counters do not overflow.
    pub open spec fn can_make(self, mv: Move) -> bool {
        let us = self.side;
        let flag = mv.flag_spec();
        let to = mv.to_idx();
        &&& self.castling < 16
        &&& self.piece_type_at(mv.from_idx(), us) is Some
        &&& flag <= 8
        &&& ((flag == 1 && self.moving_type(mv) == PieceType::Pawn) || flag == 4)
                ==> 0 <= to - push_of(us) < 64
        &&& (((flag == 0 || flag == 1) && self.moving_type(mv) != PieceType::Pawn) || flag == 2 || flag == 3)
                ==> (if self.captured_type(mv) is Some { 0u8 } else { self.halfmove_clock }) < 255
        &&& us == Color::Black ==> self.fullmove < 65535
    }

    /// The position after unmaking `mv` with the saved state `st`.
    pub open spec fn unmake_spec(self, mv: Move, st: UnmakeState) -> PositionView {
        PositionView { hash: st.hash, ..self.unmake_board_spec(mv, st) }
    }

    /// The pieces moved back and the saved state restored, before the saved hash is.
    pub open spec fn unmake_board_spec(self, mv: Move, st: UnmakeState) -> PositionView {
        let us = self.side.other();
        let them = self.side;
        let from = mv.from_idx();
        let to = mv.to_idx();
        let flag = mv.flag_spec();
        let v1 = PositionView {
            hash_history: if self.hash_history.len() > 0 { self.hash_history.drop_last() } else { self.hash_history },
            castling: st.castling,
            en_passant: st.en_passant,
            halfmove_clock: st.halfmove_clock,
            hash: st.hash,
            side: us,
            fullmove: if us == Color::Black { (self.fullmove - 1) as u16 } else { self.fullmove },
            ..self
        };
        if flag == 0 || flag == 1 {
            let m = v1.move_piece(us, v1.piece_type_at(to, us)->0, to, from);
            match st.captured {
                Some(c) => m.put(them, c, to),
                None => m,
            }
        } else if flag == 2 || flag == 3 {
            let (rf, rt) = castle_rook_squares(us, flag == 2);
            v1.move_piece(us, PieceType::King, to, from).move_piece(us, PieceType::Rook, rt, rf)
        } else if flag == 4 {
            v1.move_piece(us, PieceType::Pawn, to, from).put(them, PieceType::Pawn, to - push_of(us))
        } else {
            let m = v1.remove(us, promo_of_flag(flag)->0, to).put(us, PieceType::Pawn, from);
            match st.captured {
                Some(c) => m.put(them, c, to),
                None => m,
            }
        }
    }

    /// The position after a null move: side flipped, en passant cleared.
    pub open spec fn null_move_spec(self) -> PositionView {
        let h = match self.en_passant {
            Some(ep) => self.hash ^ EN_PASSANT_KEYS[(ep.idx() % 8) as int],
            None => self.hash,
        } ^ SIDE_KEY;
        PositionView { en_passant: None, side: self.side.other(), hash: h, hash_history: self.hash_history.push(h), ..self }
    }

    /// The position after reverting a null move with the saved state `st`.
    pub open spec fn unmake_null_spec(self, st: NullMoveState) -> PositionView {
        PositionView {
            en_passant: st.en_passant,
            halfmove_clock: st.halfmove_clock,
            hash: st.hash,
            side: self.side.other(),
            hash_history: if self.hash_history.len() > 0 { self.hash_history.drop_last() } else { self.hash_history },
            ..self
        }
    }

    /// Unmaking `mv` cannot fail.
    pub open spec fn can_unmake(self, mv: Move) -> bool {
        let us = self.side.other();
        let flag = mv.flag_spec();
        let to = mv.to_idx();
        &&& flag <= 8
        &&& (flag == 0 || flag == 1) ==> self.piece_type_at(to, us) is Some
        &&& flag == 4 ==> 0 <= to - push_of(us) < 64
        &&& us == Color::Black ==> self.fullmove >= 1
    }
}

impl Position {
    /// Bit `s` of `b`.
    fn test_bit(b: u64, s: usize) -> (r: bool)
        requires
            s < 64,
        ensures
            r == has_bit(b, s as int),
    {
        proof { crate::board::bitboard::lemma_square_test(b, s as int); }
        b & (1u64 << (s as u64)) != 0
    }

    /// The position is consistent: its bitboards agree with each other, the side to move
    /// has a king, castling rights are held only with king and rook at home, an en passant
    /// square is empty with the pawn that just passed it behind it, and the clocks can
    /// still count.
    pub fn is_valid(&self) -> (b: bool)
        ensures
            b == self@.valid(),
    {
        let mut i: usize = 0;
        let mut disjoint = true;
        while i < 12
            invariant
                0 <= i <= 12,
                disjoint == forall|a: int, c: int| 0 <= a < i && a < c < 12 ==> #[trigger] self.pieces@[a] & #[trigger] self.pieces@[c] == 0,
            decreases 12 - i,
        {
            let mut j: usize = i + 1;
            let mut row = true;
            while j < 12
                invariant
                    0 <= i < 12,
                    i + 1 <= j <= 12,
                    row == forall|c: int| i < c < j ==> self.pieces@[i as int] & #[trigger] self.pieces@[c] == 0,
                decreases 12 - j,
            {
                if self.pieces[i] & self.pieces[j] != 0 {
                    row = false;
                }
                j = j + 1;
            }
            disjoint = disjoint && row;
            i = i + 1;
        }
        let p = &self.pieces;
        let white = p[0] | p[1] | p[2] | p[3] | p[4] | p[5];
        let black = p[6] | p[7] | p[8] | p[9] | p[10] | p[11];
        let wf = disjoint && self.colors[0] == white && self.colors[1] == black
            && self.occupancy == self.colors[0] | self.colors[1] && self.castling < 16;
        if !wf {
            return false;
        }
        let us = self.side;
        if self.bb(us, PieceType::King) == 0 || self.halfmove_clock >= 255 || self.fullmove >= 65535 {
            return false;
        }
        let wk = self.bb(Color::White, PieceType::King);
        let wr = self.bb(Color::White, PieceType::Rook);
        let bk = self.bb(Color::Black, PieceType::King);
        let br = self.bb(Color::Black, PieceType::Rook);
        let c = self.castling;
        if c & 1 != 0 && !(Self::test_bit(wk, 4) && Self::test_bit(wr, 7)) {
            return false;
        }
        if c & 2 != 0 && !(Self::test_bit(wk, 4) && Self::test_bit(wr, 0)) {
            return false;
        }
        if c & 4 != 0 && !(Self::test_bit(bk, 60) && Self::test_bit(br, 63)) {
            return false;
        }
        if c & 8 != 0 && !(Self::test_bit(bk, 60) && Self::test_bit(br, 56)) {
            return false;
        }
        match self.en_passant {
            Some(ep) => {
                let e = ep.index();
                if Self::test_bit(self.occupancy, e) {
                    return false;
                }
                let pawns = self.bb(us.flip(), PieceType::Pawn);
                let behind = match us {
                    Color::White => if e >= 8 { Self::test_bit(pawns, e - 8) } else { false },
                    Color::Black => if e < 56 { Self::test_bit(pawns, e + 8) } else { false },
                };
                behind
            },
            None => true,
        }
    }

    /// A copy of the position.
    pub fn duplicate(&self) -> (r: Position)
        ensures
            r@ == self@,
    {
        let mut history: Vec<u64> = Vec::new();
        let mut i: usize = 0;
        while i < self.hash_history.len()
            invariant
                0 <= i <= self.hash_history@.len(),
                history@ == self.hash_history@.take(i as int),
            decreases self.hash_history@.len() - i,
        {
            history.push(self.hash_history[i]);
            i = i + 1;
            assert(history@ =~= self.hash_history@.take(i as int));
        }
        assert(self.hash_history@.take(self.hash_history@.len() as int) =~= self.hash_history@);
        Position {
            pieces: self.pieces,
            colors: self.colors,
            occupancy: self.occupancy,
            side: self.side,
            castling: self.castling,
            en_passant: self.en_passant,
            halfmove_clock: self.halfmove_clock,
            fullmove: self.fullmove,
            hash: self.hash,
            hash_history: history,
            checks_given: self.checks_given,
        }
    }
}

impl Position {
    // ─── Accessors ────────────────────────────────────────────────────────────

    /// Returns bitboard of a given piece type for a given color.
    pub fn bb(&self, color: Color, pt: PieceType) -> (b: u64)
        ensures
            b == self@.bb(color, pt),
    {
        self.pieces[color.index() * PieceType::NUM + pt.index()]
    }

    /// Returns bitboard of all pieces of a given color.
    pub fn color_bb(&self, color: Color) -> (b: u64)
        ensures
            b == self.colors@[color.idx() as int],
    {
        self.colors[color.index()]
    }

    /// Returns the piece on a square, if any.
    pub fn piece_on(&self, sq: Square) -> (p: Option<Piece>)
        ensures
            p == self@.piece_at(sq.idx() as int),
    {
        match self.piece_type_on(sq, Color::White) {
            Some(pt) => Some(Piece::new(pt, Color::White)),
            None => match self.piece_type_on(sq, Color::Black) {
                Some(pt) => Some(Piece::new(pt, Color::Black)),
                None => None,
            },
        }
    }

    /// Returns the piece type on a square for the given color.
    pub fn piece_type_on(&self, sq: Square, color: Color) -> (p: Option<PieceType>)
        ensures
            p == self@.piece_type_at(sq.idx() as int, color),
    {
        let mask = sq.bb();
        let ghost s = sq.idx() as int;
        proof {
            lemma_bit_test(self@.bb(color, PieceType::Pawn), s);
            lemma_bit_test(self@.bb(color, PieceType::Knight), s);
            lemma_bit_test(self@.bb(color, PieceType::Bishop), s);
            lemma_bit_test(self@.bb(color, PieceType::Rook), s);
            lemma_bit_test(self@.bb(color, PieceType::Queen), s);
            lemma_bit_test(self@.bb(color, PieceType::King), s);
        }
        if self.bb(color, PieceType::Pawn) & mask != 0 {
            return Some(PieceType::Pawn);
        }
        if self.bb(color, PieceType::Knight) & mask != 0 {
            return Some(PieceType::Knight);
        }
        if self.bb(color, PieceType::Bishop) & mask != 0 {
            return Some(PieceType::Bishop);
        }
        if self.bb(color, PieceType::Rook) & mask != 0 {
            return Some(PieceType::Rook);
        }
        if self.bb(color, PieceType::Queen) & mask != 0 {
            return Some(PieceType::Queen);
        }
        if self.bb(color, PieceType::King) & mask != 0 {
            return Some(PieceType::King);
        }
        None
    }

    /// King square for a given color.
    pub fn king_sq(&self, color: Color) -> (s: Square)
        requires
            self@.bb(color, PieceType::King) != 0,
        ensures
            has_bit(self@.bb(color, PieceType::King), s.idx() as int),
            forall|t: int| 0 <= t < s.idx() ==> !has_bit(self@.bb(color, PieceType::King), t),
    {
        let bb = self.bb(color, PieceType::King);
        let i = lsb(bb);
        Square::from_index(i as u8)
    }

    // ─── Internal mutation ────────────────────────────────────────────────────

    pub(crate) fn put_piece(&mut self, color: Color, pt: PieceType, sq: Square)
        ensures
            final(self)@ == old(self)@.put(color, pt, sq.idx() as int),
    {
        let idx = color.index() * PieceType::NUM + pt.index();
        let mask = sq.bb();
        self.pieces[idx] = self.pieces[idx] | mask;
        self.colors[color.index()] = self.colors[color.index()] | mask;
        self.occupancy = self.occupancy | mask;
        self.hash = self.hash ^ PIECE_KEYS[idx][sq.index()];
        proof {
            assert(self.pieces@ =~= old(self).pieces@.update(idx as int, old(self).pieces@[idx as int] | mask));
            assert(self.colors@ =~= old(self).colors@.update(color.idx() as int, old(self).colors@[color.idx() as int] | mask));
        }
    }

    fn remove_piece(&mut self, color: Color, pt: PieceType, sq: Square)
        ensures
            final(self)@ == old(self)@.remove(color, pt, sq.idx() as int),
    {
        let idx = color.index() * PieceType::NUM + pt.index();
        let mask = sq.bb();
        self.pieces[idx] = self.pieces[idx] & !mask;
        self.colors[color.index()] = self.colors[color.index()] & !mask;
        self.occupancy = self.occupancy & !mask;
        self.hash = self.hash ^ PIECE_KEYS[idx][sq.index()];
        proof {
            assert(self.pieces@ =~= old(self).pieces@.update(idx as int, old(self).pieces@[idx as int] & !mask));
            assert(self.colors@ =~= old(self).colors@.update(color.idx() as int, old(self).colors@[color.idx() as int] & !mask));
        }
    }

    fn move_piece(&mut self, color: Color, pt: PieceType, from: Square, to: Square)
        ensures
            final(self)@ == old(self)@.move_piece(color, pt, from.idx() as int, to.idx() as int),
    {
        self.remove_piece(color, pt, from);
        self.put_piece(color, pt, to);
    }
}


/// Castling rights mask of a square.
fn castling_mask(sq: Square) -> (m: u8)
    ensures
        m == CASTLING_MASKS[sq.idx() as int],
{
    CASTLING_MASKS[sq.index()]
}

impl Position {
    // ─── Make / Unmake move ───────────────────────────────────────────────────

    /// Applies a move and returns the state needed to unmake it.
    pub fn make_move(&mut self, mv: Move) -> (st: UnmakeState)
        requires
            old(self)@.can_make(mv),
        ensures
            final(self)@ == old(self)@.make_spec(mv),
            st == old(self)@.unmake_state_spec(mv),
            old(self)@.move_ok(mv) ==> final(self)@.wf(),
    {
        let ghost v0 = self@;
        proof {
            if v0.move_ok(mv) {
                crate::board::keep_wf::lemma_make_keeps_wf(v0, mv);
            }
        }
        let state = UnmakeState {
            castling: self.castling,
            en_passant: self.en_passant,
            halfmove_clock: self.halfmove_clock,
            hash: self.hash,
            captured: None,
        };
        let us = self.side;
        let them = us.flip();
        let from = mv.from();
        let to = mv.to();
        let flag = mv.flag();

        // Remove en passant from hash
        match self.en_passant {
            Some(ep) => {
                self.hash = self.hash ^ EN_PASSANT_KEYS[ep.file() as usize];
                self.en_passant = None;
            },
            None => {},
        }
        // Remove old castling rights from hash
        self.hash = self.hash ^ CASTLING_KEYS[self.castling as usize];
        assert(self@ == v0.make_prelude());

        let ghost v2 = self@;
        assert(v2.pieces == v0.pieces);
        let captured_pt = self.apply_move(mv);
        assert(self@ == v0.make_body(mv));

        // Update castling rights
        let ghost c4 = self.castling;
        let m1 = castling_mask(from);
        let m2 = castling_mask(to);
        proof { lemma_castling_mask_le(c4, m1, m2); }
        self.castling = self.castling & m1 & m2;
        self.hash = self.hash ^ CASTLING_KEYS[self.castling as usize];

        // Switch side
        self.side = them;
        self.hash = self.hash ^ SIDE_KEY;

        // Fullmove counter
        if us == Color::Black {
            self.fullmove = self.fullmove + 1;
        }
        self.hash_history.push(self.hash);
        UnmakeState { captured: captured_pt, ..state }
    }

    /// Captures and piece movements of `mv` (after the prelude of `make_move`).
    fn apply_move(&mut self, mv: Move) -> (captured: Option<PieceType>)
        requires
            old(self)@.piece_type_at(mv.from_idx(), old(self).side) is Some,
            mv.flag_spec() <= 8,
            ((mv.flag_spec() == 1 && old(self)@.moving_type(mv) == PieceType::Pawn) || mv.flag_spec() == 4)
                ==> 0 <= mv.to_idx() - push_of(old(self).side) < 64,
            (((mv.flag_spec() == 0 || mv.flag_spec() == 1) && old(self)@.moving_type(mv) != PieceType::Pawn)
                || mv.flag_spec() == 2 || mv.flag_spec() == 3)
                ==> (if old(self)@.captured_type(mv) is Some { 0u8 } else { old(self).halfmove_clock }) < 255,
        ensures
            final(self)@ == old(self)@.apply_move(mv),
            captured == (if mv.flag_spec() == 4 { Some(PieceType::Pawn) } else { old(self)@.captured_type(mv) }),
    {
        let us = self.side;
        let them = us.flip();
        let from = mv.from();
        let to = mv.to();
        let flag = mv.flag();
        let moving_pt = match self.piece_type_on(from, us) {
            Some(pt) => pt,
            None => { assert(false); PieceType::Pawn },
        };
        let mut captured_pt = self.piece_type_on(to, them);
        match captured_pt {
            Some(cpt) => {
                self.remove_piece(them, cpt, to);
                self.halfmove_clock = 0;
            },
            None => {},
        }
        if flag == 0 || flag == 1 {
            self.move_piece(us, moving_pt, from, to);
            if moving_pt == PieceType::Pawn {
                self.halfmove_clock = 0;
                if flag == 1 {
                    let ep_idx = to.index_u8() as i32 - us.pawn_push();
                    let ep_sq = Square::from_index(ep_idx as u8);
                    proof { lemma_square_of(ep_sq); }
                    self.en_passant = Some(ep_sq);
                    self.hash = self.hash ^ EN_PASSANT_KEYS[ep_sq.file() as usize];
                }
            } else if captured_pt.is_none() {
                self.halfmove_clock = self.halfmove_clock + 1;
            }
        } else if flag == 2 || flag == 3 {
            self.move_piece(us, PieceType::King, from, to);
            let (rook_from, rook_to) = if flag == 2 {
                if us == Color::White { (Square::H1, Square::F1) } else { (Square::H8, Square::F8) }
            } else {
                if us == Color::White { (Square::A1, Square::D1) } else { (Square::A8, Square::D8) }
            };
            self.move_piece(us, PieceType::Rook, rook_from, rook_to);
            self.halfmove_clock = self.halfmove_clock + 1;
        } else if flag == 4 {
            self.move_piece(us, PieceType::Pawn, from, to);
            let cap_idx = to.index_u8() as i32 - us.pawn_push();
            let cap_sq = Square::from_index(cap_idx as u8);
            self.remove_piece(them, PieceType::Pawn, cap_sq);
            captured_pt = Some(PieceType::Pawn);
            self.halfmove_clock = 0;
        } else {
            let promo_pt = match mv.promotion_piece() {
                Some(p) => p,
                None => { assert(false); PieceType::Queen },
            };
            self.remove_piece(us, PieceType::Pawn, from);
            self.put_piece(us, promo_pt, to);
            self.halfmove_clock = 0;
        }
        captured_pt
    }

    /// Reverts the last move using saved state.
    pub fn unmake_move(&mut self, mv: Move, state: UnmakeState)
        requires
            old(self)@.can_unmake(mv),
        ensures
            final(self)@ == old(self)@.unmake_spec(mv, state),
    {
        let ghost v0 = self@;
        self.hash_history.pop();
        let us = self.side.flip();
        let them = self.side;
        let from = mv.from();
        let to = mv.to();
        let flag = mv.flag();

        self.castling = state.castling;
        self.en_passant = state.en_passant;
        self.halfmove_clock = state.halfmove_clock;
        self.hash = state.hash;
        self.side = us;
        if us == Color::Black {
            self.fullmove = self.fullmove - 1;
        }
        proof {
            if v0.hash_history.len() > 0 {
                assert(self.hash_history@ =~= v0.hash_history.drop_last());
            }
        }

        if flag == 0 || flag == 1 {
            let pt = match self.piece_type_on(to, us) {
                Some(p) => p,
                None => { assert(false); PieceType::Pawn },
            };
            self.move_piece(us, pt, to, from);
            match state.captured {
                Some(cpt) => self.put_piece(them, cpt, to),
                None => {},
            }
        } else if flag == 2 || flag == 3 {
            self.move_piece(us, PieceType::King, to, from);
            let (rook_from, rook_to) = if flag == 2 {
                if us == Color::White { (Square::H1, Square::F1) } else { (Square::H8, Square::F8) }
            } else {
                if us == Color::White { (Square::A1, Square::D1) } else { (Square::A8, Square::D8) }
            };
            self.move_piece(us, PieceType::Rook, rook_to, rook_from);
        } else if flag == 4 {
            self.move_piece(us, PieceType::Pawn, to, from);
            let cap_idx = to.index_u8() as i32 - us.pawn_push();
            let cap_sq = Square::from_index(cap_idx as u8);
            self.put_piece(them, PieceType::Pawn, cap_sq);
        } else {
            let promo_pt = match mv.promotion_piece() {
                Some(p) => p,
                None => { assert(false); PieceType::Queen },
            };
            self.remove_piece(us, promo_pt, to);
            self.put_piece(us, PieceType::Pawn, from);
            match state.captured {
                Some(cpt) => self.put_piece(them, cpt, to),
                None => {},
            }
        }
        self.hash = state.hash;
    }

    /// Make a null move (switch side, clear en passant). Used in null move pruning.
    pub fn make_null_move(&mut self) -> (st: NullMoveState)
        ensures
            st.en_passant == old(self).en_passant,
            st.halfmove_clock == old(self).halfmove_clock,
            st.hash == old(self).hash,
            final(self)@ == old(self)@.null_move_spec(),
    {
        let state = NullMoveState {
            en_passant: self.en_passant,
            halfmove_clock: self.halfmove_clock,
            hash: self.hash,
        };
        match self.en_passant {
            Some(ep) => {
                self.hash = self.hash ^ EN_PASSANT_KEYS[ep.file() as usize];
                self.en_passant = None;
            },
            None => {},
        }
        self.side = self.side.flip();
        self.hash = self.hash ^ SIDE_KEY;
        self.hash_history.push(self.hash);
        state
    }

    /// Reverts a null move.
    pub fn unmake_null_move(&mut self, state: NullMoveState)
        ensures
            final(self)@ == old(self)@.unmake_null_spec(state),
    {
        let ghost h0 = self.hash_history@;
        self.hash_history.pop();
        proof {
            if h0.len() > 0 {
                assert(self.hash_history@ =~= h0.drop_last());
            }
        }
        self.en_passant = state.en_passant;
        self.halfmove_clock = state.halfmove_clock;
        self.hash = state.hash;
        self.side = self.side.flip();
    }
}

/// The number of entries of `h` at indices `k, k - 2, k - 4, ...` down to 0 equal to `cur`.
pub open spec fn repetitions(h: Seq<u64>, cur: u64, k: int) -> nat
    decreases k + 2,
{
    if k < 0 {
        0
    } else {
        (if h[k] == cur { 1nat } else { 0nat }) + repetitions(h, cur, k - 2)
    }
}

impl Position {
    // ─── Game state queries ───────────────────────────────────────────────────

    /// Is the current position a draw by 50-move rule?
    pub fn is_fifty_move_draw(&self) -> (b: bool)
        ensures
            b <==> self.halfmove_clock >= 100,
    {
        self.halfmove_clock >= 100
    }

    /// Is the current position a draw by threefold repetition? The last history entry is
    /// the current position; the hash is looked for among the earlier positions with the
    /// same side to move (two, four, ... plies back); two matches make three occurrences.
    pub fn is_repetition(&self) -> (b: bool)
        ensures
            b <==> (self.hash_history@.len() >= 5
                && repetitions(self.hash_history@, self.hash, self.hash_history@.len() - 3) >= 2),
    {
        let current = self.hash;
        let len = self.hash_history.len();
        if len < 5 {
            return false;
        }
        let ghost h = self.hash_history@;
        let mut count: u32 = 0;
        let mut k: usize = len - 3;
        loop
            invariant
                h == self.hash_history@,
                current == self.hash,
                len == h.len(),
                len >= 5,
                k <= len - 3,
                (k as int - (len as int - 3)) % 2 == 0,
                count < 2,
                count + repetitions(h, current, k as int) == repetitions(h, current, len - 3),
            decreases k,
        {
            assert(repetitions(h, current, k as int) == (if h[k as int] == current { 1nat } else { 0nat })
                + repetitions(h, current, k - 2));
            if self.hash_history[k] == current {
                count = count + 1;
                if count >= 2 {
                    assert(repetitions(h, current, len - 3) >= 2);
                    return true;
                }
            }
            if k < 2 {
                assert(repetitions(h, current, k - 2) == 0);
                return false;
            }
            k = k - 2;
        }
    }

    /// Is there insufficient material for checkmate? True with exactly two pieces on
    /// the board, or with three pieces of which one side has exactly one minor piece.
    pub fn is_insufficient_material(&self) -> (b: bool)
        ensures
            b <==> ((self.occupancy == self.colors[0] | self.colors[1] && popcount_spec(self.occupancy) == 2)
                || (popcount_spec(self.occupancy) == 3 && (
                    popcount_spec(self@.bb(Color::White, PieceType::Knight) | self@.bb(Color::White, PieceType::Bishop)) == 1
                    || popcount_spec(self@.bb(Color::Black, PieceType::Knight) | self@.bb(Color::Black, PieceType::Bishop)) == 1))),
    {
        if self.occupancy == self.colors[0] | self.colors[1] && popcount(self.occupancy) == 2 {
            return true;
        }
        let total = popcount(self.occupancy);
        if total == 3 {
            let minor_w = popcount(self.bb(Color::White, PieceType::Knight) | self.bb(Color::White, PieceType::Bishop));
            let minor_b = popcount(self.bb(Color::Black, PieceType::Knight) | self.bb(Color::Black, PieceType::Bishop));
            if minor_w == 1 || minor_b == 1 {
                return true;
            }
        }
        false
    }
}

impl Move {
    /// The move captures: a piece stands on its destination, or it is en passant.
    pub fn is_capture(self, pos: &Position) -> (b: bool)
        ensures
            b <==> (pos@.piece_at(self.to_idx()) is Some || self.flag_spec() == 4),
    {
        pos.piece_on(self.to()).is_some() || self.flag() == 4
    }
}

// ─── Laws of make / unmake ────────────────────────────────────────────────────

/// Setting a square's bit leaves the other bits alone.
pub broadcast proof fn lemma_put_bit(x: u64, s: int, t: int)
    requires
        0 <= s < 64,
    ensures
        #[trigger] has_bit(x | sq_bit(s), t) == (has_bit(x, t) || t == s),
{
    if 0 <= t < 64 {
        let u = s as u64;
        let v = t as u64;
        assert(((x | (1u64 << u)) >> v) & 1 == 1 <==> ((x >> v) & 1 == 1 || v == u)) by (bit_vector)
            requires u < 64, v < 64;
    }
}

/// Clearing a square's bit leaves the other bits alone.
pub broadcast proof fn lemma_remove_bit(x: u64, s: int, t: int)
    requires
        0 <= s < 64,
    ensures
        #[trigger] has_bit(x & !sq_bit(s), t) == (has_bit(x, t) && t != s),
{
    if 0 <= t < 64 {
        let u = s as u64;
        let v = t as u64;
        assert(((x & !(1u64 << u)) >> v) & 1 == 1 <==> ((x >> v) & 1 == 1 && v != u)) by (bit_vector)
            requires u < 64, v < 64;
    }
}

/// Square `s` lies strictly between squares `a` and `b` of one rank.
pub open spec fn strictly_between(a: int, b: int, s: int) -> bool {
    (a < s < b) || (b < s < a)
}

impl PositionView {
    /// The squares and pieces of a castling move of the side to move are in place.
    pub open spec fn castle_ok(self, mv: Move) -> bool {
        let us = self.side;
        let (rf, rt) = castle_rook_squares(us, mv.flag_spec() == 2);
        let from = mv.from_idx();
        let to = mv.to_idx();
        &&& self.moving_type(mv) == PieceType::King
        &&& has_bit(self.bb(us, PieceType::Rook), rf)
        &&& !has_bit(self.occupancy, rt)
        &&& !has_bit(self.occupancy, to)
        &&& rf != from && rf != to && rt != from && rt != to
        &&& from == (if us == Color::White { 4int } else { 60int })
        &&& forall|s: int| #![trigger has_bit(self.occupancy, s)] strictly_between(from, rf, s) ==> !has_bit(self.occupancy, s)
    }

    /// `mv` is a well-formed move of the side to move in a well-formed position: it can be
    /// made, it does not land on a piece of the mover, castling and en passant find their
    /// pieces, and promotions start from a pawn.
    pub open spec fn move_ok(self, mv: Move) -> bool {
        let us = self.side;
        let them = us.other();
        let flag = mv.flag_spec();
        let from = mv.from_idx();
        let to = mv.to_idx();
        &&& self.wf()
        &&& self.can_make(mv)
        &&& from != to
        &&& !has_bit(self.colors[us.idx() as int], to)
        &&& (flag == 2 || flag == 3) ==> self.castle_ok(mv)
        &&& flag == 4 ==> (self.moving_type(mv) == PieceType::Pawn && !has_bit(self.occupancy, to)
            && has_bit(self.bb(them, PieceType::Pawn), to - push_of(us)) && to - push_of(us) != from)
        &&& flag >= 5 ==> self.moving_type(mv) == PieceType::Pawn
    }

    /// The position with the hash and its history cleared: everything the rules of
    /// play read.
    pub open spec fn board(self) -> PositionView {
        PositionView { hash: 0, hash_history: Seq::empty(), ..self }
    }

    /// A consistent position: well-formed, the side to move has a king, castling rights
    /// are only held with king and rook on their home squares, an en passant square is
    /// empty with the pawn that just passed it behind it, and the clocks can still count.
    pub open spec fn valid(self) -> bool {
        let us = self.side;
        &&& self.wf()
        &&& self.bb(us, PieceType::King) != 0
        &&& self.halfmove_clock < 255
        &&& self.fullmove < 65535
        &&& self.castling & 1 != 0 ==> has_bit(self.bb(Color::White, PieceType::King), 4)
            && has_bit(self.bb(Color::White, PieceType::Rook), 7)
        &&& self.castling & 2 != 0 ==> has_bit(self.bb(Color::White, PieceType::King), 4)
            && has_bit(self.bb(Color::White, PieceType::Rook), 0)
        &&& self.castling & 4 != 0 ==> has_bit(self.bb(Color::Black, PieceType::King), 60)
            && has_bit(self.bb(Color::Black, PieceType::Rook), 63)
        &&& self.castling & 8 != 0 ==> has_bit(self.bb(Color::Black, PieceType::King), 60)
            && has_bit(self.bb(Color::Black, PieceType::Rook), 56)
        &&& match self.en_passant {
            Some(ep) => !has_bit(self.occupancy, ep.idx() as int)
                && has_bit(self.bb(us.other(), PieceType::Pawn), ep.idx() - push_of(us)),
            None => true,
        }
    }

    /// Equal in every field but the hash.
    pub open spec fn same_but_hash(self, other: PositionView) -> bool {
        &&& self.pieces == other.pieces
        &&& self.colors == other.colors
        &&& self.occupancy == other.occupancy
        &&& self.side == other.side
        &&& self.castling == other.castling
        &&& self.en_passant == other.en_passant
        &&& self.halfmove_clock == other.halfmove_clock
        &&& self.fullmove == other.fullmove
        &&& self.hash_history == other.hash_history
        &&& self.checks_given == other.checks_given
    }
}

/// In a well-formed position a color's bitboard holds exactly the squares with a
/// piece of that color, and at most one piece kind holds a square.
pub proof fn lemma_wf_colors(v: PositionView, c: Color, t: int)
    requires
        v.wf(),
    ensures
        has_bit(v.colors[c.idx() as int], t) <==> v.piece_type_at(t, c) is Some,
        has_bit(v.occupancy, t) <==> (v.piece_type_at(t, Color::White) is Some || v.piece_type_at(t, Color::Black) is Some),
        forall|pt: PieceType| #[trigger] has_bit(v.bb(c, pt), t) ==> v.piece_type_at(t, c) == Some(pt),
{
    lemma_or_bits(v.pieces[0], v.pieces[1]);
    lemma_or_bits(v.pieces[0] | v.pieces[1], v.pieces[2]);
    lemma_or_bits(v.pieces[0] | v.pieces[1] | v.pieces[2], v.pieces[3]);
    lemma_or_bits(v.pieces[0] | v.pieces[1] | v.pieces[2] | v.pieces[3], v.pieces[4]);
    lemma_or_bits(v.pieces[0] | v.pieces[1] | v.pieces[2] | v.pieces[3] | v.pieces[4], v.pieces[5]);
    lemma_or_bits(v.pieces[6], v.pieces[7]);
    lemma_or_bits(v.pieces[6] | v.pieces[7], v.pieces[8]);
    lemma_or_bits(v.pieces[6] | v.pieces[7] | v.pieces[8], v.pieces[9]);
    lemma_or_bits(v.pieces[6] | v.pieces[7] | v.pieces[8] | v.pieces[9], v.pieces[10]);
    lemma_or_bits(v.pieces[6] | v.pieces[7] | v.pieces[8] | v.pieces[9] | v.pieces[10], v.pieces[11]);
    lemma_or_bits(v.colors[0], v.colors[1]);
    assert forall|pt: PieceType| #[trigger] has_bit(v.bb(c, pt), t) implies v.piece_type_at(t, c) == Some(pt) by {
        assert forall|i: int, j: int| 0 <= i < j < 12 implies !(has_bit(v.pieces[i], t) && has_bit(v.pieces[j], t)) by {
            lemma_and_bits(v.pieces[i], v.pieces[j]);
            assert(v.pieces[i] & v.pieces[j] == 0);
            assert(!has_bit(0u64, t)) by {
                crate::board::bitboard::lemma_zero_bits();
            }
        }
    }
}


/// Moving a bit from `f` to `t` and back restores the word.
proof fn lemma_move_back(a: u64, f: int, t: int)
    requires
        0 <= f < 64,
        0 <= t < 64,
        has_bit(a, f),
        !has_bit(a, t),
    ensures
        ((((a & !sq_bit(f)) | sq_bit(t)) & !sq_bit(t)) | sq_bit(f)) == a,
{
    let x = f as u64;
    let y = t as u64;
    assert(((((a & !(1u64 << x)) | (1u64 << y)) & !(1u64 << y)) | (1u64 << x)) == a) by (bit_vector)
        requires x < 64, y < 64, (a >> x) & 1 == 1, (a >> y) & 1 != 1;
}

/// Clearing a set bit and setting it again restores the word.
proof fn lemma_clear_set(a: u64, t: int)
    requires
        0 <= t < 64,
        has_bit(a, t),
    ensures
        ((a & !sq_bit(t)) | sq_bit(t)) == a,
{
    let y = t as u64;
    assert(((a & !(1u64 << y)) | (1u64 << y)) == a) by (bit_vector) requires y < 64, (a >> y) & 1 == 1;
}

/// Setting a clear bit and clearing it again restores the word.
proof fn lemma_set_clear(a: u64, t: int)
    requires
        0 <= t < 64,
        !has_bit(a, t),
    ensures
        ((a | sq_bit(t)) & !sq_bit(t)) == a,
{
    let y = t as u64;
    assert(((a | (1u64 << y)) & !(1u64 << y)) == a) by (bit_vector) requires y < 64, (a >> y) & 1 != 1;
}

/// The origin and destination of a move are squares.
pub proof fn lemma_move_squares(mv: Move)
    ensures
        0 <= mv.from_idx() < 64,
        0 <= mv.to_idx() < 64,
{
    lemma_move_field_bounds(mv.0);
}

/// Unmaking a move made with [`Position::make_move`], with the state it returned,
/// gives back the position in every field, the hash and its history included, and can
/// always be done.
pub proof fn lemma_unmake_undoes_make(v: PositionView, mv: Move)
    requires
        v.move_ok(mv),
    ensures
        v.make_spec(mv).can_unmake(mv),
        v.make_spec(mv).unmake_spec(mv, v.unmake_state_spec(mv)) == v,
{
    let flag = mv.flag_spec();
    let w = v.make_spec(mv);
    assert(w.hash_history.drop_last() =~= v.hash_history);
    lemma_move_squares(mv);
    if flag == 0 || flag == 1 {
        lemma_undo_quiet_or_capture(v, mv);
    } else if flag == 2 || flag == 3 {
        lemma_undo_castle(v, mv);
    } else if flag == 4 {
        lemma_undo_en_passant(v, mv);
    } else {
        lemma_undo_promotion(v, mv);
    }
}

/// After a quiet move or capture the mover's piece is found on the destination.
#[verifier::spinoff_prover]
proof fn lemma_mover_on_destination(v: PositionView, mv: Move)
    requires
        v.move_ok(mv),
        mv.flag_spec() == 0 || mv.flag_spec() == 1,
    ensures
        v.make_spec(mv).piece_type_at(mv.to_idx(), v.side) == Some(v.moving_type(mv)),
{
    let us = v.side;
    let from = mv.from_idx();
    let to = mv.to_idx();
    lemma_move_squares(mv);
    lemma_wf_colors(v, us, to);
    let mpt = v.moving_type(mv);
    let w = v.make_spec(mv);
    assert forall|pt: PieceType| pt != mpt implies w.bb(us, pt) == v.bb(us, pt) by {}
    assert forall|pt: PieceType| pt != mpt implies !has_bit(#[trigger] w.bb(us, pt), to) by {
        assert(w.bb(us, pt) == v.bb(us, pt));
    }
    lemma_put_bit(v.pieces[pidx(us, mpt)] & !sq_bit(from), to, to);
    assert(has_bit(w.bb(us, mpt), to));
}

#[verifier::rlimit(100)]
#[verifier::spinoff_prover]
proof fn lemma_undo_quiet_or_capture(v: PositionView, mv: Move)
    requires
        v.move_ok(mv),
        mv.flag_spec() == 0 || mv.flag_spec() == 1,
    ensures
        v.make_spec(mv).can_unmake(mv),
        v.make_spec(mv).unmake_spec(mv, v.unmake_state_spec(mv)) == v,
{
    lemma_mover_on_destination(v, mv);
    if v.captured_type(mv) is Some {
        lemma_undo_capture(v, mv);
    } else {
        lemma_undo_quiet(v, mv);
    }
}

#[verifier::rlimit(100)]
#[verifier::spinoff_prover]
proof fn lemma_undo_capture(v: PositionView, mv: Move)
    requires
        v.move_ok(mv),
        mv.flag_spec() == 0 || mv.flag_spec() == 1,
        v.captured_type(mv) is Some,
        v.make_spec(mv).piece_type_at(mv.to_idx(), v.side) == Some(v.moving_type(mv)),
    ensures
        v.make_spec(mv).unmake_spec(mv, v.unmake_state_spec(mv)).same_but_hash(v),
{
    let us = v.side;
    let them = us.other();
    let from = mv.from_idx();
    let to = mv.to_idx();
    lemma_move_squares(mv);
    lemma_wf_colors(v, us, from);
    lemma_wf_colors(v, us, to);
    lemma_wf_colors(v, them, to);
    let mpt = v.moving_type(mv);
    let c = v.captured_type(mv)->0;
    let iu = pidx(us, mpt);
    let it = pidx(them, c);
    let cu = us.idx() as int;
    let ct = them.idx() as int;
    let w = v.make_spec(mv);
    let u = w.unmake_spec(mv, v.unmake_state_spec(mv));
    assert(w.hash_history.drop_last() =~= v.hash_history);
    assert(has_bit(v.pieces[iu], from) && !has_bit(v.pieces[iu], to));
    lemma_move_back(v.pieces[iu], from, to);
    lemma_move_back(v.colors[cu], from, to);
    assert(has_bit(v.pieces[it], to) && has_bit(v.colors[ct], to));
    lemma_clear_set(v.pieces[it], to);
    lemma_clear_set(v.colors[ct], to);
    let o = v.occupancy;
    assert(has_bit(o, from) && has_bit(o, to));
    let x = from as u64;
    let y = to as u64;
    assert(((((((o & !(1u64 << y)) & !(1u64 << x)) | (1u64 << y)) & !(1u64 << y)) | (1u64 << x)) | (1u64 << y)) == o)
        by (bit_vector) requires x < 64, y < 64, (o >> x) & 1 == 1, (o >> y) & 1 == 1;
    assert(u.pieces =~= v.pieces);
    assert(u.colors =~= v.colors);
}

#[verifier::rlimit(100)]
#[verifier::spinoff_prover]
proof fn lemma_undo_quiet(v: PositionView, mv: Move)
    requires
        v.move_ok(mv),
        mv.flag_spec() == 0 || mv.flag_spec() == 1,
        v.captured_type(mv) is None,
        v.make_spec(mv).piece_type_at(mv.to_idx(), v.side) == Some(v.moving_type(mv)),
    ensures
        v.make_spec(mv).unmake_spec(mv, v.unmake_state_spec(mv)).same_but_hash(v),
{
    let us = v.side;
    let them = us.other();
    let from = mv.from_idx();
    let to = mv.to_idx();
    lemma_move_squares(mv);
    lemma_wf_colors(v, us, from);
    lemma_wf_colors(v, us, to);
    lemma_wf_colors(v, them, to);
    let mpt = v.moving_type(mv);
    let iu = pidx(us, mpt);
    let cu = us.idx() as int;
    let w = v.make_spec(mv);
    let u = w.unmake_spec(mv, v.unmake_state_spec(mv));
    assert(w.hash_history.drop_last() =~= v.hash_history);
    assert(has_bit(v.pieces[iu], from) && !has_bit(v.pieces[iu], to));
    lemma_move_back(v.pieces[iu], from, to);
    lemma_move_back(v.colors[cu], from, to);
    assert(!has_bit(v.occupancy, to));
    lemma_move_back(v.occupancy, from, to);
    assert(u.pieces =~= v.pieces);
    assert(u.colors =~= v.colors);
}

#[verifier::rlimit(100)]
#[verifier::spinoff_prover]
proof fn lemma_undo_castle(v: PositionView, mv: Move)
    requires
        v.move_ok(mv),
        mv.flag_spec() == 2 || mv.flag_spec() == 3,
    ensures
        v.make_spec(mv).can_unmake(mv),
        v.make_spec(mv).unmake_spec(mv, v.unmake_state_spec(mv)) == v,
{
    let us = v.side;
    let them = us.other();
    let from = mv.from_idx();
    let to = mv.to_idx();
    let (rf, rt) = castle_rook_squares(us, mv.flag_spec() == 2);
    lemma_move_squares(mv);
    lemma_wf_colors(v, us, from);
    lemma_wf_colors(v, us, to);
    lemma_wf_colors(v, them, to);
    lemma_wf_colors(v, us, rf);
    lemma_wf_colors(v, us, rt);
    let ik = pidx(us, PieceType::King);
    let ir = pidx(us, PieceType::Rook);
    let cu = us.idx() as int;
    let w = v.make_spec(mv);
    let st = v.unmake_state_spec(mv);
    let u = w.unmake_spec(mv, st);
    assert(w.hash_history.drop_last() =~= v.hash_history);
    assert(v.captured_type(mv) is None);
    lemma_move_back(v.pieces[ik], from, to);
    lemma_move_back(v.pieces[ir], rf, rt);
    let a = v.colors[cu];
    let o = v.occupancy;
    let (x, y, p, q) = (from as u64, to as u64, rf as u64, rt as u64);
    assert(has_bit(a, from) && !has_bit(a, to) && has_bit(a, rf) && !has_bit(a, rt));
    assert(has_bit(o, from) && !has_bit(o, to) && has_bit(o, rf) && !has_bit(o, rt));
    assert((((((((a & !(1u64 << x)) | (1u64 << y)) & !(1u64 << p)) | (1u64 << q)) & !(1u64 << y)) | (1u64 << x)) & !(1u64 << q)) | (1u64 << p) == a)
        by (bit_vector) requires x < 64, y < 64, p < 64, q < 64, x != y, x != p, x != q, y != p, y != q, p != q,
            (a >> x) & 1 == 1, (a >> y) & 1 != 1, (a >> p) & 1 == 1, (a >> q) & 1 != 1;
    assert((((((((o & !(1u64 << x)) | (1u64 << y)) & !(1u64 << p)) | (1u64 << q)) & !(1u64 << y)) | (1u64 << x)) & !(1u64 << q)) | (1u64 << p) == o)
        by (bit_vector) requires x < 64, y < 64, p < 64, q < 64, x != y, x != p, x != q, y != p, y != q, p != q,
            (o >> x) & 1 == 1, (o >> y) & 1 != 1, (o >> p) & 1 == 1, (o >> q) & 1 != 1;
    assert(u.pieces =~= v.pieces);
    assert(u.colors =~= v.colors);
}

#[verifier::rlimit(100)]
#[verifier::spinoff_prover]
proof fn lemma_undo_en_passant(v: PositionView, mv: Move)
    requires
        v.move_ok(mv),
        mv.flag_spec() == 4,
    ensures
        v.make_spec(mv).can_unmake(mv),
        v.make_spec(mv).unmake_spec(mv, v.unmake_state_spec(mv)) == v,
{
    let us = v.side;
    let them = us.other();
    let from = mv.from_idx();
    let to = mv.to_idx();
    let cap = to - push_of(us);
    lemma_move_squares(mv);
    lemma_wf_colors(v, us, from);
    lemma_wf_colors(v, us, to);
    lemma_wf_colors(v, them, to);
    lemma_wf_colors(v, them, cap);
    lemma_wf_colors(v, us, cap);
    let ip = pidx(us, PieceType::Pawn);
    let iq = pidx(them, PieceType::Pawn);
    let cu = us.idx() as int;
    let ct = them.idx() as int;
    let w = v.make_spec(mv);
    let st = v.unmake_state_spec(mv);
    let u = w.unmake_spec(mv, st);
    assert(w.hash_history.drop_last() =~= v.hash_history);
    assert(v.captured_type(mv) is None);
    lemma_move_back(v.pieces[ip], from, to);
    lemma_move_back(v.colors[cu], from, to);
    lemma_clear_set(v.pieces[iq], cap);
    lemma_clear_set(v.colors[ct], cap);
    let o = v.occupancy;
    let (x, y, c) = (from as u64, to as u64, cap as u64);
    assert(has_bit(o, from) && !has_bit(o, to) && has_bit(o, cap));
    assert(((((((o & !(1u64 << x)) | (1u64 << y)) & !(1u64 << c)) & !(1u64 << y)) | (1u64 << x)) | (1u64 << c)) == o)
        by (bit_vector) requires x < 64, y < 64, c < 64, x != y, x != c, y != c,
            (o >> x) & 1 == 1, (o >> y) & 1 != 1, (o >> c) & 1 == 1;
    assert(u.pieces =~= v.pieces);
    assert(u.colors =~= v.colors);
}

#[verifier::rlimit(100)]
#[verifier::spinoff_prover]
proof fn lemma_undo_promotion(v: PositionView, mv: Move)
    requires
        v.move_ok(mv),
        mv.flag_spec() >= 5,
    ensures
        v.make_spec(mv).can_unmake(mv),
        v.make_spec(mv).unmake_spec(mv, v.unmake_state_spec(mv)) == v,
{
    let us = v.side;
    let them = us.other();
    let from = mv.from_idx();
    let to = mv.to_idx();
    let promo = promo_of_flag(mv.flag_spec())->0;
    lemma_move_squares(mv);
    lemma_wf_colors(v, us, from);
    lemma_wf_colors(v, us, to);
    lemma_wf_colors(v, them, to);
    let ip = pidx(us, PieceType::Pawn);
    let ir = pidx(us, promo);
    let cu = us.idx() as int;
    let ct = them.idx() as int;
    let w = v.make_spec(mv);
    let st = v.unmake_state_spec(mv);
    let u = w.unmake_spec(mv, st);
    assert(w.hash_history.drop_last() =~= v.hash_history);
    lemma_clear_set(v.pieces[ip], from);
    assert(!has_bit(v.pieces[ir], to));
    lemma_set_clear(v.pieces[ir], to);
    lemma_move_back(v.colors[cu], from, to);
    match v.captured_type(mv) {
        Some(c) => {
            let it = pidx(them, c);
            assert(has_bit(v.pieces[it], to));
            assert(has_bit(v.colors[ct], to));
            lemma_clear_set(v.pieces[it], to);
            lemma_clear_set(v.colors[ct], to);
            let o = v.occupancy;
            assert(has_bit(o, from) && has_bit(o, to));
            let x = from as u64;
            let y = to as u64;
            assert(((((((o & !(1u64 << y)) & !(1u64 << x)) | (1u64 << y)) & !(1u64 << y)) | (1u64 << x)) | (1u64 << y)) == o)
                by (bit_vector) requires x < 64, y < 64, (o >> x) & 1 == 1, (o >> y) & 1 == 1;
            assert(u.pieces =~= v.pieces);
            assert(u.colors =~= v.colors);
        },
        None => {
            assert(!has_bit(v.occupancy, to));
            lemma_move_back(v.occupancy, from, to);
            assert(u.pieces =~= v.pieces);
            assert(u.colors =~= v.colors);
        },
    }
}

/// Reverting a null move with the state it saved gives back the position.
pub proof fn lemma_unmake_null_undoes_null(v: PositionView)
    ensures
        v.null_move_spec().unmake_null_spec(
            NullMoveState { en_passant: v.en_passant, halfmove_clock: v.halfmove_clock, hash: v.hash },
        ) == v,
{
    assert(v.null_move_spec().hash_history.drop_last() =~= v.hash_history);
}

/// Making a promotion puts the piece its flag names on the destination square, for the
/// side that moved, and takes the pawn off its origin.
pub proof fn lemma_promotion_places_named_piece(v: PositionView, mv: Move)
    requires
        v.move_ok(mv),
        mv.flag_spec() >= 5,
    ensures
        mv.flag_spec() == MoveFlag::PromoteKnight.code_spec()
            ==> has_bit(v.make_spec(mv).bb(v.side, PieceType::Knight), mv.to_idx()),
        mv.flag_spec() == MoveFlag::PromoteBishop.code_spec()
            ==> has_bit(v.make_spec(mv).bb(v.side, PieceType::Bishop), mv.to_idx()),
        mv.flag_spec() == MoveFlag::PromoteRook.code_spec()
            ==> has_bit(v.make_spec(mv).bb(v.side, PieceType::Rook), mv.to_idx()),
        mv.flag_spec() == MoveFlag::PromoteQueen.code_spec()
            ==> has_bit(v.make_spec(mv).bb(v.side, PieceType::Queen), mv.to_idx()),
        !has_bit(v.make_spec(mv).bb(v.side, PieceType::Pawn), mv.from_idx()),
{
    lemma_move_squares(mv);
    let us = v.side;
    let from = mv.from_idx();
    let to = mv.to_idx();
    let promo = promo_of_flag(mv.flag_spec())->0;
    let v3 = v.make_prelude().apply_capture(mv);
    let r = v3.remove(us, PieceType::Pawn, from);
    let p = r.put(us, promo, to);
    lemma_put_bit(r.pieces[pidx(us, promo)], to, to);
    lemma_remove_bit(v3.pieces[pidx(us, PieceType::Pawn)], from, from);
    if promo != PieceType::Pawn {
        assert(pidx(us, promo) != pidx(us, PieceType::Pawn));
    }
    assert(v.make_spec(mv).pieces == p.pieces);
}

/// Masking castling rights never adds a right.
pub proof fn lemma_castling_mask_le(c: u8, m1: u8, m2: u8)
    ensures
        c & m1 & m2 <= c,
{
    assert(c & m1 & m2 <= c) by (bit_vector);
}

/// Testing a bitboard against a single-square mask.
pub proof fn lemma_bit_test(b: u64, s: int)
    requires
        0 <= s < 64,
    ensures
        (b & sq_bit(s) != 0) <==> has_bit(b, s),
{
    crate::board::bitboard::lemma_square_test(b, s);
}

} // verus!

verus! {

/// What making a move does to the board depends on the board alone, not on the hash.
pub proof fn lemma_make_board(x: PositionView, y: PositionView, mv: Move)
    requires
        x.board() == y.board(),
    ensures
        x.make_spec(mv).board() == y.make_spec(mv).board(),
{
    assert(x.pieces == y.pieces && x.colors == y.colors && x.occupancy == y.occupancy);
    assert(x.side == y.side && x.castling == y.castling && x.en_passant == y.en_passant);
    assert(x.halfmove_clock == y.halfmove_clock && x.fullmove == y.fullmove && x.checks_given == y.checks_given);
    assert(x.make_body(mv).board() == y.make_body(mv).board());
}

/// Whether a move is well-formed depends on the board alone.
pub proof fn lemma_move_ok_board(x: PositionView, y: PositionView, mv: Move)
    requires
        x.board() == y.board(),
    ensures
        x.move_ok(mv) == y.move_ok(mv),
        x.can_make(mv) == y.can_make(mv),
        x.valid() == y.valid(),
{
    assert(x.pieces == y.pieces && x.colors == y.colors && x.occupancy == y.occupancy);
    assert(x.side == y.side && x.castling == y.castling && x.en_passant == y.en_passant);
    assert(x.halfmove_clock == y.halfmove_clock && x.fullmove == y.fullmove && x.checks_given == y.checks_given);
}

/// A set bit makes a word non-zero.
pub proof fn lemma_bit_nonzero(b: u64, s: int)
    requires
        has_bit(b, s),
    ensures
        b != 0,
{
    crate::board::bitboard::lemma_zero_bits();
}

/// Making a move never takes away the king of the side that moves.
pub proof fn lemma_king_survives(v: PositionView, mv: Move)
    requires
        v.pieces.len() == 12,
        v.colors.len() == 2,
        v.can_make(mv),
        v.bb(v.side, PieceType::King) != 0,
    ensures
        v.make_spec(mv).bb(v.side, PieceType::King) != 0,
{
    let us = v.side;
    let flag = mv.flag_spec();
    let to = mv.to_idx();
    lemma_move_squares(mv);
    let w = v.make_spec(mv);
    let ki = pidx(us, PieceType::King);
    if (flag == 0 || flag == 1) && v.moving_type(mv) == PieceType::King || flag == 2 || flag == 3 {
        let x = v.make_prelude().apply_capture(mv).pieces[ki] & !sq_bit(mv.from_idx());
        lemma_put_bit(x, to, to);
        lemma_bit_nonzero(w.bb(us, PieceType::King), to);
    } else {
        assert(w.bb(us, PieceType::King) == v.bb(us, PieceType::King));
    }
}

/// After a move that can be made, it can be unmade.
pub proof fn lemma_make_can_unmake(v: PositionView, mv: Move)
    requires
        v.pieces.len() == 12,
        v.colors.len() == 2,
        v.can_make(mv),
    ensures
        v.make_spec(mv).can_unmake(mv),
{
    let us = v.side;
    let flag = mv.flag_spec();
    let to = mv.to_idx();
    lemma_move_squares(mv);
    let w = v.make_spec(mv);
    if flag == 0 || flag == 1 {
        let mpt = v.moving_type(mv);
        let x = v.make_prelude().apply_capture(mv).pieces[pidx(us, mpt)] & !sq_bit(mv.from_idx());
        lemma_put_bit(x, to, to);
        assert(has_bit(w.bb(us, mpt), to));
    }
}

/// Unmaking a move treats positions that differ only in their hash alike.
pub proof fn lemma_unmake_board(x: PositionView, y: PositionView, mv: Move, st: UnmakeState)
    requires
        x.same_but_hash(y),
    ensures
        x.unmake_spec(mv, st).same_but_hash(y.unmake_spec(mv, st)),
        x.can_unmake(mv) == y.can_unmake(mv),
{
}

/// The fields of a move value are in range.
pub proof fn lemma_move_field_bounds(x: u32)
    ensures
        x & 0x3f < 64,
        (x >> 6u32) & 0x3f < 64,
        (x >> 15u32) & 0xf < 16,
{
    assert(x & 0x3f < 64 && (x >> 6u32) & 0x3f < 64 && (x >> 15u32) & 0xf < 16) by (bit_vector);
}

/// A move value built from in-range fields decodes to them.
pub proof fn lemma_encode_fields(f: u32, t: u32, p: u32, c: u32)
    requires
        f < 64,
        t < 64,
        p < 8,
        c <= 8,
    ensures
        ((f | (t << 6u32) | (p << 12u32) | (c << 15u32)) & 0x3f) == f,
        (((f | (t << 6u32) | (p << 12u32) | (c << 15u32)) >> 6u32) & 0x3f) == t,
        (((f | (t << 6u32) | (p << 12u32) | (c << 15u32)) >> 12u32) & 0x7) == p,
        (((f | (t << 6u32) | (p << 12u32) | (c << 15u32)) >> 15u32) & 0xf) == c,
{
    assert(f < 64 && t < 64 && p < 8 && c <= 8 ==> ((f | (t << 6u32) | (p << 12u32) | (c << 15u32)) & 0x3f) == f
        && (((f | (t << 6u32) | (p << 12u32) | (c << 15u32)) >> 6u32) & 0x3f) == t
        && (((f | (t << 6u32) | (p << 12u32) | (c << 15u32)) >> 12u32) & 0x7) == p
        && (((f | (t << 6u32) | (p << 12u32) | (c << 15u32)) >> 15u32) & 0xf) == c) by (bit_vector);
}

} // verus!
