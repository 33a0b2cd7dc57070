//! Legal move generation and check detection: pseudo-legal moves are kept when the
//! king of the side that moved is not left attacked.
use vstd::prelude::*;
use crate::board::bitboard::{
    has_bit, low, rest, lsb, pop_lsb, bits_where, white_pawn_attacks, black_pawn_attacks, lemma_or_bits,
    lemma_low_rest, lemma_low_unique, lemma_rest_smaller, file_of, popcount, popcount_spec, lemma_popcount_le_64,
};
use crate::board::color::Color;
use crate::board::piece::PieceType;
use crate::board::position::{
    Move, Position, PositionView, lemma_king_survives, lemma_make_can_unmake, lemma_make_board,
    lemma_move_ok_board, lemma_unmake_undoes_make,
};
use crate::movegen::attacks::{
    knight_att, king_att, pawn_att, rook_att, bishop_att, pawn_attacks, knight_attacks_sq,
    bishop_attacks, rook_attacks, king_attacks_sq, lemma_pawn_att, pawn_attack,
};
use crate::movegen::pseudo_legal::{
    MoveList, generate_all, generate_captures, pseudo_moves, capture_moves, piece_att,
    piece_attacks, lemma_pseudo_moves_ok, lemma_capture_moves_ok,
};

verus! {

// ─── Specification ────────────────────────────────────────────────────────────

/// Square `sq` is attacked by a piece of color `by`: a pawn, knight, bishop or queen on a
/// diagonal, rook or queen on a line, or the king.
pub open spec fn attacked_by(v: PositionView, sq: int, by: Color) -> bool {
    let occ = v.occupancy;
    ||| pawn_att(by.other(), sq) & v.bb(by, PieceType::Pawn) != 0
    ||| knight_att(sq) & v.bb(by, PieceType::Knight) != 0
    ||| bishop_att(sq, occ) & (v.bb(by, PieceType::Bishop) | v.bb(by, PieceType::Queen)) != 0
    ||| rook_att(sq, occ) & (v.bb(by, PieceType::Rook) | v.bb(by, PieceType::Queen)) != 0
    ||| king_att(sq) & v.bb(by, PieceType::King) != 0
}

/// The square of the king of color `c` (the lowest, should there be several).
pub open spec fn king_square(v: PositionView, c: Color) -> int {
    low(v.bb(c, PieceType::King))
}

/// The king of color `c` is attacked.
pub open spec fn in_check(v: PositionView, c: Color) -> bool {
    attacked_by(v, king_square(v, c), c.other())
}

/// A castling king neither starts on nor crosses a square the opponent attacks (the
/// square it crosses lies halfway between its start and its destination).
pub open spec fn castle_path_safe(v: PositionView, mv: Move) -> bool {
    (mv.flag_spec() == 2 || mv.flag_spec() == 3) ==> {
        &&& !attacked_by(v, mv.from_idx(), v.side.other())
        &&& !attacked_by(v, (mv.from_idx() + mv.to_idx()) / 2, v.side.other())
    }
}

/// Making `mv` does not leave the king of the side that moves attacked, and a castling
/// king does not castle out of or through check.
pub open spec fn leaves_king_safe(v: PositionView, mv: Move) -> bool {
    castle_path_safe(v, mv) && !in_check(v.make_spec(mv), v.side)
}

/// The filter that keeps the moves of `v` that leave the king safe.
pub open spec fn safe_in(v: PositionView) -> spec_fn(Move) -> bool {
    |m: Move| leaves_king_safe(v, m)
}

/// The legal moves: the pseudo-legal moves, in generation order, that leave the king safe.
pub open spec fn legal_seq(v: PositionView) -> Seq<Move> {
    pseudo_moves(v).filter(safe_in(v))
}

/// The legal captures, in generation order.
pub open spec fn legal_capture_seq(v: PositionView) -> Seq<Move> {
    capture_moves(v).filter(safe_in(v))
}

/// The squares attacked by the pieces in `pieces`, all of type `pt` (not a pawn).
pub open spec fn union_att(pieces: u64, pt: PieceType, occ: u64, t: int) -> bool {
    exists|s: int| has_bit(pieces, s) && #[trigger] has_bit(piece_att(pt, s, occ), t)
}

/// Square `t` is attacked by color `by`, as [`attacked_squares`] counts it: every pawn,
/// knight, bishop, rook and queen, and the king on the lowest king square.
pub open spec fn attacks_square(v: PositionView, by: Color, t: int) -> bool {
    let occ = v.occupancy;
    let pawns = v.bb(by, PieceType::Pawn);
    let king = v.bb(by, PieceType::King);
    ||| (exists|s: int| has_bit(pawns, s) && #[trigger] has_bit(pawn_att(by, s), t))
    ||| union_att(v.bb(by, PieceType::Knight), PieceType::Knight, occ, t)
    ||| union_att(v.bb(by, PieceType::Bishop), PieceType::Bishop, occ, t)
    ||| union_att(v.bb(by, PieceType::Rook), PieceType::Rook, occ, t)
    ||| union_att(v.bb(by, PieceType::Queen), PieceType::Queen, occ, t)
    ||| king != 0 && has_bit(king_att(low(king)), t)
}

/// The number of enemy pieces giving check to the king of the side to move: the pawns,
/// knights, diagonal sliders and straight sliders that attack its square.
pub open spec fn checkers(v: PositionView) -> nat {
    let us = v.side;
    let them = us.other();
    let k = king_square(v, us);
    let occ = v.occupancy;
    popcount_spec(pawn_att(us, k) & v.bb(them, PieceType::Pawn))
        + popcount_spec(knight_att(k) & v.bb(them, PieceType::Knight))
        + popcount_spec(bishop_att(k, occ) & (v.bb(them, PieceType::Bishop) | v.bb(them, PieceType::Queen)))
        + popcount_spec(rook_att(k, occ) & (v.bb(them, PieceType::Rook) | v.bb(them, PieceType::Queen)))
}

// ─── Attacks ──────────────────────────────────────────────────────────────────

/// Returns true if a square is attacked by the given color.
pub fn is_square_attacked(pos: &Position, sq: u32, attacker: Color) -> (b: bool)
    requires
        sq < 64,
    ensures
        b == attacked_by(pos@, sq as int, attacker),
{
    let occ = pos.occupancy;
    if pawn_attacks(attacker.flip(), sq) & pos.bb(attacker, PieceType::Pawn) != 0 {
        return true;
    }
    if knight_attacks_sq(sq) & pos.bb(attacker, PieceType::Knight) != 0 {
        return true;
    }
    if bishop_attacks(sq, occ) & (pos.bb(attacker, PieceType::Bishop) | pos.bb(attacker, PieceType::Queen)) != 0 {
        return true;
    }
    if rook_attacks(sq, occ) & (pos.bb(attacker, PieceType::Rook) | pos.bb(attacker, PieceType::Queen)) != 0 {
        return true;
    }
    if king_attacks_sq(sq) & pos.bb(attacker, PieceType::King) != 0 {
        return true;
    }
    false
}

/// Returns true if the given color's king is currently in check.
pub fn is_in_check(pos: &Position, color: Color) -> (b: bool)
    requires
        pos@.bb(color, PieceType::King) != 0,
    ensures
        b == in_check(pos@, color),
{
    let king = pos.king_sq(color);
    proof {
        lemma_low_unique(pos@.bb(color, PieceType::King), king.idx() as int);
    }
    is_square_attacked(pos, king.index_u8() as u32, color.flip())
}

/// The union of the attack sets of the pieces in `pieces`, all of type `pt`.
pub open spec fn union_bb(pieces: u64, pt: PieceType, occ: u64) -> u64 {
    bits_where(|t: int| union_att(pieces, pt, occ, t))
}

/// The union of the attack sets of the pieces in `pieces`, all of type `pt`.
pub(crate) fn union_attacks(pieces: u64, pt: PieceType, occ: u64) -> (a: u64)
    ensures
        forall|t: int| #![trigger has_bit(a, t)] has_bit(a, t) <==> union_att(pieces, pt, occ, t),
        a == union_bb(pieces, pt, occ),
{
    let mut rem = pieces;
    let mut acc = 0u64;
    proof {
        crate::board::bitboard::lemma_zero_bits();
    }
    while rem != 0
        invariant
            forall|s: int| #[trigger] has_bit(rem, s) ==> has_bit(pieces, s),
            forall|t: int| #![trigger has_bit(acc, t)] has_bit(acc, t) <==>
                exists|s: int| has_bit(pieces, s) && !has_bit(rem, s) && #[trigger] has_bit(piece_att(pt, s, occ), t),
        decreases rem,
    {
        let ghost r0 = rem;
        let ghost a0 = acc;
        proof {
            lemma_low_rest(rem);
            lemma_rest_smaller(rem);
        }
        let sq = pop_lsb(&mut rem);
        let att = piece_attacks(pt, sq, occ);
        acc = acc | att;
        proof {
            lemma_or_bits(a0, att);
            assert forall|t: int| #![trigger has_bit(acc, t)] has_bit(acc, t) <==>
                exists|s: int| has_bit(pieces, s) && !has_bit(rem, s) && #[trigger] has_bit(piece_att(pt, s, occ), t) by {
                if has_bit(acc, t) {
                    if has_bit(a0, t) {
                        let s = choose|s: int| has_bit(pieces, s) && !has_bit(r0, s) && #[trigger] has_bit(piece_att(pt, s, occ), t);
                        assert(!has_bit(rem, s));
                    } else {
                        assert(has_bit(piece_att(pt, sq as int, occ), t));
                        assert(!has_bit(rem, sq as int));
                    }
                }
                if exists|s: int| has_bit(pieces, s) && !has_bit(rem, s) && #[trigger] has_bit(piece_att(pt, s, occ), t) {
                    let s = choose|s: int| has_bit(pieces, s) && !has_bit(rem, s) && #[trigger] has_bit(piece_att(pt, s, occ), t);
                    if s != sq as int {
                        assert(!has_bit(r0, s));
                    }
                }
            }
        }
    }
    proof {
        crate::board::bitboard::lemma_bits_where(acc, |t: int| union_att(pieces, pt, occ, t));
    }
    acc
}

/// Returns a bitboard of all squares attacked by the given color.
pub fn attacked_squares(pos: &Position, attacker: Color) -> (a: u64)
    ensures
        forall|t: int| #![trigger has_bit(a, t)] has_bit(a, t) <==> attacks_square(pos@, attacker, t),
{
    let occ = pos.occupancy;
    let pawns = pos.bb(attacker, PieceType::Pawn);
    let p = match attacker {
        Color::White => white_pawn_attacks(pawns),
        Color::Black => black_pawn_attacks(pawns),
    };
    let n = union_attacks(pos.bb(attacker, PieceType::Knight), PieceType::Knight, occ);
    let b = union_attacks(pos.bb(attacker, PieceType::Bishop), PieceType::Bishop, occ);
    let r = union_attacks(pos.bb(attacker, PieceType::Rook), PieceType::Rook, occ);
    let q = union_attacks(pos.bb(attacker, PieceType::Queen), PieceType::Queen, occ);
    let king = pos.bb(attacker, PieceType::King);
    let k = if king != 0 { king_attacks_sq(lsb(king)) } else { 0u64 };
    let attacks = p | n | b | r | q | k;
    proof {
        if king != 0 {
            lemma_low_rest(king);
        }
        assert forall|t: int| #![trigger has_bit(k, t)] has_bit(k, t) <==> (king != 0 && has_bit(king_att(low(king)), t)) by {
            crate::board::bitboard::lemma_zero_bits();
        }
        assert forall|t: int| #![trigger has_bit(p, t)] has_bit(p, t) <==>
            (exists|s: int| has_bit(pawns, s) && #[trigger] has_bit(pawn_att(attacker, s), t)) by {
            lemma_pawn_set(attacker, pawns, p, t);
        }
        lemma_or_bits(p, n);
        lemma_or_bits(p | n, b);
        lemma_or_bits(p | n | b, r);
        lemma_or_bits(p | n | b | r, q);
        lemma_or_bits(p | n | b | r | q, k);
    }
    attacks
}

/// The shifted pawn attack set holds exactly the squares some pawn attacks.
proof fn lemma_pawn_set(c: Color, pawns: u64, p: u64, t: int)
    requires
        c == Color::White ==> forall|x: int| #![trigger has_bit(p, x)] has_bit(p, x) <==> (0 <= x < 64 && (
            (x >= 9 && file_of(x) != 0 && has_bit(pawns, x - 9))
            || (x >= 7 && file_of(x) != 7 && has_bit(pawns, x - 7)))),
        c == Color::Black ==> forall|x: int| #![trigger has_bit(p, x)] has_bit(p, x) <==> (0 <= x < 64 && (
            (x < 57 && file_of(x) != 0 && has_bit(pawns, x + 7))
            || (x < 55 && file_of(x) != 7 && has_bit(pawns, x + 9)))),
    ensures
        has_bit(p, t) <==> (exists|s: int| has_bit(pawns, s) && #[trigger] has_bit(pawn_att(c, s), t)),
{
    let d1: int = if c == Color::White { 9 } else { -7 };
    let d2: int = if c == Color::White { 7 } else { -9 };
    if has_bit(p, t) {
        if c == Color::White {
            if t >= 9 && file_of(t) != 0 && has_bit(pawns, t - 9) {
                lemma_pawn_att(c, t - 9);
                assert(has_bit(pawn_att(c, t - 9), t));
            } else {
                lemma_pawn_att(c, t - 7);
                assert(has_bit(pawn_att(c, t - 7), t));
            }
        } else {
            if t < 57 && file_of(t) != 0 && has_bit(pawns, t + 7) {
                lemma_pawn_att(c, t + 7);
                assert(has_bit(pawn_att(c, t + 7), t));
            } else {
                lemma_pawn_att(c, t + 9);
                assert(has_bit(pawn_att(c, t + 9), t));
            }
        }
    }
    if exists|s: int| has_bit(pawns, s) && #[trigger] has_bit(pawn_att(c, s), t) {
        let s = choose|s: int| has_bit(pawns, s) && #[trigger] has_bit(pawn_att(c, s), t);
        lemma_pawn_att(c, s);
        assert(pawn_attack(c, s, t));
    }
}

// ─── Legality ─────────────────────────────────────────────────────────────────

/// Checks if a move is fully legal (does not leave king in check). The position is
/// made and unmade in place.
pub fn is_legal(pos: &mut Position, mv: Move) -> (b: bool)
    requires
        old(pos)@.can_make(mv),
        old(pos)@.bb(old(pos).side, PieceType::King) != 0,
    ensures
        b == leaves_king_safe(old(pos)@, mv),
        castle_path_safe(old(pos)@, mv) ==> final(pos)@ == old(pos)@.make_spec(mv).unmake_spec(mv, old(pos)@.unmake_state_spec(mv)),
        !castle_path_safe(old(pos)@, mv) ==> final(pos)@ == old(pos)@,
{
    let ghost v = pos@;
    let flag = mv.flag();
    if flag == 2 || flag == 3 {
        let from = mv.from().index_u8() as u32;
        let to = mv.to().index_u8() as u32;
        let them = pos.side.flip();
        if is_square_attacked(pos, from, them) || is_square_attacked(pos, (from + to) / 2, them) {
            return false;
        }
    }
    let state = pos.make_move(mv);
    proof {
        lemma_king_survives(v, mv);
        lemma_make_can_unmake(v, mv);
    }
    let legal = !is_in_check(pos, pos.side.flip());
    pos.unmake_move(mv, state);
    legal
}

/// Whether a move leaves the king safe depends on the board alone.
proof fn lemma_safe_board(x: PositionView, y: PositionView, mv: Move)
    requires
        x.board() == y.board(),
    ensures
        leaves_king_safe(x, mv) == leaves_king_safe(y, mv),
{
    lemma_make_board(x, y, mv);
    let a = x.make_spec(mv);
    let b = y.make_spec(mv);
    assert(a.pieces == b.pieces && a.occupancy == b.occupancy && x.side == y.side);
    assert(x.pieces == y.pieces && x.occupancy == y.occupancy);
    assert(castle_path_safe(x, mv) == castle_path_safe(y, mv));
}

/// Keeps the moves of `moves` that are legal in the position; the position is
/// unchanged.
fn filter_legal(pos: &mut Position, moves: &MoveList) -> (legal: MoveList)
    requires
        old(pos)@.valid(),
        forall|i: int| 0 <= i < moves@.len() ==> old(pos)@.move_ok(#[trigger] moves@[i]),
    ensures
        legal.wf(),
        legal@ == moves@.filter(safe_in(old(pos)@)),
        final(pos)@ == old(pos)@,
{
    let ghost v = pos@;
    let mut legal = MoveList::new();
    let n = moves.moves.len();
    let mut i: usize = 0;
    while i < n
        invariant
            legal.wf(),
            n == moves@.len(),
            0 <= i <= n,
            v.valid(),
            forall|j: int| 0 <= j < moves@.len() ==> v.move_ok(#[trigger] moves@[j]),
            pos@ == v,
            legal@ == moves@.take(i as int).filter(safe_in(v)),
        decreases n - i,
    {
        let mv = moves.moves[i];
        proof {
            lemma_unmake_undoes_make(v, mv);
        }
        let ok = is_legal(pos, mv);
        let ghost l0 = legal@;
        if ok {
            legal.push(mv);
        }
        proof {
            let s = moves@.take(i as int + 1);
            assert(s.drop_last() =~= moves@.take(i as int));
            assert(s.last() == mv);
            reveal(Seq::filter);
            assert(legal@ == s.filter(safe_in(v)));
        }
        i = i + 1;
    }
    assert(moves@.take(n as int) =~= moves@);
    legal
}

/// Returns all fully legal moves in the position.
pub fn legal_moves(pos: &mut Position) -> (legal: MoveList)
    requires
        old(pos)@.valid(),
    ensures
        legal.wf(),
        legal@ == legal_seq(old(pos)@),
        final(pos)@ == old(pos)@,
{
    proof { lemma_pseudo_moves_ok(pos@); }
    let pseudo = generate_all(pos);
    filter_legal(pos, &pseudo)
}

/// Returns all legal captures (for quiescence search).
pub fn legal_captures(pos: &mut Position) -> (legal: MoveList)
    requires
        old(pos)@.valid(),
    ensures
        legal.wf(),
        legal@ == legal_capture_seq(old(pos)@),
        final(pos)@ == old(pos)@,
{
    proof { lemma_capture_moves_ok(pos@); }
    let pseudo = generate_captures(pos);
    filter_legal(pos, &pseudo)
}

/// Returns true if the current side has no legal moves (checkmate or stalemate).
pub fn has_no_legal_moves(pos: &mut Position) -> (b: bool)
    requires
        old(pos)@.valid(),
    ensures
        b <==> legal_seq(old(pos)@).len() == 0,
        final(pos)@ == old(pos)@,
{
    legal_moves(pos).is_empty()
}

/// Returns true if the position is checkmate.
pub fn is_checkmate(pos: &mut Position) -> (b: bool)
    requires
        old(pos)@.valid(),
    ensures
        b <==> (in_check(old(pos)@, old(pos).side) && legal_seq(old(pos)@).len() == 0),
        final(pos)@ == old(pos)@,
{
    is_in_check(pos, pos.side) && has_no_legal_moves(pos)
}

/// Returns true if the position is stalemate.
pub fn is_stalemate(pos: &mut Position) -> (b: bool)
    requires
        old(pos)@.valid(),
    ensures
        b <==> (!in_check(old(pos)@, old(pos).side) && legal_seq(old(pos)@).len() == 0),
        final(pos)@ == old(pos)@,
{
    !is_in_check(pos, pos.side) && has_no_legal_moves(pos)
}

/// Count checkers — how many pieces are giving check to the king.
pub fn checker_count(pos: &Position) -> (n: u32)
    requires
        pos@.bb(pos.side, PieceType::King) != 0,
    ensures
        n == checkers(pos@),
{
    let king = pos.king_sq(pos.side);
    proof {
        lemma_low_unique(pos@.bb(pos.side, PieceType::King), king.idx() as int);
    }
    let king_sq = king.index_u8() as u32;
    let them = pos.side.flip();
    let occ = pos.occupancy;
    let pa = pawn_attacks(pos.side, king_sq) & pos.bb(them, PieceType::Pawn);
    let na = knight_attacks_sq(king_sq) & pos.bb(them, PieceType::Knight);
    let ba = bishop_attacks(king_sq, occ) & (pos.bb(them, PieceType::Bishop) | pos.bb(them, PieceType::Queen));
    let ra = rook_attacks(king_sq, occ) & (pos.bb(them, PieceType::Rook) | pos.bb(them, PieceType::Queen));
    let a = popcount(pa);
    let b = popcount(na);
    let c = popcount(ba);
    let d = popcount(ra);
    proof {
        lemma_popcount_le_64(pa);
        lemma_popcount_le_64(na);
        lemma_popcount_le_64(ba);
        lemma_popcount_le_64(ra);
    }
    a + b + c + d
}

/// The pseudo-legal moves depend on the board alone.
pub proof fn lemma_pseudo_board(x: PositionView, y: PositionView)
    requires
        x.board() == y.board(),
    ensures
        pseudo_moves(x) == pseudo_moves(y),
        capture_moves(x) == capture_moves(y),
{
    assert(x.pieces == y.pieces && x.colors == y.colors && x.occupancy == y.occupancy);
    assert(x.side == y.side && x.castling == y.castling && x.en_passant == y.en_passant);
}

/// The legal moves depend on the board alone.
pub proof fn lemma_legal_board(x: PositionView, y: PositionView)
    requires
        x.board() == y.board(),
    ensures
        legal_seq(x) == legal_seq(y),
        legal_capture_seq(x) == legal_capture_seq(y),
{
    lemma_pseudo_board(x, y);
    assert forall|m: Move| #[trigger] safe_in(x)(m) == safe_in(y)(m) by {
        lemma_safe_board(x, y, m);
    }
    assert(safe_in(x) =~= safe_in(y));
}

/// In a consistent position every legal move is a well-formed move that leaves the
/// king safe.
pub proof fn lemma_legal_ok(v: PositionView)
    requires
        v.valid(),
    ensures
        forall|i: int| 0 <= i < legal_seq(v).len() ==> v.move_ok(#[trigger] legal_seq(v)[i])
            && leaves_king_safe(v, legal_seq(v)[i]),
{
    broadcast use vstd::seq_lib::group_filter_ensures;
    lemma_pseudo_moves_ok(v);
    assert forall|i: int| 0 <= i < legal_seq(v).len() implies v.move_ok(#[trigger] legal_seq(v)[i])
        && leaves_king_safe(v, legal_seq(v)[i]) by {
        let m = legal_seq(v)[i];
        assert(legal_seq(v).contains(m));
        pseudo_moves(v).lemma_filter_contains_rev(safe_in(v), m);
        let j = choose|j: int| 0 <= j < pseudo_moves(v).len() && pseudo_moves(v)[j] == m;
        assert(v.move_ok(pseudo_moves(v)[j]));
        pseudo_moves(v).lemma_filter_pred(safe_in(v), i);
    }
}


/// In a consistent position every legal capture is a well-formed move.
pub proof fn lemma_captures_ok(v: PositionView)
    requires
        v.valid(),
    ensures
        forall|i: int| 0 <= i < legal_capture_seq(v).len() ==> v.move_ok(#[trigger] legal_capture_seq(v)[i]),
{
    broadcast use vstd::seq_lib::group_filter_ensures;
    lemma_capture_moves_ok(v);
    assert forall|i: int| 0 <= i < legal_capture_seq(v).len() implies v.move_ok(#[trigger] legal_capture_seq(v)[i]) by {
        let m = legal_capture_seq(v)[i];
        assert(legal_capture_seq(v).contains(m));
        capture_moves(v).lemma_filter_contains_rev(safe_in(v), m);
        let j = choose|j: int| 0 <= j < capture_moves(v).len() && capture_moves(v)[j] == m;
        assert(v.move_ok(capture_moves(v)[j]));
    }
}


/// Every legal castling move of a consistent position starts from the king's home square,
/// and every square strictly between the king and the castling rook is empty: b1, c1 and
/// d1 (b8, c8, d8) for castling queenside, f1 and g1 (f8, g8) for castling kingside.
pub proof fn lemma_castling_path_empty(v: PositionView, m: Move)
    requires
        v.valid(),
        legal_seq(v).contains(m),
        m.flag_spec() == 2 || m.flag_spec() == 3,
    ensures
        m.from_idx() == (if v.side == Color::White { 4int } else { 60int }),
        forall|s: int| crate::board::position::strictly_between(m.from_idx(),
            crate::board::position::castle_rook_squares(v.side, m.flag_spec() == 2).0, s)
            ==> !has_bit(v.occupancy, s),
        v.side == Color::White && m.flag_spec() == 3
            ==> !has_bit(v.occupancy, 1) && !has_bit(v.occupancy, 2) && !has_bit(v.occupancy, 3),
        v.side == Color::White && m.flag_spec() == 2 ==> !has_bit(v.occupancy, 5) && !has_bit(v.occupancy, 6),
        v.side == Color::Black && m.flag_spec() == 3
            ==> !has_bit(v.occupancy, 57) && !has_bit(v.occupancy, 58) && !has_bit(v.occupancy, 59),
        v.side == Color::Black && m.flag_spec() == 2 ==> !has_bit(v.occupancy, 61) && !has_bit(v.occupancy, 62),
{
    lemma_legal_ok(v);
    let i = choose|i: int| 0 <= i < legal_seq(v).len() && legal_seq(v)[i] == m;
    assert(v.move_ok(legal_seq(v)[i]));
    assert(v.castle_ok(m));
    assert(crate::board::position::strictly_between(m.from_idx(),
        crate::board::position::castle_rook_squares(v.side, m.flag_spec() == 2).0, 1)
        ==> !has_bit(v.occupancy, 1));
    assert(crate::board::position::strictly_between(m.from_idx(),
        crate::board::position::castle_rook_squares(v.side, m.flag_spec() == 2).0, 57)
        ==> !has_bit(v.occupancy, 57));
}


/// A bitboard counts some pieces exactly when it is not empty.
proof fn lemma_popcount_pos(x: u64)
    ensures
        popcount_spec(x) > 0 <==> x != 0,
{
    if x != 0 {
        crate::board::bitboard::lemma_popcount_rest(x);
    }
}

/// Some piece gives check exactly when the side to move is in check (kings never stand
/// side by side, so the enemy king is no checker).
pub proof fn lemma_checkers_iff_in_check(v: PositionView)
    requires
        king_att(king_square(v, v.side)) & v.bb(v.side.other(), PieceType::King) == 0,
    ensures
        checkers(v) > 0 <==> in_check(v, v.side),
{
    let us = v.side;
    let them = us.other();
    let k = king_square(v, us);
    let occ = v.occupancy;
    assert(them.other() == us);
    lemma_popcount_pos(pawn_att(us, k) & v.bb(them, PieceType::Pawn));
    lemma_popcount_pos(knight_att(k) & v.bb(them, PieceType::Knight));
    lemma_popcount_pos(bishop_att(k, occ) & (v.bb(them, PieceType::Bishop) | v.bb(them, PieceType::Queen)));
    lemma_popcount_pos(rook_att(k, occ) & (v.bb(them, PieceType::Rook) | v.bb(them, PieceType::Queen)));
}

} // verus!
