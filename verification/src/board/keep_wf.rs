//! Making a move keeps a position well-formed.
use vstd::prelude::*;
use crate::board::bitboard::{has_bit, lemma_or_bits, lemma_and_bits, lemma_bits_ext, lemma_zero_bits};
use crate::board::color::Color;
use crate::board::piece::PieceType;
use crate::board::position::{
    PositionView, Move, pidx, push_of, castle_rook_squares, promo_of_flag, lemma_put_bit, lemma_remove_bit,
    lemma_wf_colors, lemma_move_squares, lemma_castling_mask_le,
};

verus! {

/// The square `t` is consistent across the bitboards: at most one piece kind holds it,
/// and the color and occupancy bitboards hold it exactly when a piece does.
pub open spec fn square_wf(v: PositionView, t: int) -> bool {
    let p = v.pieces;
    &&& forall|i: int, j: int| 0 <= i < j < 12 ==> !(#[trigger] has_bit(p[i], t) && #[trigger] has_bit(p[j], t))
    &&& has_bit(v.colors[0], t) == (has_bit(p[0], t) || has_bit(p[1], t) || has_bit(p[2], t)
        || has_bit(p[3], t) || has_bit(p[4], t) || has_bit(p[5], t))
    &&& has_bit(v.colors[1], t) == (has_bit(p[6], t) || has_bit(p[7], t) || has_bit(p[8], t)
        || has_bit(p[9], t) || has_bit(p[10], t) || has_bit(p[11], t))
    &&& has_bit(v.occupancy, t) == (has_bit(v.colors[0], t) || has_bit(v.colors[1], t))
}

/// Well-formedness stated square by square.
pub open spec fn bits_wf(v: PositionView) -> bool {
    &&& v.pieces.len() == 12
    &&& v.colors.len() == 2
    &&& v.checks_given.len() == 2
    &&& v.castling < 16
    &&& forall|t: int| 0 <= t < 64 ==> #[trigger] square_wf(v, t)
}

/// The unions of the piece bitboards, bit by bit.
proof fn lemma_union_bits(v: PositionView)
    requires
        v.pieces.len() == 12,
        v.colors.len() == 2,
    ensures
        forall|t: int| #![trigger has_bit(v.pieces[0] | v.pieces[1] | v.pieces[2] | v.pieces[3] | v.pieces[4] | v.pieces[5], t)]
            has_bit(v.pieces[0] | v.pieces[1] | v.pieces[2] | v.pieces[3] | v.pieces[4] | v.pieces[5], t)
            == (has_bit(v.pieces[0], t) || has_bit(v.pieces[1], t) || has_bit(v.pieces[2], t)
            || has_bit(v.pieces[3], t) || has_bit(v.pieces[4], t) || has_bit(v.pieces[5], t)),
        forall|t: int| #![trigger has_bit(v.pieces[6] | v.pieces[7] | v.pieces[8] | v.pieces[9] | v.pieces[10] | v.pieces[11], t)]
            has_bit(v.pieces[6] | v.pieces[7] | v.pieces[8] | v.pieces[9] | v.pieces[10] | v.pieces[11], t)
            == (has_bit(v.pieces[6], t) || has_bit(v.pieces[7], t) || has_bit(v.pieces[8], t)
            || has_bit(v.pieces[9], t) || has_bit(v.pieces[10], t) || has_bit(v.pieces[11], t)),
        forall|t: int| #![trigger has_bit(v.colors[0] | v.colors[1], t)]
            has_bit(v.colors[0] | v.colors[1], t) == (has_bit(v.colors[0], t) || has_bit(v.colors[1], t)),
{
    let p = v.pieces;
    lemma_or_bits(p[0], p[1]);
    lemma_or_bits(p[0] | p[1], p[2]);
    lemma_or_bits(p[0] | p[1] | p[2], p[3]);
    lemma_or_bits(p[0] | p[1] | p[2] | p[3], p[4]);
    lemma_or_bits(p[0] | p[1] | p[2] | p[3] | p[4], p[5]);
    lemma_or_bits(p[6], p[7]);
    lemma_or_bits(p[6] | p[7], p[8]);
    lemma_or_bits(p[6] | p[7] | p[8], p[9]);
    lemma_or_bits(p[6] | p[7] | p[8] | p[9], p[10]);
    lemma_or_bits(p[6] | p[7] | p[8] | p[9] | p[10], p[11]);
    lemma_or_bits(v.colors[0], v.colors[1]);
}

/// Well-formedness and its square-by-square form agree.
pub proof fn lemma_wf_bits(v: PositionView)
    requires
        v.pieces.len() == 12,
        v.colors.len() == 2,
    ensures
        v.wf() <==> bits_wf(v),
{
    let p = v.pieces;
    lemma_union_bits(v);
    lemma_zero_bits();
    if v.wf() {
        assert forall|t: int| 0 <= t < 64 implies #[trigger] square_wf(v, t) by {
            assert forall|i: int, j: int| 0 <= i < j < 12 implies !(#[trigger] has_bit(p[i], t) && #[trigger] has_bit(p[j], t)) by {
                lemma_and_bits(p[i], p[j]);
                assert(p[i] & p[j] == 0);
                assert(has_bit(p[i] & p[j], t) == (has_bit(p[i], t) && has_bit(p[j], t)));
                assert(!has_bit(0u64, t));
            }
        }
    }
    if bits_wf(v) {
        assert forall|i: int, j: int| 0 <= i < j < 12 implies #[trigger] p[i] & #[trigger] p[j] == 0 by {
            lemma_and_bits(p[i], p[j]);
            assert forall|t: int| 0 <= t < 64 implies has_bit(p[i] & p[j], t) == has_bit(0u64, t) by {
                assert(square_wf(v, t));
            }
            lemma_bits_ext(p[i] & p[j], 0u64);
        }
        assert forall|t: int| 0 <= t < 64 implies has_bit(v.colors[0], t)
            == has_bit(p[0] | p[1] | p[2] | p[3] | p[4] | p[5], t) by {
            assert(square_wf(v, t));
        }
        lemma_bits_ext(v.colors[0], p[0] | p[1] | p[2] | p[3] | p[4] | p[5]);
        assert forall|t: int| 0 <= t < 64 implies has_bit(v.colors[1], t)
            == has_bit(p[6] | p[7] | p[8] | p[9] | p[10] | p[11], t) by {
            assert(square_wf(v, t));
        }
        lemma_bits_ext(v.colors[1], p[6] | p[7] | p[8] | p[9] | p[10] | p[11]);
        assert forall|t: int| 0 <= t < 64 implies has_bit(v.occupancy, t)
            == has_bit(v.colors[0] | v.colors[1], t) by {
            assert(square_wf(v, t));
        }
        lemma_bits_ext(v.occupancy, v.colors[0] | v.colors[1]);
    }
}

/// Taking a piece off a square it stands on keeps the position well-formed and frees
/// that square alone.
pub proof fn lemma_remove_keeps_wf(v: PositionView, c: Color, pt: PieceType, s: int)
    requires
        bits_wf(v),
        0 <= s < 64,
        has_bit(v.bb(c, pt), s),
    ensures
        bits_wf(v.remove(c, pt, s)),
        forall|t: int| #[trigger] has_bit(v.remove(c, pt, s).occupancy, t) == (has_bit(v.occupancy, t) && t != s),
{
    broadcast use lemma_remove_bit;
    let w = v.remove(c, pt, s);
    let i = pidx(c, pt);
    assert(square_wf(v, s));
    assert forall|t: int| 0 <= t < 64 implies #[trigger] square_wf(w, t) by {
        assert(square_wf(v, t));
        assert forall|a: int| 0 <= a < 12 implies #[trigger] has_bit(w.pieces[a], t)
            == (has_bit(v.pieces[a], t) && !(a == i && t == s)) by {
            if a == i {
            } else {
                assert(w.pieces[a] == v.pieces[a]);
            }
        }
        if t == s {
            assert forall|a: int| 0 <= a < 12 && a != i implies !#[trigger] has_bit(v.pieces[a], t) by {
                if a < i {
                    assert(!(has_bit(v.pieces[a], t) && has_bit(v.pieces[i], t)));
                } else {
                    assert(!(has_bit(v.pieces[i], t) && has_bit(v.pieces[a], t)));
                }
            }
        }
        if c == Color::White {
            assert(w.colors[1] == v.colors[1]);
        } else {
            assert(w.colors[0] == v.colors[0]);
        }
    }
}

/// Putting a piece on an empty square keeps the position well-formed and occupies that
/// square alone.
pub proof fn lemma_put_keeps_wf(v: PositionView, c: Color, pt: PieceType, s: int)
    requires
        bits_wf(v),
        0 <= s < 64,
        !has_bit(v.occupancy, s),
    ensures
        bits_wf(v.put(c, pt, s)),
        forall|t: int| #[trigger] has_bit(v.put(c, pt, s).occupancy, t) == (has_bit(v.occupancy, t) || t == s),
{
    broadcast use lemma_put_bit;
    let w = v.put(c, pt, s);
    let i = pidx(c, pt);
    assert(square_wf(v, s));
    assert forall|t: int| 0 <= t < 64 implies #[trigger] square_wf(w, t) by {
        assert(square_wf(v, t));
        assert forall|a: int| 0 <= a < 12 implies #[trigger] has_bit(w.pieces[a], t)
            == (has_bit(v.pieces[a], t) || (a == i && t == s)) by {
            if a == i {
            } else {
                assert(w.pieces[a] == v.pieces[a]);
            }
        }
        if c == Color::White {
            assert(w.colors[1] == v.colors[1]);
        } else {
            assert(w.colors[0] == v.colors[0]);
        }
    }
}

/// Square-by-square well-formedness reads only the board bitboards, the castling rights
/// and the check counters.
proof fn lemma_bits_wf_same(a: PositionView, b: PositionView)
    requires
        a.pieces == b.pieces,
        a.colors == b.colors,
        a.occupancy == b.occupancy,
        a.castling == b.castling,
        a.checks_given == b.checks_given,
    ensures
        bits_wf(a) == bits_wf(b),
{
    if bits_wf(a) {
        assert forall|t: int| 0 <= t < 64 implies #[trigger] square_wf(b, t) by {
            assert(square_wf(a, t));
        }
    }
    if bits_wf(b) {
        assert forall|t: int| 0 <= t < 64 implies #[trigger] square_wf(a, t) by {
            assert(square_wf(b, t));
        }
    }
}

/// Moving a piece from a square it stands on to an empty square keeps the position
/// well-formed.
proof fn lemma_move_piece_keeps_wf(v: PositionView, c: Color, pt: PieceType, from: int, to: int)
    requires
        bits_wf(v),
        0 <= from < 64,
        0 <= to < 64,
        from != to,
        has_bit(v.bb(c, pt), from),
        !has_bit(v.occupancy, to),
    ensures
        bits_wf(v.move_piece(c, pt, from, to)),
        forall|t: int| #[trigger] has_bit(v.move_piece(c, pt, from, to).occupancy, t)
            == ((has_bit(v.occupancy, t) && t != from) || t == to),
{
    lemma_remove_keeps_wf(v, c, pt, from);
    let r = v.remove(c, pt, from);
    assert(!has_bit(r.occupancy, to));
    lemma_put_keeps_wf(r, c, pt, to);
}

/// The captured piece, if any, leaves the destination: the board stays well-formed,
/// the destination is empty and the pieces of the side to move are untouched.
proof fn lemma_capture_step(v: PositionView, mv: Move)
    requires
        v.move_ok(mv),
    ensures
        bits_wf(v.make_prelude().apply_capture(mv)),
        !has_bit(v.make_prelude().apply_capture(mv).occupancy, mv.to_idx()),
        forall|pt: PieceType| #[trigger] v.make_prelude().apply_capture(mv).bb(v.side, pt) == v.bb(v.side, pt),
        forall|t: int| #[trigger] has_bit(v.make_prelude().apply_capture(mv).occupancy, t) ==> has_bit(v.occupancy, t),
        v.make_prelude().apply_capture(mv).side == v.side,
        v.make_prelude().apply_capture(mv).castling == v.castling,
        v.make_prelude().apply_capture(mv).checks_given == v.checks_given,
        v.captured_type(mv) is None ==> v.make_prelude().apply_capture(mv).pieces == v.pieces,
{
    let us = v.side;
    let them = us.other();
    let to = mv.to_idx();
    lemma_move_squares(mv);
    lemma_wf_bits(v);
    lemma_wf_colors(v, us, to);
    lemma_wf_colors(v, them, to);
    let v1 = v.make_prelude();
    lemma_bits_wf_same(v, v1);
    let v3 = v1.apply_capture(mv);
    match v1.captured_type(mv) {
        Some(cp) => {
            assert(has_bit(v1.bb(them, cp), to));
            lemma_remove_keeps_wf(v1, them, cp, to);
            lemma_bits_wf_same(v3, v1.remove(them, cp, to));
            assert forall|pt: PieceType| #[trigger] v3.bb(us, pt) == v.bb(us, pt) by {
                assert(pidx(them, cp) != pidx(us, pt));
            }
        },
        None => {
            assert(!has_bit(v.occupancy, to));
        },
    }
}

/// The piece movements of a quiet move, a capture or a castling move keep the board
/// well-formed.
proof fn lemma_move_step(v: PositionView, mv: Move)
    requires
        v.move_ok(mv),
        mv.flag_spec() <= 3,
    ensures
        bits_wf(v.make_body(mv)),
        v.make_body(mv).castling == v.castling,
        v.make_body(mv).checks_given == v.checks_given,
{
    let us = v.side;
    let from = mv.from_idx();
    let to = mv.to_idx();
    let flag = mv.flag_spec();
    lemma_move_squares(mv);
    lemma_capture_step(v, mv);
    let v3 = v.make_prelude().apply_capture(mv);
    let v4 = v.make_body(mv);
    let mpt = v.moving_type(mv);
    assert(has_bit(v.bb(us, mpt), from));
    if flag == 0 || flag == 1 {
        assert(v3.bb(us, mpt) == v.bb(us, mpt));
        lemma_move_piece_keeps_wf(v3, us, mpt, from, to);
        lemma_bits_wf_same(v4, v3.move_piece(us, mpt, from, to));
    } else {
        let (rf, rt) = castle_rook_squares(us, flag == 2);
        lemma_wf_bits(v);
        lemma_wf_colors(v, us, to);
        lemma_wf_colors(v, us.other(), to);
        assert(v.captured_type(mv) is None);
        assert(v3.bb(us, PieceType::King) == v.bb(us, PieceType::King));
        lemma_move_piece_keeps_wf(v3, us, PieceType::King, from, to);
        let k = v3.move_piece(us, PieceType::King, from, to);
        assert(pidx(us, PieceType::King) != pidx(us, PieceType::Rook));
        assert(k.bb(us, PieceType::Rook) == v.bb(us, PieceType::Rook));
        assert(!has_bit(v3.occupancy, rt));
        assert(!has_bit(k.occupancy, rt));
        lemma_move_piece_keeps_wf(k, us, PieceType::Rook, rf, rt);
        lemma_bits_wf_same(v4, k.move_piece(us, PieceType::Rook, rf, rt));
    }
}

/// The piece movements of an en passant capture or a promotion keep the board
/// well-formed.
proof fn lemma_pawn_step(v: PositionView, mv: Move)
    requires
        v.move_ok(mv),
        mv.flag_spec() >= 4,
    ensures
        bits_wf(v.make_body(mv)),
        v.make_body(mv).castling == v.castling,
        v.make_body(mv).checks_given == v.checks_given,
{
    let us = v.side;
    let them = us.other();
    let from = mv.from_idx();
    let to = mv.to_idx();
    let flag = mv.flag_spec();
    lemma_move_squares(mv);
    lemma_capture_step(v, mv);
    let v3 = v.make_prelude().apply_capture(mv);
    let v4 = v.make_body(mv);
    assert(has_bit(v.bb(us, PieceType::Pawn), from));
    assert(v3.bb(us, PieceType::Pawn) == v.bb(us, PieceType::Pawn));
    if flag == 4 {
        let cap = to - push_of(us);
        lemma_wf_bits(v);
        lemma_wf_colors(v, us, to);
        lemma_wf_colors(v, them, to);
        assert(v.captured_type(mv) is None);
        lemma_move_piece_keeps_wf(v3, us, PieceType::Pawn, from, to);
        let m = v3.move_piece(us, PieceType::Pawn, from, to);
        assert(pidx(us, PieceType::Pawn) != pidx(them, PieceType::Pawn));
        assert(m.bb(them, PieceType::Pawn) == v.bb(them, PieceType::Pawn));
        lemma_remove_keeps_wf(m, them, PieceType::Pawn, cap);
        lemma_bits_wf_same(v4, m.remove(them, PieceType::Pawn, cap));
    } else {
        let promo = promo_of_flag(flag)->0;
        lemma_remove_keeps_wf(v3, us, PieceType::Pawn, from);
        let r = v3.remove(us, PieceType::Pawn, from);
        assert(!has_bit(r.occupancy, to));
        lemma_put_keeps_wf(r, us, promo, to);
        lemma_bits_wf_same(v4, r.put(us, promo, to));
    }
}

/// Making a well-formed move keeps a position well-formed.
pub proof fn lemma_make_keeps_wf(v: PositionView, mv: Move)
    requires
        v.move_ok(mv),
    ensures
        v.make_spec(mv).wf(),
{
    let from = mv.from_idx();
    let to = mv.to_idx();
    lemma_move_squares(mv);
    if mv.flag_spec() <= 3 {
        lemma_move_step(v, mv);
    } else {
        lemma_pawn_step(v, mv);
    }
    let v4 = v.make_body(mv);
    let w = v.make_spec(mv);
    lemma_castling_mask_le(v4.castling, crate::board::position::CASTLING_MASKS[from],
        crate::board::position::CASTLING_MASKS[to]);
    assert(w.castling < 16);
    assert forall|t: int| 0 <= t < 64 implies #[trigger] square_wf(w, t) by {
        assert(square_wf(v4, t));
    }
    lemma_wf_bits(w);
}

/// A null move keeps a position well-formed.
pub proof fn lemma_null_keeps_wf(v: PositionView)
    requires
        v.wf(),
    ensures
        v.null_move_spec().wf(),
{
}

} // verus!
