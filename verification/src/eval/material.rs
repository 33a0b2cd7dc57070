//! Material: packed piece values with bishop-pair, knight-pair and rook-pair terms, and
//! plain centipawn counts.
use vstd::prelude::*;
use crate::board::bitboard::{popcount, popcount_spec, lemma_popcount_le_64};
use crate::board::color::Color;
use crate::board::piece::PieceType;
use crate::board::position::{Position, PositionView};
use crate::eval::{fits, total, runs_fit, lemma_runs_fit_add, lemma_total_add, add_term};

verus! {

/// Packed values of pawn, knight, bishop, rook, queen and king.
pub const PIECE_VALUES: [i32; 6] = [13631614, 55968525, 59966265, 90440956, 175770090, 0];

/// Centipawn values of pawn, knight, bishop, rook, queen and king.
pub const SIMPLE_VALUES: [i32; 6] = [100, 320, 330, 500, 900, 20000];

/// Bishop pair bonus (23, 62).
pub const BISHOP_PAIR: i32 = 4063255;
/// Knight pair penalty (-5, -15).
pub const KNIGHT_PAIR: i32 = -983045;
/// Rook pair penalty (-15, -25).
pub const ROOK_PAIR: i32 = -1638415;

pub fn piece_value_simple(pt: PieceType) -> (v: i32)
    ensures
        v == SIMPLE_VALUES[pt.idx() as int],
{
    SIMPLE_VALUES[pt.index()]
}

/// +1 for White, -1 for Black.
pub open spec fn sign_of(c: Color) -> int {
    if c == Color::White { 1 } else { -1 }
}

/// The number of pieces of a kind.
pub open spec fn count(v: PositionView, c: Color, pt: PieceType) -> int {
    popcount_spec(v.bb(c, pt)) as int
}

/// The material terms of one side, in the order they are added.
pub open spec fn side_material_terms(v: PositionView, c: Color) -> Seq<int> {
    let s = sign_of(c);
    seq![
        s * count(v, c, PieceType::Pawn) * PIECE_VALUES[0],
        s * count(v, c, PieceType::Knight) * PIECE_VALUES[1],
        s * count(v, c, PieceType::Bishop) * PIECE_VALUES[2],
        s * count(v, c, PieceType::Rook) * PIECE_VALUES[3],
        s * count(v, c, PieceType::Queen) * PIECE_VALUES[4],
        s * count(v, c, PieceType::King) * PIECE_VALUES[5],
    ] + (if count(v, c, PieceType::Bishop) >= 2 { seq![s * BISHOP_PAIR] } else { Seq::empty() })
        + (if count(v, c, PieceType::Knight) >= 2 { seq![s * KNIGHT_PAIR] } else { Seq::empty() })
        + (if count(v, c, PieceType::Rook) >= 2 { seq![s * ROOK_PAIR] } else { Seq::empty() })
}

/// The material terms: White's, then Black's.
pub open spec fn material_terms(v: PositionView) -> Seq<int> {
    side_material_terms(v, Color::White) + side_material_terms(v, Color::Black)
}

/// Every term and every running total of the material evaluation fits in an `i32`.
pub open spec fn material_fits(v: PositionView) -> bool {
    &&& runs_fit(0, material_terms(v))
    &&& forall|i: int| 0 <= i < material_terms(v).len() ==> fits(#[trigger] material_terms(v)[i])
}

/// The packed material of one kind of piece, signed by color.
fn kind_material(pos: &Position, color: Color, pt: PieceType) -> (t: i32)
    requires
        fits(sign_of(color) * count(pos@, color, pt) * PIECE_VALUES[pt.idx() as int]),
    ensures
        t == sign_of(color) * count(pos@, color, pt) * PIECE_VALUES[pt.idx() as int],
{
    proof {
        lemma_popcount_le_64(pos@.bb(color, pt));
    }
    color.sign() * popcount(pos.bb(color, pt)) as i32 * PIECE_VALUES[pt.index()]
}

/// Adds the material terms of one side to `score`.
#[verifier::rlimit(40)]
fn add_side_material(pos: &Position, color: Color, score: i32) -> (r: i32)
    requires
        runs_fit(score as int, side_material_terms(pos@, color)),
        forall|i: int| 0 <= i < side_material_terms(pos@, color).len()
            ==> fits(#[trigger] side_material_terms(pos@, color)[i]),
    ensures
        r == score + total(side_material_terms(pos@, color)),
{
    let ghost t = side_material_terms(pos@, color);
    let ghost s = sign_of(color);
    let ghost v = pos@;
    let ghost b2 = if count(v, color, PieceType::Bishop) >= 2 { seq![s * BISHOP_PAIR] } else { Seq::<int>::empty() };
    let ghost n2 = if count(v, color, PieceType::Knight) >= 2 { seq![s * KNIGHT_PAIR] } else { Seq::<int>::empty() };
    let ghost r2 = if count(v, color, PieceType::Rook) >= 2 { seq![s * ROOK_PAIR] } else { Seq::<int>::empty() };
    let ghost base = seq![t[0], t[1], t[2], t[3], t[4], t[5]];
    assert(t =~= base + b2 + n2 + r2);
    let ghost tail = b2 + n2 + r2;
    assert(fits(t[0]) && fits(t[1]) && fits(t[2]) && fits(t[3]) && fits(t[4]) && fits(t[5]));
    let mut acc = score;
    assert(t =~= seq![t[0]] + (seq![t[1], t[2], t[3], t[4], t[5]] + tail));
    assert(seq![t[1], t[2], t[3], t[4], t[5]] + tail =~= seq![t[1]] + (seq![t[2], t[3], t[4], t[5]] + tail));
    assert(seq![t[2], t[3], t[4], t[5]] + tail =~= seq![t[2]] + (seq![t[3], t[4], t[5]] + tail));
    assert(seq![t[3], t[4], t[5]] + tail =~= seq![t[3]] + (seq![t[4], t[5]] + tail));
    assert(seq![t[4], t[5]] + tail =~= seq![t[4]] + (seq![t[5]] + tail));
    assert(seq![t[5]] + tail =~= seq![t[5]] + tail);
    acc = add_term(acc, kind_material(pos, color, PieceType::Pawn), Ghost(seq![t[1], t[2], t[3], t[4], t[5]] + tail));
    acc = add_term(acc, kind_material(pos, color, PieceType::Knight), Ghost(seq![t[2], t[3], t[4], t[5]] + tail));
    acc = add_term(acc, kind_material(pos, color, PieceType::Bishop), Ghost(seq![t[3], t[4], t[5]] + tail));
    acc = add_term(acc, kind_material(pos, color, PieceType::Rook), Ghost(seq![t[4], t[5]] + tail));
    acc = add_term(acc, kind_material(pos, color, PieceType::Queen), Ghost(seq![t[5]] + tail));
    acc = add_term(acc, kind_material(pos, color, PieceType::King), Ghost(tail));
    let sign = color.sign();
    proof {
        lemma_popcount_le_64(v.bb(color, PieceType::Bishop));
        lemma_popcount_le_64(v.bb(color, PieceType::Knight));
        lemma_popcount_le_64(v.bb(color, PieceType::Rook));
    }
    assert(tail =~= b2 + (n2 + r2));
    if popcount(pos.bb(color, PieceType::Bishop)) >= 2 {
        acc = add_term(acc, sign * BISHOP_PAIR, Ghost(n2 + r2));
    } else {
        assert(tail =~= n2 + r2);
    }
    if popcount(pos.bb(color, PieceType::Knight)) >= 2 {
        acc = add_term(acc, sign * KNIGHT_PAIR, Ghost(r2));
    } else {
        assert(n2 + r2 =~= r2);
    }
    if popcount(pos.bb(color, PieceType::Rook)) >= 2 {
        assert(r2 =~= seq![s * ROOK_PAIR] + Seq::<int>::empty());
        acc = add_term(acc, sign * ROOK_PAIR, Ghost(Seq::<int>::empty()));
    } else {
        assert(r2 =~= Seq::<int>::empty());
    }
    assert(total(Seq::<int>::empty()) == 0);
    acc
}

/// The packed material balance, White minus Black.
pub fn evaluate_material(pos: &Position) -> (s: i32)
    requires
        material_fits(pos@),
    ensures
        s == total(material_terms(pos@)),
{
    let ghost w = side_material_terms(pos@, Color::White);
    let ghost b = side_material_terms(pos@, Color::Black);
    proof {
        lemma_runs_fit_add(0, w, b);
        lemma_total_add(w, b);
        assert forall|i: int| 0 <= i < w.len() implies fits(#[trigger] w[i]) by {
            assert(material_terms(pos@)[i] == w[i]);
        }
        assert forall|i: int| 0 <= i < b.len() implies fits(#[trigger] b[i]) by {
            assert(material_terms(pos@)[w.len() + i] == b[i]);
        }
    }
    let score = add_side_material(pos, Color::White, 0);
    add_side_material(pos, Color::Black, score)
}

/// The centipawn material of one side's pawns, knights, bishops, rooks and queens.
pub open spec fn side_balance(v: PositionView, c: Color) -> int {
    count(v, c, PieceType::Pawn) * 100 + count(v, c, PieceType::Knight) * 320 + count(v, c, PieceType::Bishop) * 330
        + count(v, c, PieceType::Rook) * 500 + count(v, c, PieceType::Queen) * 900
}

/// The centipawn material of one side's knights, bishops, rooks and queens.
pub open spec fn side_non_pawn(v: PositionView, c: Color) -> int {
    count(v, c, PieceType::Knight) * 320 + count(v, c, PieceType::Bishop) * 330
        + count(v, c, PieceType::Rook) * 500 + count(v, c, PieceType::Queen) * 900
}

fn counted(pos: &Position, color: Color, pt: PieceType) -> (n: i32)
    ensures
        n == count(pos@, color, pt),
        0 <= n <= 64,
{
    proof {
        lemma_popcount_le_64(pos@.bb(color, pt));
    }
    popcount(pos.bb(color, pt)) as i32
}

/// Centipawn material balance, White minus Black (kings not counted).
pub fn material_balance(pos: &Position) -> (b: i32)
    ensures
        b == side_balance(pos@, Color::White) - side_balance(pos@, Color::Black),
{
    let mut balance = 0i32;
    balance = balance + counted(pos, Color::White, PieceType::Pawn) * SIMPLE_VALUES[0];
    balance = balance + counted(pos, Color::White, PieceType::Knight) * SIMPLE_VALUES[1];
    balance = balance + counted(pos, Color::White, PieceType::Bishop) * SIMPLE_VALUES[2];
    balance = balance + counted(pos, Color::White, PieceType::Rook) * SIMPLE_VALUES[3];
    balance = balance + counted(pos, Color::White, PieceType::Queen) * SIMPLE_VALUES[4];
    balance = balance - counted(pos, Color::Black, PieceType::Pawn) * SIMPLE_VALUES[0];
    balance = balance - counted(pos, Color::Black, PieceType::Knight) * SIMPLE_VALUES[1];
    balance = balance - counted(pos, Color::Black, PieceType::Bishop) * SIMPLE_VALUES[2];
    balance = balance - counted(pos, Color::Black, PieceType::Rook) * SIMPLE_VALUES[3];
    balance = balance - counted(pos, Color::Black, PieceType::Queen) * SIMPLE_VALUES[4];
    balance
}

/// Centipawn material of a side's pieces other than pawns and king.
pub fn non_pawn_material(pos: &Position, color: Color) -> (n: i32)
    ensures
        n == side_non_pawn(pos@, color),
{
    let mut npm = 0i32;
    npm = npm + counted(pos, color, PieceType::Knight) * SIMPLE_VALUES[1];
    npm = npm + counted(pos, color, PieceType::Bishop) * SIMPLE_VALUES[2];
    npm = npm + counted(pos, color, PieceType::Rook) * SIMPLE_VALUES[3];
    npm = npm + counted(pos, color, PieceType::Queen) * SIMPLE_VALUES[4];
    npm
}

} // verus!
