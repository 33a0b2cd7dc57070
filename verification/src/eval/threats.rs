//! Threats: rewards attacking enemy pieces with cheaper ones and penalizes hanging
//! pieces.
use vstd::prelude::*;
use crate::board::bitboard::{
    has_bit, low, rest, pop_lsb, popcount, popcount_spec, lemma_low_rest, lemma_rest_smaller,
    lemma_popcount_le_64, white_pawn_attacks, black_pawn_attacks, north, south,
};
use crate::board::color::Color;
use crate::board::piece::PieceType;
use crate::board::position::{Position, PositionView};
use crate::eval::{fits, total, runs_fit, square_terms, lemma_runs_fit_add, lemma_total_add, add_term};
use crate::eval::mobility::pawn_attack_set;
use crate::movegen::attacks::{pawn_attacks, knight_attacks_sq, bishop_attacks, rook_attacks, king_attacks_sq};
use crate::movegen::legal::{attacked_by, union_attacks, union_bb};

verus! {

/// A piece attacked and not defended (-69, -50).
pub const HANGING_PENALTY: i32 = -3276869;
/// A pawn attacking a minor piece (59, 30).
pub const PAWN_ATTACKS_MINOR: i32 = 1966139;
/// A pawn attacking a rook (83, 43).
pub const PAWN_ATTACKS_ROOK: i32 = 2818131;
/// A pawn attacking a queen (89, 53).
pub const PAWN_ATTACKS_QUEEN: i32 = 3473497;
/// A minor piece attacking a rook (46, 26).
pub const MINOR_ATTACKS_ROOK: i32 = 1703982;
/// A minor piece attacking a queen (49, 28).
pub const MINOR_ATTACKS_QUEEN: i32 = 1835057;
/// A rook attacking a queen (24, 15).
pub const ROOK_ATTACKS_QUEEN: i32 = 983064;
/// A safe pawn push that attacks a piece (20, 25).
pub const SAFE_PAWN_THREAT: i32 = 1638420;

/// The hanging penalty of an enemy piece on `s` (attacked by `us` and not defended),
/// charged to its owner: it counts for `us` with the opposite sign.
pub open spec fn hanging_terms(v: PositionView, us: Color) -> spec_fn(int) -> Seq<int> {
    |s: int| if attacked_by(v, s, us) && !attacked_by(v, s, us.other()) { seq![-HANGING_PENALTY as int] } else { Seq::empty() }
}

/// The squares of safe pawn pushes of `us`: empty and not attacked by enemy pawns.
pub open spec fn safe_push_squares(v: PositionView, us: Color) -> u64 {
    let pawns = v.bb(us, PieceType::Pawn);
    let pushed = if us == Color::White { pawns << 8u64 } else { pawns >> 8u64 };
    pushed & !v.occupancy & !pawn_attack_set(us.other(), v.bb(us.other(), PieceType::Pawn))
}

/// The counted threats of `us`, in the order they are added.
pub open spec fn threat_count_terms(v: PositionView, us: Color) -> Seq<int> {
    let them = us.other();
    let their = v.colors[them.idx() as int];
    let occ = v.occupancy;
    let pawn_hits = pawn_attack_set(us, v.bb(us, PieceType::Pawn)) & their;
    let minor = union_bb(v.bb(us, PieceType::Knight), PieceType::Knight, occ)
        | union_bb(v.bb(us, PieceType::Bishop), PieceType::Bishop, occ);
    let rooks = union_bb(v.bb(us, PieceType::Rook), PieceType::Rook, occ);
    seq![
        popcount_spec(pawn_hits & (v.bb(them, PieceType::Knight) | v.bb(them, PieceType::Bishop))) * PAWN_ATTACKS_MINOR,
        popcount_spec(pawn_hits & v.bb(them, PieceType::Rook)) * PAWN_ATTACKS_ROOK,
        popcount_spec(pawn_hits & v.bb(them, PieceType::Queen)) * PAWN_ATTACKS_QUEEN,
        popcount_spec(minor & v.bb(them, PieceType::Rook)) * MINOR_ATTACKS_ROOK,
        popcount_spec(minor & v.bb(them, PieceType::Queen)) * MINOR_ATTACKS_QUEEN,
        popcount_spec(rooks & v.bb(them, PieceType::Queen)) * ROOK_ATTACKS_QUEEN,
        popcount_spec(pawn_attack_set(us, safe_push_squares(v, us)) & their) * SAFE_PAWN_THREAT,
    ]
}

/// The threat terms of `us` in the order they are added: hanging enemy knights,
/// bishops, rooks and queens, then the counted threats.
pub open spec fn threat_terms(v: PositionView, us: Color) -> Seq<int> {
    let them = us.other();
    square_terms(v.bb(them, PieceType::Knight), hanging_terms(v, us))
        + square_terms(v.bb(them, PieceType::Bishop), hanging_terms(v, us))
        + square_terms(v.bb(them, PieceType::Rook), hanging_terms(v, us))
        + square_terms(v.bb(them, PieceType::Queen), hanging_terms(v, us))
        + threat_count_terms(v, us)
}

/// The running totals of both sides' threats, and their difference, fit in an `i32`.
pub open spec fn threats_fit(v: PositionView) -> bool {
    &&& runs_fit(0, threat_terms(v, Color::White))
    &&& runs_fit(0, threat_terms(v, Color::Black))
    &&& fits(total(threat_terms(v, Color::White)) - total(threat_terms(v, Color::Black)))
}

/// The packed threat score, White minus Black.
pub fn evaluate_threats(pos: &Position) -> (s: i32)
    requires
        threats_fit(pos@),
    ensures
        s == total(threat_terms(pos@, Color::White)) - total(threat_terms(pos@, Color::Black)),
{
    let mut score = 0i32;
    score = score + eval_threats_for(pos, Color::White);
    score = score - eval_threats_for(pos, Color::Black);
    score
}

/// Whether `attacker` attacks `sq`, with sliders blocked by `occ`.
fn is_attacked_by(pos: &Position, sq: u32, attacker: Color, occ: u64) -> (b: bool)
    requires
        sq < 64,
        occ == pos@.occupancy,
    ensures
        b == attacked_by(pos@, sq as int, attacker),
{
    let pawns = pos.bb(attacker, PieceType::Pawn);
    if pawn_attacks(attacker.flip(), sq) & pawns != 0 {
        return true;
    }
    if knight_attacks_sq(sq) & pos.bb(attacker, PieceType::Knight) != 0 {
        return true;
    }
    if bishop_attacks(sq, occ) & (pos.bb(attacker, PieceType::Bishop) | pos.bb(attacker, PieceType::Queen)) != 0 {
        return true;
    }
    if rook_attacks(sq, occ) & (pos.bb(attacker, PieceType::Rook) | pos.bb(attacker, PieceType::Queen)) != 0 {
        return true;
    }
    if king_attacks_sq(sq) & pos.bb(attacker, PieceType::King) != 0 {
        return true;
    }
    false
}

/// Adds the hanging penalties of the enemy pieces `bb`.
fn add_hanging(pos: &Position, us: Color, bb: u64, score: i32) -> (r: i32)
    requires
        runs_fit(score as int, square_terms(bb, hanging_terms(pos@, us))),
    ensures
        r == score + total(square_terms(bb, hanging_terms(pos@, us))),
{
    let ghost f = hanging_terms(pos@, us);
    let occ = pos.occupancy;
    let them = us.flip();
    let mut rem = bb;
    let mut acc = score;
    while rem != 0
        invariant
            f == hanging_terms(pos@, us),
            occ == pos@.occupancy,
            them == us.other(),
            runs_fit(acc as int, square_terms(rem, f)),
            acc + total(square_terms(rem, f)) == score + total(square_terms(bb, f)),
        decreases rem,
    {
        let ghost r0 = rem;
        proof {
            lemma_low_rest(rem);
            lemma_rest_smaller(rem);
        }
        let sq = pop_lsb(&mut rem);
        let ghost later = square_terms(rem, f);
        assert(square_terms(r0, f) == f(sq as int) + later);
        let attacked = is_attacked_by(pos, sq, us, occ);
        let defended = is_attacked_by(pos, sq, them, occ);
        if attacked && !defended {
            acc = add_term(acc, -HANGING_PENALTY, Ghost(later));
        } else {
            assert(f(sq as int) + later =~= later);
        }
    }
    assert(total(Seq::<int>::empty()) == 0);
    acc
}

/// `popcount(x) * value` for a count term.
fn count_term(x: u64, value: i32) -> (t: i32)
    requires
        -3500000 <= value <= 3500000,
    ensures
        t == popcount_spec(x) * value,
{
    proof {
        lemma_popcount_le_64(x);
    }
    let n = popcount(x) as i32;
    assert(-3500000 * 64 <= n * value <= 3500000 * 64) by (nonlinear_arith)
        requires 0 <= n <= 64, -3500000 <= value <= 3500000;
    n * value
}

/// The packed threat score of one side.
#[verifier::rlimit(60)]
fn eval_threats_for(pos: &Position, us: Color) -> (s: i32)
    requires
        runs_fit(0, threat_terms(pos@, us)),
    ensures
        s == total(threat_terms(pos@, us)),
{
    let them = us.flip();
    let occ = pos.occupancy;
    let their = pos.color_bb(them);
    let our_pawns = pos.bb(us, PieceType::Pawn);
    let their_pawns = pos.bb(them, PieceType::Pawn);
    let our_pawn_attacks = match us {
        Color::White => white_pawn_attacks(our_pawns),
        Color::Black => black_pawn_attacks(our_pawns),
    };
    let their_pawn_attacks = match them {
        Color::White => white_pawn_attacks(their_pawns),
        Color::Black => black_pawn_attacks(their_pawns),
    };
    let ghost v = pos@;
    let ghost f = hanging_terms(v, us);
    let ghost hn = square_terms(v.bb(them, PieceType::Knight), f);
    let ghost hb = square_terms(v.bb(them, PieceType::Bishop), f);
    let ghost hr = square_terms(v.bb(them, PieceType::Rook), f);
    let ghost hq = square_terms(v.bb(them, PieceType::Queen), f);
    let ghost ct = threat_count_terms(v, us);
    assert(threat_terms(v, us) == hn + hb + hr + hq + ct);
    proof {
        lemma_runs_fit_add(0, hn + hb + hr + hq, ct);
        lemma_runs_fit_add(0, hn + hb + hr, hq);
        lemma_runs_fit_add(0, hn + hb, hr);
        lemma_runs_fit_add(0, hn, hb);
        lemma_total_add(hn + hb + hr + hq, ct);
        lemma_total_add(hn + hb + hr, hq);
        lemma_total_add(hn + hb, hr);
        lemma_total_add(hn, hb);
    }
    let mut score = 0i32;
    score = add_hanging(pos, us, pos.bb(them, PieceType::Knight), score);
    score = add_hanging(pos, us, pos.bb(them, PieceType::Bishop), score);
    score = add_hanging(pos, us, pos.bb(them, PieceType::Rook), score);
    score = add_hanging(pos, us, pos.bb(them, PieceType::Queen), score);

    let pawn_attacked = our_pawn_attacks & their;
    let minor_attacked_by_pawn = pawn_attacked & (pos.bb(them, PieceType::Knight) | pos.bb(them, PieceType::Bishop));
    let rook_attacked_by_pawn = pawn_attacked & pos.bb(them, PieceType::Rook);
    let queen_attacked_by_pawn = pawn_attacked & pos.bb(them, PieceType::Queen);

    let n = union_attacks(pos.bb(us, PieceType::Knight), PieceType::Knight, occ);
    let b = union_attacks(pos.bb(us, PieceType::Bishop), PieceType::Bishop, occ);
    let minor_attacks = n | b;
    let rook_attacks_bb = union_attacks(pos.bb(us, PieceType::Rook), PieceType::Rook, occ);
    let empty = !occ;
    let safe_pushes = match us {
        Color::White => north(our_pawns) & empty & !their_pawn_attacks,
        Color::Black => south(our_pawns) & empty & !their_pawn_attacks,
    };
    let safe_push_attacks = match us {
        Color::White => white_pawn_attacks(safe_pushes),
        Color::Black => black_pawn_attacks(safe_pushes),
    };
    assert(safe_pushes == safe_push_squares(v, us));

    let t0 = count_term(minor_attacked_by_pawn, PAWN_ATTACKS_MINOR);
    let t1 = count_term(rook_attacked_by_pawn, PAWN_ATTACKS_ROOK);
    let t2 = count_term(queen_attacked_by_pawn, PAWN_ATTACKS_QUEEN);
    let t3 = count_term(minor_attacks & pos.bb(them, PieceType::Rook), MINOR_ATTACKS_ROOK);
    let t4 = count_term(minor_attacks & pos.bb(them, PieceType::Queen), MINOR_ATTACKS_QUEEN);
    let t5 = count_term(rook_attacks_bb & pos.bb(them, PieceType::Queen), ROOK_ATTACKS_QUEEN);
    let t6 = count_term(safe_push_attacks & their, SAFE_PAWN_THREAT);
    let ghost g = seq![t0 as int, t1 as int, t2 as int, t3 as int, t4 as int, t5 as int, t6 as int];
    assert(ct == g);
    let ghost g1 = g.subrange(1, 7);
    let ghost g2 = g.subrange(2, 7);
    let ghost g3 = g.subrange(3, 7);
    let ghost g4 = g.subrange(4, 7);
    let ghost g5 = g.subrange(5, 7);
    let ghost g6 = g.subrange(6, 7);
    let ghost g7 = g.subrange(7, 7);
    assert(g =~= seq![t0 as int] + g1);
    assert(g1 =~= seq![t1 as int] + g2);
    assert(g2 =~= seq![t2 as int] + g3);
    assert(g3 =~= seq![t3 as int] + g4);
    assert(g4 =~= seq![t4 as int] + g5);
    assert(g5 =~= seq![t5 as int] + g6);
    assert(g6 =~= seq![t6 as int] + g7);
    assert(g7 =~= Seq::<int>::empty());
    score = add_term(score, t0, Ghost(g1));
    score = add_term(score, t1, Ghost(g2));
    score = add_term(score, t2, Ghost(g3));
    score = add_term(score, t3, Ghost(g4));
    score = add_term(score, t4, Ghost(g5));
    score = add_term(score, t5, Ghost(g6));
    score = add_term(score, t6, Ghost(g7));
    assert(total(Seq::<int>::empty()) == 0);
    score
}

} // verus!
