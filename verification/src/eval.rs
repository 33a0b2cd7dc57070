//! Hand-crafted evaluation terms.
//!
//! A score packs a middlegame and an endgame value into one `i32` as
//! `endgame * 65536 + middlegame`, so that packed scores add component-wise; the two
//! values are read back with [`mg`] and [`eg`] and blended by game phase with [`taper`].
//! Each evaluation adds its terms one by one in `i32`; its precondition is that every
//! running total stays within `i32`.
pub mod material;
pub mod mobility;
pub mod threats;
pub mod king_safety;
pub mod pawn_structure;
pub mod nnue;

use vstd::prelude::*;
use crate::board::bitboard::{has_bit, low, rest, popcount, popcount_spec, lemma_rest_smaller};
use crate::board::color::Color;
use crate::board::piece::PieceType;
use crate::board::position::{Position, PositionView};

verus! {

// ─── Score packing ────────────────────────────────────────────────────────────

/// The packed score of a middlegame and an endgame value.
pub open spec fn score_of(mg: int, eg: int) -> int {
    eg * 65536 + mg
}

/// A value fits in an `i32`.
pub open spec fn fits(x: int) -> bool {
    i32::MIN <= x <= i32::MAX
}

/// Packs a middlegame and an endgame value.
pub fn make_score(mg: i32, eg: i32) -> (s: i32)
    requires
        -32768 <= eg < 32768,
        fits(score_of(mg as int, eg as int)),
    ensures
        s == score_of(mg as int, eg as int),
{
    assert(-32768 <= eg < 32768 ==> eg << 16 == eg * 65536) by (bit_vector);
    (eg << 16) + mg
}

/// The middlegame value of a packed score: its low 16 bits, signed.
pub fn mg(s: i32) -> (m: i32)
    ensures
        m == s as i16,
{
    (s as i16) as i32
}

/// The endgame value of a packed score: the high half, rounded by the low half's sign.
pub fn eg(s: i32) -> (e: i32)
    requires
        s + 32768 <= i32::MAX,
    ensures
        e == (s + 32768) / 65536,
{
    let t = s + 0x8000;
    assert(t >> 16 == t / 65536) by (bit_vector);
    t >> 16
}

/// Unpacking a packed score gives back its middlegame and endgame values.
pub proof fn lemma_score_roundtrip(m: i32, e: i32)
    requires
        -32768 <= m < 32768,
        -32768 <= e < 32768,
        fits(score_of(m as int, e as int)),
    ensures
        (score_of(m as int, e as int) as i32) as i16 == m,
        (score_of(m as int, e as int) + 32768) / 65536 == e,
{
    let s = (e * 65536 + m) as i32;
    assert(-32768 <= m < 32768 && -32768 <= e < 32768 ==> ((e * 65536 + m) as i32) as i16 == m) by (bit_vector);
    assert((e * 65536 + m + 32768) / 65536 == e) by (nonlinear_arith)
        requires -32768 <= m < 32768;
}

// ─── Game phase ───────────────────────────────────────────────────────────────

pub const PHASE_KNIGHT: i32 = 1;
pub const PHASE_BISHOP: i32 = 1;
pub const PHASE_ROOK: i32 = 2;
pub const PHASE_QUEEN: i32 = 4;
/// The phase of the starting material.
pub const MAX_PHASE: i32 = 24;

/// The phase of one side's pieces: one per minor piece, two per rook, four per queen.
pub open spec fn side_phase(v: PositionView, c: Color) -> int {
    (popcount_spec(v.bb(c, PieceType::Knight)) * 1 + popcount_spec(v.bb(c, PieceType::Bishop)) * 1
        + popcount_spec(v.bb(c, PieceType::Rook)) * 2 + popcount_spec(v.bb(c, PieceType::Queen)) * 4) as int
}

/// The game phase, from 0 (no pieces) to 24 (all pieces), capped.
pub open spec fn phase_spec(v: PositionView) -> int {
    let p = side_phase(v, Color::White) + side_phase(v, Color::Black);
    if p < 24 { p } else { 24 }
}

pub fn game_phase(pos: &Position) -> (p: i32)
    ensures
        p == phase_spec(pos@),
{
    let mut phase = 0i32;
    proof {
        crate::board::bitboard::lemma_popcount_le_64(pos@.bb(Color::White, PieceType::Knight));
        crate::board::bitboard::lemma_popcount_le_64(pos@.bb(Color::White, PieceType::Bishop));
        crate::board::bitboard::lemma_popcount_le_64(pos@.bb(Color::White, PieceType::Rook));
        crate::board::bitboard::lemma_popcount_le_64(pos@.bb(Color::White, PieceType::Queen));
        crate::board::bitboard::lemma_popcount_le_64(pos@.bb(Color::Black, PieceType::Knight));
        crate::board::bitboard::lemma_popcount_le_64(pos@.bb(Color::Black, PieceType::Bishop));
        crate::board::bitboard::lemma_popcount_le_64(pos@.bb(Color::Black, PieceType::Rook));
        crate::board::bitboard::lemma_popcount_le_64(pos@.bb(Color::Black, PieceType::Queen));
    }
    phase = phase + popcount(pos.bb(Color::White, PieceType::Knight)) as i32 * PHASE_KNIGHT;
    phase = phase + popcount(pos.bb(Color::White, PieceType::Bishop)) as i32 * PHASE_BISHOP;
    phase = phase + popcount(pos.bb(Color::White, PieceType::Rook)) as i32 * PHASE_ROOK;
    phase = phase + popcount(pos.bb(Color::White, PieceType::Queen)) as i32 * PHASE_QUEEN;
    phase = phase + popcount(pos.bb(Color::Black, PieceType::Knight)) as i32 * PHASE_KNIGHT;
    phase = phase + popcount(pos.bb(Color::Black, PieceType::Bishop)) as i32 * PHASE_BISHOP;
    phase = phase + popcount(pos.bb(Color::Black, PieceType::Rook)) as i32 * PHASE_ROOK;
    phase = phase + popcount(pos.bb(Color::Black, PieceType::Queen)) as i32 * PHASE_QUEEN;
    if phase < MAX_PHASE { phase } else { MAX_PHASE }
}

/// Division rounding toward zero, as Rust's `/` on signed integers does.
pub open spec fn quot(a: int, d: int) -> int {
    if a >= 0 { a / d } else { -((-a) / d) }
}

/// The blend of a packed score's values by phase: all middlegame at phase 24, all
/// endgame at phase 0.
pub open spec fn taper_spec(score: i32, phase: i32) -> int {
    quot((score as i16) * phase + ((score + 32768) / 65536) * (24 - phase), 24)
}

pub fn taper(score: i32, phase: i32) -> (r: i32)
    requires
        score + 32768 <= i32::MAX,
        fits(24 - phase),
        fits((score as i16) * phase),
        fits(((score + 32768) / 65536) * (24 - phase)),
        fits((score as i16) * phase + ((score + 32768) / 65536) * (24 - phase)),
    ensures
        r == taper_spec(score, phase),
{
    (mg(score) * phase + eg(score) * (MAX_PHASE - phase)) / MAX_PHASE
}

// ─── Score constants ──────────────────────────────────────────────────────────

pub const SCORE_INFINITE: i32 = 32000;
pub const SCORE_MATE: i32 = 31000;
pub const SCORE_MATED: i32 = -31000;
pub const SCORE_DRAW: i32 = 0;
pub const SCORE_NONE: i32 = -32001;

pub open spec fn abs_spec(x: int) -> int {
    if x < 0 { -x } else { x }
}

/// Moves to mate of a mate score.
pub fn mate_in(score: i32) -> (m: i32)
    requires
        score != i32::MIN,
    ensures
        m == quot(31000 - abs_spec(score as int) + 1, 2),
{
    let a = if score < 0 { -score } else { score };
    (SCORE_MATE - a + 1) / 2
}

/// A score within 200 of a mate.
pub fn is_mate_score(score: i32) -> (b: bool)
    requires
        score != i32::MIN,
    ensures
        b == (abs_spec(score as int) >= 30800),
{
    let a = if score < 0 { -score } else { score };
    a >= SCORE_MATE - 200
}

// ─── Sums of terms ────────────────────────────────────────────────────────────

/// The sum of a sequence of terms.
pub open spec fn total(t: Seq<int>) -> int
    decreases t.len(),
{
    if t.len() == 0 { 0 } else { total(t.drop_last()) + t.last() }
}

/// Adding the terms `t` one by one to `acc`, every running total fits in an `i32`.
pub open spec fn runs_fit(acc: int, t: Seq<int>) -> bool {
    forall|k: int| 0 <= k <= t.len() ==> fits(acc + total(#[trigger] t.take(k)))
}

/// The terms `f(s)` of each square `s` of `bb`, lowest square first, concatenated.
pub open spec fn square_terms(bb: u64, f: spec_fn(int) -> Seq<int>) -> Seq<int>
    decreases bb,
    via square_terms_decreases
{
    if bb == 0 { Seq::empty() } else { f(low(bb)) + square_terms(rest(bb), f) }
}

#[via_fn]
proof fn square_terms_decreases(bb: u64, f: spec_fn(int) -> Seq<int>) {
    if bb != 0 {
        lemma_rest_smaller(bb);
    }
}

pub proof fn lemma_total_add(a: Seq<int>, b: Seq<int>)
    ensures
        total(a + b) == total(a) + total(b),
    decreases b.len(),
{
    if b.len() == 0 {
        assert(a + b =~= a);
    } else {
        assert((a + b).drop_last() =~= a + b.drop_last());
        lemma_total_add(a, b.drop_last());
    }
}

/// Running totals over `a + b` fit exactly when they fit over `a` and then over `b`.
pub proof fn lemma_runs_fit_add(acc: int, a: Seq<int>, b: Seq<int>)
    ensures
        runs_fit(acc, a + b) <==> (runs_fit(acc, a) && runs_fit(acc + total(a), b)),
{
    if runs_fit(acc, a + b) {
        assert forall|k: int| 0 <= k <= a.len() implies fits(acc + total(#[trigger] a.take(k))) by {
            assert((a + b).take(k) =~= a.take(k));
        }
        assert forall|k: int| 0 <= k <= b.len() implies fits(acc + total(a) + total(#[trigger] b.take(k))) by {
            assert((a + b).take(a.len() + k) =~= a + b.take(k));
            assert(a.take(a.len() as int) =~= a);
            lemma_total_add(a, b.take(k));
            assert(fits(acc + total((a + b).take(a.len() + k))));
        }
    }
    if runs_fit(acc, a) && runs_fit(acc + total(a), b) {
        assert forall|k: int| 0 <= k <= (a + b).len() implies fits(acc + total(#[trigger] (a + b).take(k))) by {
            if k <= a.len() {
                assert((a + b).take(k) =~= a.take(k));
            } else {
                assert((a + b).take(k) =~= a + b.take(k - a.len()));
                lemma_total_add(a, b.take(k - a.len()));
                assert(a.take(a.len() as int) =~= a);
                assert(fits(acc + total(a) + total(b.take(k - a.len()))));
            }
        }
    }
}

/// Adding the first term: it fits, and the rest still does.
pub proof fn lemma_runs_fit_first(acc: int, x: int, t: Seq<int>)
    requires
        runs_fit(acc, seq![x] + t),
    ensures
        fits(acc + x),
        runs_fit(acc + x, t),
        total(seq![x] + t) == x + total(t),
{
    lemma_runs_fit_add(acc, seq![x], t);
    assert(seq![x].take(1) =~= seq![x]);
    assert(seq![x].drop_last() =~= Seq::<int>::empty());
    assert(total(seq![x]) == x);
    lemma_total_add(seq![x], t);
}


/// Adds one term to a running total whose later terms are `rest`.
pub(crate) fn add_term(score: i32, x: i32, rest: Ghost<Seq<int>>) -> (r: i32)
    requires
        runs_fit(score as int, seq![x as int] + rest@),
    ensures
        r == score + x,
        runs_fit(r as int, rest@),
        r + total(rest@) == score + total(seq![x as int] + rest@),
{
    proof {
        lemma_runs_fit_first(score as int, x as int, rest@);
    }
    score + x
}

// ─── Hand-crafted evaluation ──────────────────────────────────────────────────

/// A bonus for the side to move.
pub const TEMPO: i32 = 15;

/// The packed terms of the hand-crafted evaluation, White minus Black, in the order they
/// are added: material, the piece-square term `pst`, pawn structure, king safety,
/// mobility and threats.
pub open spec fn hce_terms(v: PositionView, pst: i32) -> Seq<int> {
    seq![
        total(material::material_terms(v)),
        pst as int,
        pawn_structure::pawn_structure_score(v),
        king_safety::king_side_score(v, Color::White) - king_safety::king_side_score(v, Color::Black),
        total(mobility::mobility_terms(v, Color::White)) - total(mobility::mobility_terms(v, Color::Black)),
        total(threats::threat_terms(v, Color::White)) - total(threats::threat_terms(v, Color::Black)),
    ]
}

/// The hand-crafted score from White's perspective: the packed terms tapered by phase.
pub open spec fn hce_white(v: PositionView, pst: i32) -> int {
    taper_spec(total(hce_terms(v, pst)) as i32, phase_spec(v) as i32)
}

/// The hand-crafted score from the side to move's perspective, plus the tempo bonus of
/// the side to move.
pub open spec fn hce_spec(v: PositionView, pst: i32) -> int {
    (if v.side == Color::White { hce_white(v, pst) } else { -hce_white(v, pst) }) + TEMPO
}

/// The position has what each term needs (both kings, the king shelters in range, no
/// White pawn on the last rank) and every running total of the terms fits in an `i32`.
#[verifier::opaque]
pub open spec fn hce_terms_ok(v: PositionView, pst: i32) -> bool {
    &&& v.bb(Color::White, PieceType::King) != 0
    &&& v.bb(Color::Black, PieceType::King) != 0
    &&& king_safety::shelter_ok(v, Color::White, crate::movegen::legal::king_square(v, Color::White))
    &&& king_safety::shelter_ok(v, Color::Black, crate::movegen::legal::king_square(v, Color::Black))
    &&& pawn_structure::no_white_pawn_on_last_rank(v)
    &&& material::material_fits(v)
    &&& mobility::mobility_fits(v)
    &&& threats::threats_fit(v)
    &&& runs_fit(0, hce_terms(v, pst))
}

/// The terms can be evaluated and summed, and the taper and the result fit in an `i32`.
pub open spec fn hce_fits(v: PositionView, pst: i32) -> bool {
    let t = total(hce_terms(v, pst));
    let p = phase_spec(v);
    &&& hce_terms_ok(v, pst)
    &&& t + 32768 <= i32::MAX
    &&& fits(((t as i32) as i16) * p)
    &&& fits(((t + 32768) / 65536) * (24 - p))
    &&& fits(((t as i32) as i16) * p + ((t + 32768) / 65536) * (24 - p))
    &&& fits(hce_white(v, pst) + TEMPO)
    &&& fits(-hce_white(v, pst) + TEMPO)
}

/// The sum of the packed terms of the hand-crafted evaluation.
fn hce_total(pos: &Position, pst: i32) -> (s: i32)
    requires
        hce_terms_ok(pos@, pst),
    ensures
        s == total(hce_terms(pos@, pst)),
{
    reveal(hce_terms_ok);
    let ghost v = pos@;
    let ghost t = hce_terms(v, pst);
    let phase = game_phase(pos);
    let m = material::evaluate_material(pos);
    let p = pawn_structure::evaluate_pawns(pos);
    let k = king_safety::evaluate_king_safety(pos, phase);
    let mo = mobility::evaluate_mobility(pos);
    let th = threats::evaluate_threats(pos);
    sum_terms(m, pst, p, k, mo, th, Ghost(t))
}

/// Adds six terms in order.
fn sum_terms(a: i32, b: i32, c: i32, d: i32, e: i32, f: i32, t: Ghost<Seq<int>>) -> (s: i32)
    requires
        t@ == seq![a as int, b as int, c as int, d as int, e as int, f as int],
        runs_fit(0, t@),
    ensures
        s == total(t@),
{
    let ghost t = t@;
    let mut score = 0i32;
    assert(t =~= seq![a as int] + t.subrange(1, 6));
    score = add_term(score, a, Ghost(t.subrange(1, 6)));
    assert(t.subrange(1, 6) =~= seq![b as int] + t.subrange(2, 6));
    score = add_term(score, b, Ghost(t.subrange(2, 6)));
    assert(t.subrange(2, 6) =~= seq![c as int] + t.subrange(3, 6));
    score = add_term(score, c, Ghost(t.subrange(3, 6)));
    assert(t.subrange(3, 6) =~= seq![d as int] + t.subrange(4, 6));
    score = add_term(score, d, Ghost(t.subrange(4, 6)));
    assert(t.subrange(4, 6) =~= seq![e as int] + t.subrange(5, 6));
    score = add_term(score, e, Ghost(t.subrange(5, 6)));
    assert(t.subrange(5, 6) =~= seq![f as int] + Seq::<int>::empty());
    score = add_term(score, f, Ghost(Seq::<int>::empty()));
    assert(total(Seq::<int>::empty()) == 0);
    score
}

/// The hand-crafted evaluation in centipawns from the side to move's perspective; `pst`
/// is the packed piece-square term of the position, supplied by the caller.
pub fn evaluate_hce(pos: &Position, pst: i32) -> (r: i32)
    requires
        hce_fits(pos@, pst),
    ensures
        r == hce_spec(pos@, pst),
{
    let phase = game_phase(pos);
    let score = hce_total(pos, pst);
    let result = taper(score, phase);
    result * pos.side.sign() + TEMPO
}

/// The evaluation of a position: the hand-crafted one.
pub fn evaluate(pos: &Position, pst: i32) -> (r: i32)
    requires
        hce_fits(pos@, pst),
    ensures
        r == hce_spec(pos@, pst),
{
    evaluate_hce(pos, pst)
}

/// The NNUE evaluation when a network is active, the hand-crafted one otherwise.
pub fn evaluate_with_nnue(pos: &Position, nnue: &nnue::NnueEval, pst: i32) -> (r: i32)
    requires
        nnue.wf(),
        nnue.weights_spec() matches Some(w) ==> nnue.states().len() > 0
            && nnue::network::forward_fits(nnue.states().last(), pos.side, &w),
        nnue.weights_spec() is None ==> hce_fits(pos@, pst),
    ensures
        match nnue.weights_spec() {
            Some(w) => r == quot(nnue::total_of(nnue.states().last(), pos.side, &w) * 400, 16320),
            None => r == hce_spec(pos@, pst),
        },
{
    if nnue.is_active() {
        match nnue.evaluate(pos) {
            Some(s) => s,
            None => {
                assert(false);
                0
            },
        }
    } else {
        evaluate_hce(pos, pst)
    }
}


proof fn lemma_material_side(v: PositionView)
    ensures
        material::material_terms(PositionView { side: Color::White, ..v })
            == material::material_terms(PositionView { side: Color::Black, ..v }),
{
}

proof fn lemma_pawns_side(v: PositionView)
    ensures
        pawn_structure::pawn_structure_score(PositionView { side: Color::White, ..v })
            == pawn_structure::pawn_structure_score(PositionView { side: Color::Black, ..v }),
{
}

proof fn lemma_king_side(v: PositionView, c: Color)
    ensures
        king_safety::king_side_score(PositionView { side: Color::White, ..v }, c)
            == king_safety::king_side_score(PositionView { side: Color::Black, ..v }, c),
{
}

proof fn lemma_mobility_side(v: PositionView, c: Color)
    ensures
        mobility::mobility_terms(PositionView { side: Color::White, ..v }, c)
            == mobility::mobility_terms(PositionView { side: Color::Black, ..v }, c),
{
}

proof fn lemma_threats_side(v: PositionView, c: Color)
    ensures
        threats::threat_terms(PositionView { side: Color::White, ..v }, c)
            == threats::threat_terms(PositionView { side: Color::Black, ..v }, c),
{
    let w = PositionView { side: Color::White, ..v };
    let b = PositionView { side: Color::Black, ..v };
    assert(threats::hanging_terms(w, c) =~= threats::hanging_terms(b, c));
    assert(threats::threat_count_terms(w, c) == threats::threat_count_terms(b, c));
}

/// The hand-crafted evaluation is antisymmetric in the side to move apart from the tempo:
/// giving the move to the other side negates the evaluation without its tempo bonus.
pub proof fn lemma_hce_side_antisymmetric(v: PositionView, pst: i32)
    ensures
        hce_spec(PositionView { side: Color::Black, ..v }, pst) - TEMPO
            == -(hce_spec(PositionView { side: Color::White, ..v }, pst) - TEMPO),
{
    let w = PositionView { side: Color::White, ..v };
    let b = PositionView { side: Color::Black, ..v };
    lemma_material_side(v);
    lemma_pawns_side(v);
    lemma_king_side(v, Color::White);
    lemma_king_side(v, Color::Black);
    lemma_mobility_side(v, Color::White);
    lemma_mobility_side(v, Color::Black);
    lemma_threats_side(v, Color::White);
    lemma_threats_side(v, Color::Black);
    assert(hce_terms(w, pst) =~= hce_terms(b, pst));
    assert(phase_spec(w) == phase_spec(b));
}

} // verus!
