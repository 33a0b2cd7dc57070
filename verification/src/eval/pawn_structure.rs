//! Pawn structure: passed, isolated, doubled, backward, phalanx and connected pawns.
use vstd::prelude::*;
use crate::board::bitboard::{
    has_bit, low, rest, pop_lsb, popcount_spec, file_of, rank_of, north_fill, south_fill, east, west,
    north_east, north_west, south_east, south_west, white_pawn_attacks, black_pawn_attacks,
    lemma_low_rest, lemma_rest_smaller, lemma_single_bit, lemma_and_bits, lemma_or_bits, lemma_not_bits,
    lemma_bits_ext, lemma_zero_bits, lemma_popcount_rest, lemma_popcount_le_64,
};
use crate::board::color::Color;
use crate::board::piece::PieceType;
use crate::board::position::{Position, PositionView};

verus! {

/// Passed pawn bonus by relative rank (0..7), packed: (0, 0), (5, 10), (10, 20),
/// (20, 40), (40, 70), (70, 110), (110, 170), (0, 0).
pub const PASSED_PAWN_BONUS: [i32; 8] = [0, 655365, 1310730, 2621460, 4587560, 7208030, 11141230, 0];
/// Isolated pawn (-15, -20).
pub const ISOLATED_PAWN_PENALTY: i32 = -1310735;
/// Doubled pawn (-10, -20).
pub const DOUBLED_PAWN_PENALTY: i32 = -1310730;
/// Backward pawn (-12, -10).
pub const BACKWARD_PAWN_PENALTY: i32 = -655372;
/// Pawns side by side on one rank (8, 5).
pub const PHALANX_BONUS: i32 = 327688;
/// A pawn defended by a pawn diagonally behind it (7, 8).
pub const CONNECTED_BONUS: i32 = 524295;

// ─── Specification ────────────────────────────────────────────────────────────

/// The passed pawn bonus of relative rank `r`.
pub open spec fn passed_bonus(r: int) -> int {
    if r == 1 { 655365 } else if r == 2 { 1310730 } else if r == 3 { 2621460 } else if r == 4 { 4587560 }
    else if r == 5 { 7208030 } else if r == 6 { 11141230 } else { 0 }
}

/// Square `t` is on a file next to that of `s`.
pub open spec fn adjacent_file(s: int, t: int) -> bool {
    file_of(t) - file_of(s) == 1 || file_of(t) - file_of(s) == -1
}

/// Square `t` is on a rank ahead of `s` for a pawn of color `us`.
pub open spec fn ahead(us: Color, s: int, t: int) -> bool {
    if us == Color::White { rank_of(t) > rank_of(s) } else { rank_of(t) < rank_of(s) }
}

/// No enemy pawn stands ahead of the pawn on `s`, on its file or the files beside it.
pub open spec fn is_passed(us: Color, s: int, their: u64) -> bool {
    !exists|t: int| #[trigger] has_bit(their, t) && (file_of(t) == file_of(s) || adjacent_file(s, t)) && ahead(us, s, t)
}

/// No friendly pawn stands on a file beside `s`.
pub open spec fn is_isolated(s: int, our: u64) -> bool {
    !exists|t: int| #[trigger] has_bit(our, t) && adjacent_file(s, t)
}

/// Another friendly pawn stands on the file of `s`.
pub open spec fn is_doubled(s: int, our: u64) -> bool {
    exists|t: int| #[trigger] has_bit(our, t) && t != s && file_of(t) == file_of(s)
}

/// No friendly pawn on a file beside `s` stands level with it or behind it, and an enemy
/// pawn attacks the square in front of it. A Black pawn on the first rank is never
/// backward.
pub open spec fn is_backward(us: Color, s: int, our: u64, their: u64) -> bool {
    if us == Color::Black && s < 8 {
        false
    } else {
        &&& !exists|t: int| #[trigger] has_bit(our, t) && adjacent_file(s, t) && !ahead(us, s, t)
        &&& exists|t: int| #[trigger] has_bit(their, t) && adjacent_file(s, t)
                && rank_of(t) == rank_of(s) + (if us == Color::White { 2int } else { -2int })
    }
}

/// A friendly pawn stands beside `s` on its rank.
pub open spec fn in_phalanx(s: int, our: u64) -> bool {
    exists|t: int| #[trigger] has_bit(our, t) && adjacent_file(s, t) && rank_of(t) == rank_of(s)
}

/// A friendly pawn stands diagonally behind `s`.
pub open spec fn is_connected(us: Color, s: int, our: u64) -> bool {
    exists|t: int| #[trigger] has_bit(our, t) && adjacent_file(s, t)
        && rank_of(t) == rank_of(s) + (if us == Color::White { -1int } else { 1int })
}

/// The packed score of the pawn of `us` on `s`: the passed bonus by its relative rank,
/// the isolated, doubled and (when not isolated) backward penalties, the phalanx and the
/// connected bonuses.
pub open spec fn pawn_score(us: Color, s: int, our: u64, their: u64) -> int {
    let rel = if us == Color::White { rank_of(s) } else { 7 - rank_of(s) };
    (if is_passed(us, s, their) { passed_bonus(rel) } else { 0 })
        + (if is_isolated(s, our) { ISOLATED_PAWN_PENALTY as int } else { 0 })
        + (if is_doubled(s, our) { DOUBLED_PAWN_PENALTY as int } else { 0 })
        + (if !is_isolated(s, our) && is_backward(us, s, our, their) { BACKWARD_PAWN_PENALTY as int } else { 0 })
        + (if in_phalanx(s, our) { PHALANX_BONUS as int } else { 0 })
        + (if is_connected(us, s, our) { CONNECTED_BONUS as int } else { 0 })
}

/// The sum of [`pawn_score`] over the pawns `pawns`, a subset of `our`.
pub open spec fn pawns_score(us: Color, pawns: u64, our: u64, their: u64) -> int
    decreases pawns,
    via pawns_score_decreases
{
    if pawns == 0 { 0 } else { pawn_score(us, low(pawns), our, their) + pawns_score(us, rest(pawns), our, their) }
}

#[via_fn]
proof fn pawns_score_decreases(us: Color, pawns: u64, our: u64, their: u64) {
    if pawns != 0 {
        lemma_rest_smaller(pawns);
    }
}

/// The packed pawn structure score of a position, White minus Black.
pub open spec fn pawn_structure_score(v: PositionView) -> int {
    let wp = v.bb(Color::White, PieceType::Pawn);
    let bp = v.bb(Color::Black, PieceType::Pawn);
    pawns_score(Color::White, wp, wp, bp) - pawns_score(Color::Black, bp, bp, wp)
}

/// No White pawn stands on the eighth rank.
pub open spec fn no_white_pawn_on_last_rank(v: PositionView) -> bool {
    forall|t: int| 56 <= t < 64 ==> !#[trigger] has_bit(v.bb(Color::White, PieceType::Pawn), t)
}

// ─── Bitboard facts ───────────────────────────────────────────────────────────

/// Two bitboards meet exactly when some square is in both.
proof fn lemma_meets(a: u64, m: u64)
    ensures
        (a & m != 0) <==> exists|t: int| #[trigger] has_bit(a, t) && has_bit(m, t),
{
    lemma_and_bits(a, m);
    lemma_zero_bits();
    if a & m != 0 {
        if !exists|t: int| #[trigger] has_bit(a, t) && has_bit(m, t) {
            assert forall|t: int| 0 <= t < 64 implies has_bit(a & m, t) == has_bit(0u64, t) by {
                if has_bit(a & m, t) {
                    assert(has_bit(a, t) && has_bit(m, t));
                }
            }
            lemma_bits_ext(a & m, 0u64);
        }
    } else {
        assert forall|t: int| #[trigger] has_bit(a, t) implies !has_bit(m, t) by {
            if has_bit(m, t) {
                assert(has_bit(a & m, t));
            }
        }
    }
}

/// A bitboard holding `s` holds another square exactly when it has more than one.
proof fn lemma_two_bits(x: u64, s: int)
    requires
        has_bit(x, s),
    ensures
        (popcount_spec(x) > 1) <==> exists|t: int| #[trigger] has_bit(x, t) && t != s,
{
    lemma_zero_bits();
    assert(x != 0);
    lemma_popcount_rest(x);
    lemma_low_rest(x);
    let r = rest(x);
    if popcount_spec(x) > 1 {
        assert(r != 0);
        lemma_low_rest(r);
        let a = low(r);
        assert(has_bit(x, a) && a != low(x));
        if a == s {
            assert(has_bit(x, low(x)) && low(x) != s);
        } else {
            assert(has_bit(x, a) && a != s);
        }
    } else {
        if r != 0 {
            lemma_popcount_rest(r);
        }
        assert(r == 0);
        assert forall|t: int| #[trigger] has_bit(x, t) implies t == s by {
            if t != low(x) {
                assert(has_bit(r, t));
            }
            if s != low(x) {
                assert(has_bit(r, s));
            }
        }
    }
}

// ─── Square masks ─────────────────────────────────────────────────────────────

/// The squares of the file of `sq` at or above it.
fn file_up(sq: u32) -> (r: u64)
    requires
        sq < 64,
    ensures
        forall|t: int| #![trigger has_bit(r, t)]
            has_bit(r, t) <==> (0 <= t < 64 && file_of(t) == file_of(sq as int) && rank_of(t) >= rank_of(sq as int)),
{
    proof { lemma_single_bit(sq as u64); }
    let b = 1u64 << sq;
    let r = north_fill(b);
    proof {
        assert forall|t: int| #![trigger has_bit(r, t)]
            has_bit(r, t) <==> (0 <= t < 64 && file_of(t) == file_of(sq as int) && rank_of(t) >= rank_of(sq as int)) by {
            if has_bit(r, t) {
                let k = choose|k: int| 0 <= k <= 7 && #[trigger] has_bit(b, t - 8 * k);
                assert(t - 8 * k == sq);
            }
            if 0 <= t < 64 && file_of(t) == file_of(sq as int) && rank_of(t) >= rank_of(sq as int) {
                let k = rank_of(t) - rank_of(sq as int);
                assert(t - 8 * k == sq);
                assert(has_bit(b, t - 8 * k));
            }
        }
    }
    r
}

/// The squares of the file of `sq` at or below it.
fn file_down(sq: u32) -> (r: u64)
    requires
        sq < 64,
    ensures
        forall|t: int| #![trigger has_bit(r, t)]
            has_bit(r, t) <==> (0 <= t < 64 && file_of(t) == file_of(sq as int) && rank_of(t) <= rank_of(sq as int)),
{
    proof { lemma_single_bit(sq as u64); }
    let b = 1u64 << sq;
    let r = south_fill(b);
    proof {
        assert forall|t: int| #![trigger has_bit(r, t)]
            has_bit(r, t) <==> (0 <= t < 64 && file_of(t) == file_of(sq as int) && rank_of(t) <= rank_of(sq as int)) by {
            if has_bit(r, t) {
                let k = choose|k: int| 0 <= k <= 7 && #[trigger] has_bit(b, t + 8 * k);
                assert(t + 8 * k == sq);
            }
            if 0 <= t < 64 && file_of(t) == file_of(sq as int) && rank_of(t) <= rank_of(sq as int) {
                let k = rank_of(sq as int) - rank_of(t);
                assert(t + 8 * k == sq);
                assert(has_bit(b, t + 8 * k));
            }
        }
    }
    r
}

/// The squares on the files beside that of `sq`.
fn adjacent_files(sq: u32) -> (r: u64)
    requires
        sq < 64,
    ensures
        forall|t: int| #![trigger has_bit(r, t)] has_bit(r, t) <==> (0 <= t < 64 && adjacent_file(sq as int, t)),
{
    let up = file_up(sq);
    let down = file_down(sq);
    proof { lemma_or_bits(up, down); }
    let f = up | down;
    let e = east(f);
    let w = west(f);
    proof { lemma_or_bits(e, w); }
    e | w
}

/// The square `sq` alone.
fn single(sq: u32) -> (r: u64)
    requires
        sq < 64,
    ensures
        forall|t: int| #![trigger has_bit(r, t)] has_bit(r, t) <==> t == sq,
{
    proof { lemma_single_bit(sq as u64); }
    1u64 << sq
}

/// Squares ahead of a White pawn on `sq`, on its file and the files beside it.
fn passed_pawn_mask_white(sq: u32) -> (r: u64)
    requires
        sq < 56,
    ensures
        forall|t: int| #![trigger has_bit(r, t)] has_bit(r, t) <==>
            (0 <= t < 64 && (file_of(t) == file_of(sq as int) || adjacent_file(sq as int, t)) && ahead(Color::White, sq as int, t)),
{
    let file = sq % 8;
    let up = file_up(sq);
    let me = single(sq);
    proof { lemma_not_bits(me); lemma_and_bits(up, !me); }
    let mut mask = up & !me;
    if file > 0 {
        let l = file_up(sq + 7);
        proof { lemma_or_bits(mask, l); }
        mask = mask | l;
    }
    if file < 7 {
        let r = file_up(sq + 9);
        proof { lemma_or_bits(mask, r); }
        mask = mask | r;
    }
    mask
}

/// Squares ahead of a Black pawn on `sq`, on its file and the files beside it.
fn passed_pawn_mask_black(sq: u32) -> (r: u64)
    requires
        sq < 64,
    ensures
        forall|t: int| #![trigger has_bit(r, t)] has_bit(r, t) <==>
            (0 <= t < 64 && (file_of(t) == file_of(sq as int) || adjacent_file(sq as int, t)) && ahead(Color::Black, sq as int, t)),
{
    let file = sq % 8;
    let rank = sq / 8;
    let down = file_down(sq);
    let me = single(sq);
    proof { lemma_not_bits(me); lemma_and_bits(down, !me); }
    let mut mask = down & !me;
    if file > 0 && rank > 0 {
        let l = file_down(sq - 9);
        proof { lemma_or_bits(mask, l); }
        mask = mask | l;
    }
    if file < 7 && rank > 0 {
        let r = file_down(sq - 7);
        proof { lemma_or_bits(mask, r); }
        mask = mask | r;
    }
    mask
}

/// Whether the pawn of `us` on `sq` is backward: no friendly pawn on a file beside it
/// stands level with it or behind it, and an enemy pawn attacks the square in front.
fn is_backward_pawn(us: Color, sq: u32, our_pawns: u64, their_pawns: u64) -> (b: bool)
    requires
        sq < 64,
        us == Color::White ==> sq < 56,
    ensures
        b == is_backward(us, sq as int, our_pawns, their_pawns),
{
    let file = sq % 8;
    let (behind_mask, front_sq): (u64, u64) = match us {
        Color::White => {
            let mut m = 0u64;
            proof { lemma_zero_bits(); }
            if file > 0 {
                let l = file_down(sq - 1);
                proof { lemma_or_bits(m, l); }
                m = m | l;
            }
            if file < 7 {
                let r = file_down(sq + 1);
                proof { lemma_or_bits(m, r); }
                m = m | r;
            }
            (m, single(sq + 8))
        },
        Color::Black => {
            if sq < 8 {
                return false;
            }
            let mut m = 0u64;
            proof { lemma_zero_bits(); }
            if file > 0 {
                let l = file_up(sq - 1);
                proof { lemma_or_bits(m, l); }
                m = m | l;
            }
            if file < 7 {
                let r = file_up(sq + 1);
                proof { lemma_or_bits(m, r); }
                m = m | r;
            }
            (m, single(sq - 8))
        },
    };
    assert forall|t: int| #![trigger has_bit(behind_mask, t)]
        has_bit(behind_mask, t) <==> (0 <= t < 64 && adjacent_file(sq as int, t) && !ahead(us, sq as int, t)) by {
    }
    let no_support = our_pawns & behind_mask == 0;
    let attacks = match us {
        Color::White => black_pawn_attacks(their_pawns),
        Color::Black => white_pawn_attacks(their_pawns),
    };
    let front_attacked = attacks & front_sq != 0;
    proof {
        let s = sq as int;
        lemma_meets(our_pawns, behind_mask);
        lemma_meets(attacks, front_sq);
        // The front square is attacked by an enemy pawn two ranks ahead on a file beside.
        let f = if us == Color::White { s + 8 } else { s - 8 };
        let d: int = if us == Color::White { 2 } else { -2 };
        if front_attacked {
            let u = choose|u: int| #[trigger] has_bit(attacks, u) && has_bit(front_sq, u);
            assert(u == f);
            if us == Color::White {
                if u < 57 && file_of(u) != 0 && has_bit(their_pawns, u + 7) {
                    assert(has_bit(their_pawns, u + 7) && adjacent_file(s, u + 7) && rank_of(u + 7) == rank_of(s) + d);
                } else {
                    assert(has_bit(their_pawns, u + 9) && adjacent_file(s, u + 9) && rank_of(u + 9) == rank_of(s) + d);
                }
            } else {
                if u >= 9 && file_of(u) != 0 && has_bit(their_pawns, u - 9) {
                    assert(has_bit(their_pawns, u - 9) && adjacent_file(s, u - 9) && rank_of(u - 9) == rank_of(s) + d);
                } else {
                    assert(has_bit(their_pawns, u - 7) && adjacent_file(s, u - 7) && rank_of(u - 7) == rank_of(s) + d);
                }
            }
        }
        if exists|t: int| #[trigger] has_bit(their_pawns, t) && adjacent_file(s, t) && rank_of(t) == rank_of(s) + d {
            let t = choose|t: int| #[trigger] has_bit(their_pawns, t) && adjacent_file(s, t) && rank_of(t) == rank_of(s) + d;
            if file_of(t) == file_of(s) + 1 {
                assert(t == (if us == Color::White { f + 9 } else { f - 7 }));
            } else {
                assert(t == (if us == Color::White { f + 7 } else { f - 9 }));
            }
            assert(has_bit(attacks, f) && has_bit(front_sq, f));
        }
        // Support is a friendly pawn beside, level with or behind the pawn.
        if !no_support {
            let t = choose|t: int| #[trigger] has_bit(our_pawns, t) && has_bit(behind_mask, t);
            assert(has_bit(our_pawns, t) && adjacent_file(s, t) && !ahead(us, s, t));
        }
        if exists|t: int| #[trigger] has_bit(our_pawns, t) && adjacent_file(s, t) && !ahead(us, s, t) {
            let t = choose|t: int| #[trigger] has_bit(our_pawns, t) && adjacent_file(s, t) && !ahead(us, s, t);
            assert(has_bit(behind_mask, t));
        }
    }
    no_support && front_attacked
}

// ─── Evaluation ───────────────────────────────────────────────────────────────

/// Whether the pawn of `us` on `sq` is passed.
fn pawn_passed(us: Color, sq: u32, their_pawns: u64) -> (b: bool)
    requires
        sq < 64,
        us == Color::White ==> sq < 56,
    ensures
        b == is_passed(us, sq as int, their_pawns),
{
    let ghost s = sq as int;
    let pass_mask = match us {
        Color::White => passed_pawn_mask_white(sq),
        Color::Black => passed_pawn_mask_black(sq),
    };
    let passed = their_pawns & pass_mask == 0;
    proof {
        lemma_meets(their_pawns, pass_mask);
        if !passed {
            let t = choose|t: int| #[trigger] has_bit(their_pawns, t) && has_bit(pass_mask, t);
            assert(has_bit(their_pawns, t) && (file_of(t) == file_of(s) || adjacent_file(s, t)) && ahead(us, s, t));
        }
        if !is_passed(us, s, their_pawns) {
            let t = choose|t: int| #[trigger] has_bit(their_pawns, t) && (file_of(t) == file_of(s) || adjacent_file(s, t)) && ahead(us, s, t);
            assert(has_bit(pass_mask, t));
        }
    }
    passed
}

/// Whether the pawn on `sq` is isolated.
fn pawn_isolated(sq: u32, our_pawns: u64) -> (b: bool)
    requires
        sq < 64,
    ensures
        b == is_isolated(sq as int, our_pawns),
{
    let adj = adjacent_files(sq);
    let isolated = our_pawns & adj == 0;
    proof {
        lemma_meets(our_pawns, adj);
        if !isolated {
            let t = choose|t: int| #[trigger] has_bit(our_pawns, t) && has_bit(adj, t);
            assert(has_bit(our_pawns, t) && adjacent_file(sq as int, t));
        }
    }
    isolated
}

/// Whether the pawn on `sq` is doubled: more than one friendly pawn on its file.
fn pawn_doubled(sq: u32, our_pawns: u64) -> (b: bool)
    requires
        sq < 64,
        has_bit(our_pawns, sq as int),
    ensures
        b == is_doubled(sq as int, our_pawns),
{
    let ghost s = sq as int;
    let up = file_up(sq);
    let down = file_down(sq);
    proof { lemma_or_bits(up, down); }
    let file_mask = up | down;
    proof { lemma_and_bits(our_pawns, file_mask); }
    let on_file = our_pawns & file_mask;
    let count = crate::board::bitboard::popcount(on_file);
    proof {
        assert(has_bit(on_file, s));
        lemma_two_bits(on_file, s);
        if count > 1 {
            let t = choose|t: int| #[trigger] has_bit(on_file, t) && t != s;
            assert(has_bit(our_pawns, t) && t != s && file_of(t) == file_of(s));
        }
        if is_doubled(s, our_pawns) {
            let t = choose|t: int| #[trigger] has_bit(our_pawns, t) && t != s && file_of(t) == file_of(s);
            assert(has_bit(on_file, t));
        }
    }
    count > 1
}

/// Whether a friendly pawn stands beside the pawn on `sq`.
fn pawn_phalanx(sq: u32, our_pawns: u64) -> (b: bool)
    requires
        sq < 64,
    ensures
        b == in_phalanx(sq as int, our_pawns),
{
    let ghost s = sq as int;
    let me = single(sq);
    let e = east(me);
    let w = west(me);
    proof { lemma_or_bits(e, w); }
    let phalanx_mask = e | w;
    let phalanx = our_pawns & phalanx_mask != 0;
    proof {
        lemma_meets(our_pawns, phalanx_mask);
        if phalanx {
            let t = choose|t: int| #[trigger] has_bit(our_pawns, t) && has_bit(phalanx_mask, t);
            assert(has_bit(our_pawns, t) && adjacent_file(s, t) && rank_of(t) == rank_of(s));
        }
        if in_phalanx(s, our_pawns) {
            let t = choose|t: int| #[trigger] has_bit(our_pawns, t) && adjacent_file(s, t) && rank_of(t) == rank_of(s);
            assert(has_bit(phalanx_mask, t));
        }
    }
    phalanx
}

/// Whether a friendly pawn defends the pawn of `us` on `sq` from diagonally behind.
fn pawn_connected(us: Color, sq: u32, our_pawns: u64) -> (b: bool)
    requires
        sq < 64,
    ensures
        b == is_connected(us, sq as int, our_pawns),
{
    let ghost s = sq as int;
    let me = single(sq);
    let support_mask = match us {
        Color::White => {
            let a = south_west(me);
            let b = south_east(me);
            proof { lemma_or_bits(a, b); }
            a | b
        },
        Color::Black => {
            let a = north_west(me);
            let b = north_east(me);
            proof { lemma_or_bits(a, b); }
            a | b
        },
    };
    let connected = our_pawns & support_mask != 0;
    proof {
        let d: int = if us == Color::White { -1 } else { 1 };
        lemma_meets(our_pawns, support_mask);
        if connected {
            let t = choose|t: int| #[trigger] has_bit(our_pawns, t) && has_bit(support_mask, t);
            assert(has_bit(our_pawns, t) && adjacent_file(s, t) && rank_of(t) == rank_of(s) + d);
        }
        if is_connected(us, s, our_pawns) {
            let t = choose|t: int| #[trigger] has_bit(our_pawns, t) && adjacent_file(s, t) && rank_of(t) == rank_of(s) + d;
            assert(has_bit(support_mask, t));
        }
    }
    connected
}

/// The packed score of the pawn of `us` on `sq`.
fn pawn_term(us: Color, sq: u32, our_pawns: u64, their_pawns: u64) -> (v: i32)
    requires
        sq < 64,
        has_bit(our_pawns, sq as int),
        us == Color::White ==> sq < 56,
    ensures
        v == pawn_score(us, sq as int, our_pawns, their_pawns),
        -2700000 <= v <= 12000000,
{
    let rank = sq / 8;
    let display_rank = match us {
        Color::White => rank,
        Color::Black => 7 - rank,
    };
    let mut score = 0i32;
    if pawn_passed(us, sq, their_pawns) {
        score = score + PASSED_PAWN_BONUS[display_rank as usize];
    }
    assert(score == (if is_passed(us, sq as int, their_pawns) { passed_bonus(display_rank as int) } else { 0 }));
    let isolated = pawn_isolated(sq, our_pawns);
    if isolated {
        score = score + ISOLATED_PAWN_PENALTY;
    }
    if pawn_doubled(sq, our_pawns) {
        score = score + DOUBLED_PAWN_PENALTY;
    }
    if !isolated {
        if is_backward_pawn(us, sq, our_pawns, their_pawns) {
            score = score + BACKWARD_PAWN_PENALTY;
        }
    }
    if pawn_phalanx(sq, our_pawns) {
        score = score + PHALANX_BONUS;
    }
    if pawn_connected(us, sq, our_pawns) {
        score = score + CONNECTED_BONUS;
    }
    score
}

/// The packed pawn score of `us`: the sum over its pawns.
fn eval_pawns_for_color(us: Color, our_pawns: u64, their_pawns: u64) -> (v: i32)
    requires
        us == Color::White ==> forall|t: int| 56 <= t < 64 ==> !#[trigger] has_bit(our_pawns, t),
    ensures
        v == pawns_score(us, our_pawns, our_pawns, their_pawns),
        -2700000 * 64 <= v <= 12000000 * 64,
{
    let mut score = 0i32;
    let mut pawns = our_pawns;
    let mut k: u32 = 0;
    proof { lemma_popcount_le_64(our_pawns); }
    while pawns != 0
        invariant
            us == Color::White ==> forall|t: int| 56 <= t < 64 ==> !#[trigger] has_bit(our_pawns, t),
            forall|t: int| #[trigger] has_bit(pawns, t) ==> has_bit(our_pawns, t),
            k + popcount_spec(pawns) == popcount_spec(our_pawns),
            popcount_spec(our_pawns) <= 64,
            -2700000 * k <= score <= 12000000 * k,
            score + pawns_score(us, pawns, our_pawns, their_pawns) == pawns_score(us, our_pawns, our_pawns, their_pawns),
        decreases pawns,
    {
        proof {
            lemma_low_rest(pawns);
            lemma_rest_smaller(pawns);
            lemma_popcount_rest(pawns);
        }
        let sq = pop_lsb(&mut pawns);
        let v = pawn_term(us, sq, our_pawns, their_pawns);
        score = score + v;
        k = k + 1;
    }
    score
}

/// The packed pawn structure score, White minus Black.
pub fn evaluate_pawns(pos: &Position) -> (s: i32)
    requires
        no_white_pawn_on_last_rank(pos@),
    ensures
        s == pawn_structure_score(pos@),
{
    let wp = pos.bb(Color::White, PieceType::Pawn);
    let bp = pos.bb(Color::Black, PieceType::Pawn);
    let mut score = 0i32;
    score = score + eval_pawns_for_color(Color::White, wp, bp);
    score = score - eval_pawns_for_color(Color::Black, bp, wp);
    score
}

} // verus!
