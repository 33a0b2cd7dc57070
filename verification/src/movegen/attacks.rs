//! Attack sets of every piece kind. Slider attacks are computed by walking the rays
//! from the square until the first occupied square (which is included).
use vstd::prelude::*;
use crate::board::bitboard::{
    has_bit, bits_where, lemma_bits_where, knight_attacks, king_attacks, white_pawn_attacks, black_pawn_attacks, knight_step,
    king_step, file_of, rank_of, lemma_single_bit, lemma_or_bits,
};
use crate::board::color::Color;

verus! {

/// Knight attack bitboard of square `s`.
pub open spec fn knight_att(s: int) -> u64 {
    bits_where(|t: int| knight_step(s, t))
}

/// King attack bitboard of square `s`.
pub open spec fn king_att(s: int) -> u64 {
    bits_where(|t: int| king_step(s, t))
}

/// Pawn attack bitboard of a pawn of color `c` on square `s`.
pub open spec fn pawn_att(c: Color, s: int) -> u64 {
    bits_where(|t: int| pawn_attack(c, s, t))
}

/// Rook attack bitboard of square `s` with blockers `occ`.
pub open spec fn rook_att(s: int, occ: u64) -> u64 {
    bits_where(|t: int| rook_attack(s, occ, t))
}

/// Bishop attack bitboard of square `s` with blockers `occ`.
pub open spec fn bishop_att(s: int, occ: u64) -> u64 {
    bits_where(|t: int| bishop_attack(s, occ, t))
}

/// Queen attack bitboard of square `s` with blockers `occ`.
pub open spec fn queen_att(s: int, occ: u64) -> u64 {
    bits_where(|t: int| rook_attack(s, occ, t) || bishop_attack(s, occ, t))
}

/// Remaining length of a walk from (r, f) in direction (dr, df) before it leaves the board.
pub open spec fn ray_measure(r: int, f: int, dr: int, df: int) -> int {
    (if dr == 1 { 8 - r } else if dr == -1 { r + 1 } else { 0 }) + (if df == 1 { 8 - f } else if df == -1 { f + 1 } else { 0 })
}

/// Square `t` is reached walking from rank `r`, file `f` (inclusive) in direction
/// (`dr`, `df`) over empty squares of `occ`: the walk stops after the first occupied square.
pub open spec fn in_ray(r: int, f: int, dr: int, df: int, occ: u64, t: int) -> bool
    decreases ray_measure(r, f, dr, df),
{
    if !(0 <= r < 8 && 0 <= f < 8) || (dr == 0 && df == 0) || !(-1 <= dr <= 1 && -1 <= df <= 1) {
        false
    } else {
        t == r * 8 + f || (!has_bit(occ, r * 8 + f) && in_ray(r + dr, f + df, dr, df, occ, t))
    }
}

/// Squares attacked by a slider on `s` moving in direction (dr, df).
pub open spec fn ray_attack(s: int, dr: int, df: int, occ: u64, t: int) -> bool {
    in_ray(rank_of(s) + dr, file_of(s) + df, dr, df, occ, t)
}

/// Rook attack set from `s` with blockers `occ`.
pub open spec fn rook_attack(s: int, occ: u64, t: int) -> bool {
    ray_attack(s, 1, 0, occ, t) || ray_attack(s, -1, 0, occ, t) || ray_attack(s, 0, 1, occ, t)
        || ray_attack(s, 0, -1, occ, t)
}

/// Bishop attack set from `s` with blockers `occ`.
pub open spec fn bishop_attack(s: int, occ: u64, t: int) -> bool {
    ray_attack(s, 1, 1, occ, t) || ray_attack(s, 1, -1, occ, t) || ray_attack(s, -1, 1, occ, t)
        || ray_attack(s, -1, -1, occ, t)
}

/// Squares of a walk are on the board.
pub proof fn lemma_in_ray_on_board(r: int, f: int, dr: int, df: int, occ: u64, t: int)
    ensures
        in_ray(r, f, dr, df, occ, t) ==> 0 <= t < 64,
    decreases ray_measure(r, f, dr, df),
{
    if (0 <= r < 8 && 0 <= f < 8) && !(dr == 0 && df == 0) && (-1 <= dr <= 1 && -1 <= df <= 1) {
        lemma_in_ray_on_board(r + dr, f + df, dr, df, occ, t);
    }
}

proof fn lemma_inst(old_attacks: u64, r: int, f: int, dr: int, df: int, occ: u64, sq: int, t: int)
    requires
        forall|t: int| #![trigger has_bit(old_attacks, t)] (has_bit(old_attacks, t) || in_ray(r, f, dr, df, occ, t))
            <==> ray_attack(sq, dr, df, occ, t),
    ensures
        (has_bit(old_attacks, t) || in_ray(r, f, dr, df, occ, t)) <==> ray_attack(sq, dr, df, occ, t),
{
}

/// One step of walking a ray: adding the current square to the attack set.
proof fn lemma_ray_step(old_attacks: u64, attacks: u64, r: int, f: int, dr: int, df: int, occ: u64, sq: int)
    requires
        0 <= r < 8,
        0 <= f < 8,
        -1 <= dr <= 1,
        -1 <= df <= 1,
        !(dr == 0 && df == 0),
        forall|t: int| #![trigger has_bit(old_attacks, t)] (has_bit(old_attacks, t) || in_ray(r, f, dr, df, occ, t))
            <==> ray_attack(sq, dr, df, occ, t),
        forall|t: int| #![trigger has_bit(attacks, t)] has_bit(attacks, t) == (has_bit(old_attacks, t) || t == r * 8 + f),
    ensures
        has_bit(occ, r * 8 + f) ==> forall|t: int| #![trigger has_bit(attacks, t)] has_bit(attacks, t)
            <==> ray_attack(sq, dr, df, occ, t),
        !has_bit(occ, r * 8 + f) ==> forall|t: int| #![trigger has_bit(attacks, t)] (has_bit(attacks, t) || in_ray(r + dr, f + df, dr, df, occ, t))
            <==> ray_attack(sq, dr, df, occ, t),
{
    assert forall|t: int| #![trigger has_bit(attacks, t)] (has_bit(attacks, t) || (!has_bit(occ, r * 8 + f) && in_ray(r + dr, f + df, dr, df, occ, t)))
        <==> ray_attack(sq, dr, df, occ, t) by {
        assert(in_ray(r, f, dr, df, occ, t) == (t == r * 8 + f || (!has_bit(occ, r * 8 + f) && in_ray(r + dr, f + df, dr, df, occ, t))));
        lemma_inst(old_attacks, r, f, dr, df, occ, sq, t);
    }
}

/// The squares attacked along one ray from `sq` in direction (dr, df).
fn ray(sq: u32, dr: i32, df: i32, occ: u64) -> (attacks: u64)
    requires
        sq < 64,
        -1 <= dr <= 1,
        -1 <= df <= 1,
        !(dr == 0 && df == 0),
    ensures
        forall|t: int| #![trigger has_bit(attacks, t)] has_bit(attacks, t) <==> ray_attack(sq as int, dr as int, df as int, occ, t),
{
    let rank = (sq / 8) as i32;
    let file = (sq % 8) as i32;
    let mut attacks: u64 = 0;
    let mut r = rank + dr;
    let mut f = file + df;
    proof {
        crate::board::bitboard::lemma_zero_bits();
    }
    while 0 <= r && r < 8 && 0 <= f && f < 8
        invariant
            -1 <= dr <= 1,
            -1 <= df <= 1,
            !(dr == 0 && df == 0),
            -1 <= r <= 8,
            -1 <= f <= 8,
            forall|t: int| #![trigger has_bit(attacks, t)] (has_bit(attacks, t) || in_ray(r as int, f as int, dr as int, df as int, occ, t))
                <==> ray_attack(sq as int, dr as int, df as int, occ, t),
        decreases ray_measure(r as int, f as int, dr as int, df as int),
    {
        let ghost old_attacks = attacks;
        let s = (r * 8 + f) as u64;
        let bit = 1u64 << s;
        proof {
            lemma_single_bit(s);
            lemma_or_bits(old_attacks, bit);
        }
        attacks = attacks | bit;
        let blocked = occ & bit != 0;
        proof {
            crate::board::bitboard::lemma_square_test(occ, s as int);
            assert forall|t: int| #![trigger has_bit(attacks, t)] has_bit(attacks, t) == (has_bit(old_attacks, t) || t == s as int) by {
                assert(has_bit(attacks, t) == (has_bit(old_attacks, t) || has_bit(bit, t)));
            }
            lemma_ray_step(old_attacks, attacks, r as int, f as int, dr as int, df as int, occ, sq as int);
        }
        if blocked {
            return attacks;
        }
        r = r + dr;
        f = f + df;
    }
    attacks
}

/// Initializes attack tables (attack sets are computed directly; nothing to do).
pub fn init_all() {
}

/// Rook attacks from `sq` with blockers `occ`, by walking the four orthogonal rays.
pub fn rook_attacks_slow(sq: u32, occ: u64) -> (a: u64)
    requires
        sq < 64,
    ensures
        forall|t: int| #![trigger has_bit(a, t)] has_bit(a, t) <==> rook_attack(sq as int, occ, t),
        a == rook_att(sq as int, occ),
{
    let a1 = ray(sq, 1, 0, occ);
    let a2 = ray(sq, -1, 0, occ);
    let a3 = ray(sq, 0, 1, occ);
    let a4 = ray(sq, 0, -1, occ);
    proof {
        lemma_or_bits(a1, a2);
        lemma_or_bits(a1 | a2, a3);
        lemma_or_bits(a1 | a2 | a3, a4);
        lemma_bits_where(a1 | a2 | a3 | a4, |t: int| rook_attack(sq as int, occ, t));
    }
    a1 | a2 | a3 | a4
}

/// Bishop attacks from `sq` with blockers `occ`, by walking the four diagonal rays.
pub fn bishop_attacks_slow(sq: u32, occ: u64) -> (a: u64)
    requires
        sq < 64,
    ensures
        forall|t: int| #![trigger has_bit(a, t)] has_bit(a, t) <==> bishop_attack(sq as int, occ, t),
        a == bishop_att(sq as int, occ),
{
    let a1 = ray(sq, 1, 1, occ);
    let a2 = ray(sq, 1, -1, occ);
    let a3 = ray(sq, -1, 1, occ);
    let a4 = ray(sq, -1, -1, occ);
    proof {
        lemma_or_bits(a1, a2);
        lemma_or_bits(a1 | a2, a3);
        lemma_or_bits(a1 | a2 | a3, a4);
        lemma_bits_where(a1 | a2 | a3 | a4, |t: int| bishop_attack(sq as int, occ, t));
    }
    a1 | a2 | a3 | a4
}

/// Bishop attacks from `sq` with blockers `occ`.
pub fn bishop_attacks(sq: u32, occ: u64) -> (a: u64)
    requires
        sq < 64,
    ensures
        forall|t: int| #![trigger has_bit(a, t)] has_bit(a, t) <==> bishop_attack(sq as int, occ, t),
        a == bishop_att(sq as int, occ),
{
    bishop_attacks_slow(sq, occ)
}

/// Rook attacks from `sq` with blockers `occ`.
pub fn rook_attacks(sq: u32, occ: u64) -> (a: u64)
    requires
        sq < 64,
    ensures
        forall|t: int| #![trigger has_bit(a, t)] has_bit(a, t) <==> rook_attack(sq as int, occ, t),
        a == rook_att(sq as int, occ),
{
    rook_attacks_slow(sq, occ)
}

/// Queen attacks: rook and bishop attacks together.
pub fn queen_attacks(sq: u32, occ: u64) -> (a: u64)
    requires
        sq < 64,
    ensures
        forall|t: int| #![trigger has_bit(a, t)] has_bit(a, t) <==> (rook_attack(sq as int, occ, t) || bishop_attack(sq as int, occ, t)),
        a == queen_att(sq as int, occ),
{
    let r = rook_attacks(sq, occ);
    let b = bishop_attacks(sq, occ);
    proof {
        lemma_or_bits(r, b);
        lemma_bits_where(r | b, |t: int| rook_attack(sq as int, occ, t) || bishop_attack(sq as int, occ, t));
    }
    r | b
}

/// Knight attacks from a square.
pub fn knight_attacks_sq(sq: u32) -> (a: u64)
    requires
        sq < 64,
    ensures
        forall|t: int| #![trigger has_bit(a, t)] has_bit(a, t) <==> knight_step(sq as int, t),
        a == knight_att(sq as int),
{
    proof { lemma_single_bit(sq as u64); }
    let a = knight_attacks(1u64 << sq);
    proof {
        assert forall|t: int| #![trigger has_bit(a, t)] has_bit(a, t) <==> knight_step(sq as int, t) by {
            if knight_step(sq as int, t) {
                assert(has_bit(1u64 << (sq as u64), sq as int));
            }
        }
        lemma_bits_where(a, |t: int| knight_step(sq as int, t));
    }
    a
}

/// King attacks from a square.
pub fn king_attacks_sq(sq: u32) -> (a: u64)
    requires
        sq < 64,
    ensures
        forall|t: int| #![trigger has_bit(a, t)] has_bit(a, t) <==> king_step(sq as int, t),
        a == king_att(sq as int),
{
    proof { lemma_single_bit(sq as u64); }
    let a = king_attacks(1u64 << sq);
    proof {
        assert forall|t: int| #![trigger has_bit(a, t)] has_bit(a, t) <==> king_step(sq as int, t) by {
            if king_step(sq as int, t) {
                assert(has_bit(1u64 << (sq as u64), sq as int));
            }
        }
        lemma_bits_where(a, |t: int| king_step(sq as int, t));
    }
    a
}

/// Squares attacked by a pawn of `color` on `s`: one rank forward, one file aside.
pub open spec fn pawn_attack(color: Color, s: int, t: int) -> bool {
    0 <= s < 64 && 0 <= t < 64 && (file_of(t) - file_of(s) == 1 || file_of(t) - file_of(s) == -1)
        && rank_of(t) - rank_of(s) == (if color == Color::White { 1int } else { -1int })
}

/// Pawn attacks of a pawn of `color` on `sq`.
pub fn pawn_attacks(color: Color, sq: u32) -> (a: u64)
    requires
        sq < 64,
    ensures
        forall|t: int| #![trigger has_bit(a, t)] has_bit(a, t) <==> pawn_attack(color, sq as int, t),
        a == pawn_att(color, sq as int),
{
    proof { lemma_single_bit(sq as u64); }
    let b = 1u64 << sq;
    let a = match color {
        Color::White => white_pawn_attacks(b),
        Color::Black => black_pawn_attacks(b),
    };
    proof {
        lemma_bits_where(a, |t: int| pawn_attack(color, sq as int, t));
    }
    a
}

/// The pawn attack set of a square holds exactly the squares a pawn there attacks.
pub proof fn lemma_pawn_att(c: Color, s: int)
    requires
        0 <= s < 64,
    ensures
        forall|t: int| #![trigger has_bit(pawn_att(c, s), t)] has_bit(pawn_att(c, s), t) <==> pawn_attack(c, s, t),
{
    let u = s as u64;
    lemma_single_bit(u);
    let b = 1u64 << u;
    crate::board::bitboard::lemma_north_east(b);
    crate::board::bitboard::lemma_north_west(b);
    crate::board::bitboard::lemma_south_east(b);
    crate::board::bitboard::lemma_south_west(b);
    let a = if c == Color::White {
        ((b & crate::board::bitboard::NOT_FILE_H) << 9u64) | ((b & crate::board::bitboard::NOT_FILE_A) << 7u64)
    } else {
        ((b & crate::board::bitboard::NOT_FILE_H) >> 7u64) | ((b & crate::board::bitboard::NOT_FILE_A) >> 9u64)
    };
    lemma_or_bits((b & crate::board::bitboard::NOT_FILE_H) << 9u64, (b & crate::board::bitboard::NOT_FILE_A) << 7u64);
    lemma_or_bits((b & crate::board::bitboard::NOT_FILE_H) >> 7u64, (b & crate::board::bitboard::NOT_FILE_A) >> 9u64);
    lemma_bits_where(a, |t: int| pawn_attack(c, s, t));
}

} // verus!
