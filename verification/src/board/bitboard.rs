//! A bitboard is a `u64` in which bit `rank * 8 + file` stands for one square
//! (bit 0 = a1, bit 7 = h1, bit 56 = a8, bit 63 = h8).
use vstd::prelude::*;
use vstd::std_specs::bits::{u64_trailing_zeros, u64_leading_zeros, axiom_u64_trailing_zeros, axiom_u64_leading_zeros};

verus! {

// ─── File masks ───────────────────────────────────────────────────────────────
pub const FILE_A: u64 = 0x0101010101010101;
pub const FILE_B: u64 = 0x0202020202020202;
pub const FILE_C: u64 = 0x0404040404040404;
pub const FILE_D: u64 = 0x0808080808080808;
pub const FILE_E: u64 = 0x1010101010101010;
pub const FILE_F: u64 = 0x2020202020202020;
pub const FILE_G: u64 = 0x4040404040404040;
pub const FILE_H: u64 = 0x8080808080808080;

pub const NOT_FILE_A: u64 = 0xfefefefefefefefe;
pub const NOT_FILE_H: u64 = 0x7f7f7f7f7f7f7f7f;
pub const NOT_FILE_AB: u64 = 0xfcfcfcfcfcfcfcfc;
pub const NOT_FILE_GH: u64 = 0x3f3f3f3f3f3f3f3f;

// ─── Rank masks ───────────────────────────────────────────────────────────────
pub const RANK_1: u64 = 0xff;
pub const RANK_2: u64 = 0xff00;
pub const RANK_3: u64 = 0xff0000;
pub const RANK_4: u64 = 0xff000000;
pub const RANK_5: u64 = 0xff00000000;
pub const RANK_6: u64 = 0xff0000000000;
pub const RANK_7: u64 = 0xff000000000000;
pub const RANK_8: u64 = 0xff00000000000000;

// ─── Square colour masks ──────────────────────────────────────────────────────
pub const LIGHT_SQUARES: u64 = 0x55AA55AA55AA55AA;
pub const DARK_SQUARES: u64 = 0xAA55AA55AA55AA55;

// ─── Specification helpers ────────────────────────────────────────────────────

/// Bit `s` of `bb` is set.
pub open spec fn has_bit(bb: u64, s: int) -> bool {
    0 <= s < 64 && (bb >> (s as u64)) & 1 == 1
}

/// Number of set bits.
pub open spec fn popcount_spec(bb: u64) -> nat
    decreases bb,
{
    if bb == 0 {
        0
    } else {
        (bb % 2) as nat + popcount_spec(bb / 2)
    }
}

/// File (0 = a .. 7 = h) of square index `s`.
pub open spec fn file_of(s: int) -> int {
    s % 8
}

/// Rank (0 = first .. 7 = eighth) of square index `s`.
pub open spec fn rank_of(s: int) -> int {
    s / 8
}

// ─── Core bitboard operations ─────────────────────────────────────────────────

/// `u64::count_ones`: the number of one bits in `x`.
#[verifier::external_body]
fn count_ones(x: u64) -> (r: u32)
    ensures
        r == popcount_spec(x),
{
    x.count_ones()
}

/// Returns the number of set bits.
pub fn popcount(bb: u64) -> (r: u32)
    ensures
        r == popcount_spec(bb),
{
    count_ones(bb)
}

/// Returns true if exactly one bit is set.
pub fn is_single(bb: u64) -> (r: bool)
    ensures
        r <==> exists|s: u64| s < 64 && bb == 1u64 << s,
{
    let r = bb != 0 && (bb & bb.wrapping_sub(1)) == 0;
    proof {
        if r {
            axiom_u64_trailing_zeros(bb);
            let t = u64_trailing_zeros(bb) as u64;
            assert(bb == 1u64 << t) by (bit_vector)
                requires
                    bb != 0,
                    bb & ((bb - 1) as u64) == 0,
                    t < 64,
                    (bb >> t) & 1u64 == 1u64,
                    bb << ((64 - t) as u64) == 0,
            ;
        } else {
            assert forall|s: u64| s < 64 implies bb != 1u64 << s by {
                assert(s < 64 ==> (1u64 << s) != 0 && ((1u64 << s) & (((1u64 << s) - 1) as u64)) == 0)
                    by (bit_vector);
            }
        }
    }
    r
}

/// Returns the index of the least significant set bit (64 for an empty board).
pub fn lsb(bb: u64) -> (r: u32)
    ensures
        r == u64_trailing_zeros(bb),
        bb == 0 <==> r == 64,
        r < 64 ==> has_bit(bb, r as int),
        forall|s: int| 0 <= s < r ==> !has_bit(bb, s),
{
    proof {
        axiom_u64_trailing_zeros(bb);
    }
    bb.trailing_zeros()
}

/// Returns the index of the most significant set bit.
pub fn msb(bb: u64) -> (r: u32)
    requires
        bb != 0,
    ensures
        r == 63 - u64_leading_zeros(bb),
        has_bit(bb, r as int),
        forall|s: int| r < s < 64 ==> !has_bit(bb, s),
{
    proof {
        axiom_u64_leading_zeros(bb);
    }
    let lz = bb.leading_zeros();
    proof {
        let r = (63 - lz) as u64;
        assert((bb >> r) & 1u64 != 0u64 ==> (bb >> r) & 1u64 == 1u64) by (bit_vector);
    }
    63 - lz
}

/// Removes the least significant set bit and returns its index.
pub fn pop_lsb(bb: &mut u64) -> (r: u32)
    requires
        *old(bb) != 0,
    ensures
        r == u64_trailing_zeros(*old(bb)),
        r < 64,
        has_bit(*old(bb), r as int),
        *final(bb) == *old(bb) & ((*old(bb) - 1) as u64),
        forall|s: int| #![trigger has_bit(*final(bb), s)]
            has_bit(*final(bb), s) <==> (has_bit(*old(bb), s) && s != r),
{
    proof {
        axiom_u64_trailing_zeros(*bb);
    }
    let sq = bb.trailing_zeros();
    let ghost b0 = *bb;
    *bb = *bb & (*bb - 1);
    proof {
        let t = sq as u64;
        assert forall|s: int| #![trigger has_bit(*bb, s)]
            has_bit(*bb, s) <==> (has_bit(b0, s) && s != sq) by {
            if 0 <= s < 64 {
                let su = s as u64;
                assert(((b0 & ((b0 - 1) as u64)) >> su) & 1u64 == 1u64 <==> ((b0 >> su) & 1u64 == 1u64 && su != t))
                    by (bit_vector)
                    requires
                        b0 != 0,
                        t < 64,
                        su < 64,
                        (b0 >> t) & 1u64 == 1u64,
                        b0 << ((64 - t) as u64) == 0,
                ;
            }
        }
    }
    sq
}


// ─── Shift operations ─────────────────────────────────────────────────────────

/// One rank up.
pub fn north(bb: u64) -> (r: u64)
    ensures
        r == bb << 8u64,
        forall|s: int| #![trigger has_bit(r, s)] has_bit(r, s) <==> (0 <= s < 64 && s >= 8 && has_bit(bb, s - 8)),
{
    proof { lemma_north(bb); }
    bb << 8
}

/// One rank down.
pub fn south(bb: u64) -> (r: u64)
    ensures
        r == bb >> 8u64,
        forall|s: int| #![trigger has_bit(r, s)] has_bit(r, s) <==> (0 <= s < 64 && s < 56 && has_bit(bb, s + 8)),
{
    proof { lemma_south(bb); }
    bb >> 8
}

/// One file towards h (squares on the h-file fall off).
pub fn east(bb: u64) -> (r: u64)
    ensures
        r == (bb & NOT_FILE_H) << 1u64,
        forall|s: int| #![trigger has_bit(r, s)] has_bit(r, s) <==> (0 <= s < 64 && file_of(s) != 0 && has_bit(bb, s - 1)),
{
    proof { lemma_east(bb); }
    (bb & NOT_FILE_H) << 1
}

/// One file towards a (squares on the a-file fall off).
pub fn west(bb: u64) -> (r: u64)
    ensures
        r == (bb & NOT_FILE_A) >> 1u64,
        forall|s: int| #![trigger has_bit(r, s)] has_bit(r, s) <==> (0 <= s < 64 && file_of(s) != 7 && has_bit(bb, s + 1)),
{
    proof { lemma_west(bb); }
    (bb & NOT_FILE_A) >> 1
}

/// One rank up and one file towards h.
pub fn north_east(bb: u64) -> (r: u64)
    ensures
        r == (bb & NOT_FILE_H) << 9u64,
        forall|s: int| #![trigger has_bit(r, s)] has_bit(r, s) <==> (0 <= s < 64 && s >= 9 && file_of(s) != 0 && has_bit(bb, s - 9)),
{
    proof { lemma_north_east(bb); }
    (bb & NOT_FILE_H) << 9
}

/// One rank up and one file towards a.
pub fn north_west(bb: u64) -> (r: u64)
    ensures
        r == (bb & NOT_FILE_A) << 7u64,
        forall|s: int| #![trigger has_bit(r, s)] has_bit(r, s) <==> (0 <= s < 64 && s >= 7 && file_of(s) != 7 && has_bit(bb, s - 7)),
{
    proof { lemma_north_west(bb); }
    (bb & NOT_FILE_A) << 7
}

/// One rank down and one file towards h.
pub fn south_east(bb: u64) -> (r: u64)
    ensures
        r == (bb & NOT_FILE_H) >> 7u64,
        forall|s: int| #![trigger has_bit(r, s)] has_bit(r, s) <==> (0 <= s < 64 && s < 57 && file_of(s) != 0 && has_bit(bb, s + 7)),
{
    proof { lemma_south_east(bb); }
    (bb & NOT_FILE_H) >> 7
}

/// One rank down and one file towards a.
pub fn south_west(bb: u64) -> (r: u64)
    ensures
        r == (bb & NOT_FILE_A) >> 9u64,
        forall|s: int| #![trigger has_bit(r, s)] has_bit(r, s) <==> (0 <= s < 64 && s < 55 && file_of(s) != 7 && has_bit(bb, s + 9)),
{
    proof { lemma_south_west(bb); }
    (bb & NOT_FILE_A) >> 9
}

pub proof fn lemma_north(bb: u64)
    ensures
        forall|s: int| #![trigger has_bit(bb << 8u64, s)] has_bit(bb << 8u64, s) <==> (0 <= s < 64 && s >= 8 && has_bit(bb, s - 8)),
{
    assert forall|s: int| #![trigger has_bit(bb << 8u64, s)] has_bit(bb << 8u64, s) <==> (0 <= s < 64 && s >= 8 && has_bit(bb, s - 8)) by {
        if 0 <= s < 64 {
            let u = s as u64;
            assert(((bb << 8u64) >> u) & 1 == 1 <==> (u >= 8 && (bb >> ((u - 8) as u64)) & 1 == 1))
                by (bit_vector) requires u < 64;
            assert(has_bit(bb << 8u64, s) == (((bb << 8u64) >> u) & 1 == 1));
            if s >= 8 {
                assert(((s - 8) as u64) == ((u - 8) as u64));
                assert(has_bit(bb, s - 8) == ((bb >> ((u - 8) as u64)) & 1 == 1));
            }
        }
    }
}

pub proof fn lemma_south(bb: u64)
    ensures
        forall|s: int| #![trigger has_bit(bb >> 8u64, s)] has_bit(bb >> 8u64, s) <==> (0 <= s < 64 && s < 56 && has_bit(bb, s + 8)),
{
    assert forall|s: int| #![trigger has_bit(bb >> 8u64, s)] has_bit(bb >> 8u64, s) <==> (0 <= s < 64 && s < 56 && has_bit(bb, s + 8)) by {
        if 0 <= s < 64 {
            let u = s as u64;
            assert(((bb >> 8u64) >> u) & 1 == 1 <==> (u < 56 && (bb >> ((u + 8) as u64)) & 1 == 1))
                by (bit_vector) requires u < 64;
            if s + 8 < 64 { assert(((s + 8) as u64) == ((u + 8) as u64)); }
        }
    }
}

proof fn lemma_east(bb: u64)
    ensures
        forall|s: int| #![trigger has_bit((bb & NOT_FILE_H) << 1u64, s)]
            has_bit((bb & NOT_FILE_H) << 1u64, s) <==> (0 <= s < 64 && file_of(s) != 0 && has_bit(bb, s - 1)),
{
    assert forall|s: int| #![trigger has_bit((bb & NOT_FILE_H) << 1u64, s)]
        has_bit((bb & NOT_FILE_H) << 1u64, s) <==> (0 <= s < 64 && file_of(s) != 0 && has_bit(bb, s - 1)) by {
        if 0 <= s < 64 {
            let u = s as u64;
            assert((((bb & 0x7f7f7f7f7f7f7f7fu64) << 1u64) >> u) & 1 == 1 <==> (u % 8 != 0 && (bb >> ((u - 1) as u64)) & 1 == 1))
                by (bit_vector) requires u < 64;
            if s >= 1 { assert(((s - 1) as u64) == ((u - 1) as u64)); }
        }
    }
}

proof fn lemma_west(bb: u64)
    ensures
        forall|s: int| #![trigger has_bit((bb & NOT_FILE_A) >> 1u64, s)]
            has_bit((bb & NOT_FILE_A) >> 1u64, s) <==> (0 <= s < 64 && file_of(s) != 7 && has_bit(bb, s + 1)),
{
    assert forall|s: int| #![trigger has_bit((bb & NOT_FILE_A) >> 1u64, s)]
        has_bit((bb & NOT_FILE_A) >> 1u64, s) <==> (0 <= s < 64 && file_of(s) != 7 && has_bit(bb, s + 1)) by {
        if 0 <= s < 64 {
            let u = s as u64;
            assert((((bb & 0xfefefefefefefefeu64) >> 1u64) >> u) & 1 == 1 <==> (u % 8 != 7 && (bb >> ((u + 1) as u64)) & 1 == 1))
                by (bit_vector) requires u < 64;
            if s + 1 < 64 { assert(((s + 1) as u64) == ((u + 1) as u64)); }
        }
    }
}

pub proof fn lemma_north_east(bb: u64)
    ensures
        forall|s: int| #![trigger has_bit((bb & NOT_FILE_H) << 9u64, s)]
            has_bit((bb & NOT_FILE_H) << 9u64, s) <==> (0 <= s < 64 && s >= 9 && file_of(s) != 0 && has_bit(bb, s - 9)),
{
    assert forall|s: int| #![trigger has_bit((bb & NOT_FILE_H) << 9u64, s)]
        has_bit((bb & NOT_FILE_H) << 9u64, s) <==> (0 <= s < 64 && s >= 9 && file_of(s) != 0 && has_bit(bb, s - 9)) by {
        if 0 <= s < 64 {
            let u = s as u64;
            assert((((bb & 0x7f7f7f7f7f7f7f7fu64) << 9u64) >> u) & 1 == 1 <==> (u >= 9 && u % 8 != 0 && (bb >> ((u - 9) as u64)) & 1 == 1))
                by (bit_vector) requires u < 64;
            if s >= 9 { assert(((s - 9) as u64) == ((u - 9) as u64)); }
        }
    }
}

pub proof fn lemma_north_west(bb: u64)
    ensures
        forall|s: int| #![trigger has_bit((bb & NOT_FILE_A) << 7u64, s)]
            has_bit((bb & NOT_FILE_A) << 7u64, s) <==> (0 <= s < 64 && s >= 7 && file_of(s) != 7 && has_bit(bb, s - 7)),
{
    assert forall|s: int| #![trigger has_bit((bb & NOT_FILE_A) << 7u64, s)]
        has_bit((bb & NOT_FILE_A) << 7u64, s) <==> (0 <= s < 64 && s >= 7 && file_of(s) != 7 && has_bit(bb, s - 7)) by {
        if 0 <= s < 64 {
            let u = s as u64;
            assert((((bb & 0xfefefefefefefefeu64) << 7u64) >> u) & 1 == 1 <==> (u >= 7 && u % 8 != 7 && (bb >> ((u - 7) as u64)) & 1 == 1))
                by (bit_vector) requires u < 64;
            if s >= 7 { assert(((s - 7) as u64) == ((u - 7) as u64)); }
        }
    }
}

pub proof fn lemma_south_east(bb: u64)
    ensures
        forall|s: int| #![trigger has_bit((bb & NOT_FILE_H) >> 7u64, s)]
            has_bit((bb & NOT_FILE_H) >> 7u64, s) <==> (0 <= s < 64 && s < 57 && file_of(s) != 0 && has_bit(bb, s + 7)),
{
    assert forall|s: int| #![trigger has_bit((bb & NOT_FILE_H) >> 7u64, s)]
        has_bit((bb & NOT_FILE_H) >> 7u64, s) <==> (0 <= s < 64 && s < 57 && file_of(s) != 0 && has_bit(bb, s + 7)) by {
        if 0 <= s < 64 {
            let u = s as u64;
            assert((((bb & 0x7f7f7f7f7f7f7f7fu64) >> 7u64) >> u) & 1 == 1 <==> (u < 57 && u % 8 != 0 && (bb >> ((u + 7) as u64)) & 1 == 1))
                by (bit_vector) requires u < 64;
            if s + 7 < 64 { assert(((s + 7) as u64) == ((u + 7) as u64)); }
        }
    }
}

pub proof fn lemma_south_west(bb: u64)
    ensures
        forall|s: int| #![trigger has_bit((bb & NOT_FILE_A) >> 9u64, s)]
            has_bit((bb & NOT_FILE_A) >> 9u64, s) <==> (0 <= s < 64 && s < 55 && file_of(s) != 7 && has_bit(bb, s + 9)),
{
    assert forall|s: int| #![trigger has_bit((bb & NOT_FILE_A) >> 9u64, s)]
        has_bit((bb & NOT_FILE_A) >> 9u64, s) <==> (0 <= s < 64 && s < 55 && file_of(s) != 7 && has_bit(bb, s + 9)) by {
        if 0 <= s < 64 {
            let u = s as u64;
            assert((((bb & 0xfefefefefefefefeu64) >> 9u64) >> u) & 1 == 1 <==> (u < 55 && u % 8 != 7 && (bb >> ((u + 9) as u64)) & 1 == 1))
                by (bit_vector) requires u < 64;
            if s + 9 < 64 { assert(((s + 9) as u64) == ((u + 9) as u64)); }
        }
    }
}


/// Squares `s` and `t` are a knight's jump apart.
pub open spec fn knight_step(s: int, t: int) -> bool {
    let df = file_of(t) - file_of(s);
    let dr = rank_of(t) - rank_of(s);
    0 <= s < 64 && 0 <= t < 64 && (((df == 1 || df == -1) && (dr == 2 || dr == -2)) || ((df == 2
        || df == -2) && (dr == 1 || dr == -1)))
}

/// Squares `s` and `t` are distinct and a king's step apart.
pub open spec fn king_step(s: int, t: int) -> bool {
    let df = file_of(t) - file_of(s);
    let dr = rank_of(t) - rank_of(s);
    0 <= s < 64 && 0 <= t < 64 && -1 <= df <= 1 && -1 <= dr <= 1 && s != t
}

/// Knight attacks from every square of `sq_bb`.
#[verifier::rlimit(60)]
#[verifier::spinoff_prover]
pub fn knight_attacks(sq_bb: u64) -> (r: u64)
    ensures
        forall|t: int| #![trigger has_bit(r, t)]
            has_bit(r, t) <==> exists|s: int| has_bit(sq_bb, s) && #[trigger] knight_step(s, t),
{
    let l1 = (sq_bb >> 1) & NOT_FILE_H;
    let l2 = (sq_bb >> 2) & NOT_FILE_GH;
    let r1 = (sq_bb << 1) & NOT_FILE_A;
    let r2 = (sq_bb << 2) & NOT_FILE_AB;
    let h1 = l1 | r1;
    let h2 = l2 | r2;
    let r = (h1 << 16) | (h1 >> 16) | (h2 << 8) | (h2 >> 8);
    proof {
        assert forall|t: int| #![trigger has_bit(r, t)]
            has_bit(r, t) <==> exists|s: int| has_bit(sq_bb, s) && #[trigger] knight_step(s, t) by {
            if 0 <= t < 64 {
                let u = t as u64;
                let b = sq_bb;
                assert((r >> u) & 1 == 1
                    <==> (
                        (u >= 17 && u % 8 != 0 && (b >> ((u - 17) as u64)) & 1 == 1)
                        || (u >= 15 && u % 8 != 7 && (b >> ((u - 15) as u64)) & 1 == 1)
                        || (u < 49 && u % 8 != 0 && (b >> ((u + 15) as u64)) & 1 == 1)
                        || (u < 47 && u % 8 != 7 && (b >> ((u + 17) as u64)) & 1 == 1)
                        || (u >= 10 && u % 8 >= 2 && (b >> ((u - 10) as u64)) & 1 == 1)
                        || (u >= 6 && u % 8 <= 5 && (b >> ((u - 6) as u64)) & 1 == 1)
                        || (u < 58 && u % 8 >= 2 && (b >> ((u + 6) as u64)) & 1 == 1)
                        || (u < 54 && u % 8 <= 5 && (b >> ((u + 10) as u64)) & 1 == 1)))
                    by (bit_vector) requires
                        u < 64,
                        l1 == (b >> 1u64) & 0x7f7f7f7f7f7f7f7fu64,
                        l2 == (b >> 2u64) & 0x3f3f3f3f3f3f3f3fu64,
                        r1 == (b << 1u64) & 0xfefefefefefefefeu64,
                        r2 == (b << 2u64) & 0xfcfcfcfcfcfcfcfcu64,
                        h1 == l1 | r1,
                        h2 == l2 | r2,
                        r == (h1 << 16u64) | (h1 >> 16u64) | (h2 << 8u64) | (h2 >> 8u64);
                lemma_step_casts(t);
                if has_bit(r, t) {
                    if t >= 17 && file_of(t) != 0 && has_bit(b, t - 17) { assert(knight_step(t - 17, t)); }
                    else if t >= 15 && file_of(t) != 7 && has_bit(b, t - 15) { assert(knight_step(t - 15, t)); }
                    else if t < 49 && file_of(t) != 0 && has_bit(b, t + 15) { assert(knight_step(t + 15, t)); }
                    else if t < 47 && file_of(t) != 7 && has_bit(b, t + 17) { assert(knight_step(t + 17, t)); }
                    else if t >= 10 && file_of(t) >= 2 && has_bit(b, t - 10) { assert(knight_step(t - 10, t)); }
                    else if t >= 6 && file_of(t) <= 5 && has_bit(b, t - 6) { assert(knight_step(t - 6, t)); }
                    else if t < 58 && file_of(t) >= 2 && has_bit(b, t + 6) { assert(knight_step(t + 6, t)); }
                    else { assert(knight_step(t + 10, t)); }
                }
            }
        }
    }
    r
}

/// The casts of `t ± k` agree with those of `t as u64 ± k` for in-range values.
proof fn lemma_step_casts(t: int)
    requires
        0 <= t < 64,
    ensures
        forall|k: int| #![trigger ((t + k) as u64)] 0 <= t + k < 64 ==> ((t + k) as u64) == ((t as u64) + k) as u64,
{
}

/// King attacks from every square of `sq_bb`.
#[verifier::rlimit(60)]
#[verifier::spinoff_prover]
pub fn king_attacks(sq_bb: u64) -> (r: u64)
    ensures
        forall|t: int| #![trigger has_bit(r, t)]
            has_bit(r, t) <==> exists|s: int| has_bit(sq_bb, s) && #[trigger] king_step(s, t) && !has_bit(sq_bb, t),
{
    let a1 = ((sq_bb & NOT_FILE_H) << 1) | ((sq_bb & NOT_FILE_A) >> 1) | sq_bb;
    let a2 = (a1 << 8) | (a1 >> 8) | a1;
    let r = a2 & !sq_bb;
    proof {
        assert forall|t: int| #![trigger has_bit(r, t)]
            has_bit(r, t) <==> exists|s: int| has_bit(sq_bb, s) && #[trigger] king_step(s, t) && !has_bit(sq_bb, t) by {
            if 0 <= t < 64 {
                let u = t as u64;
                let b = sq_bb;
                assert((r >> u) & 1 == 1
                    <==> ((b >> u) & 1 != 1 && (
                        (u >= 9 && u % 8 != 0 && (b >> ((u - 9) as u64)) & 1 == 1)
                        || (u >= 8 && (b >> ((u - 8) as u64)) & 1 == 1)
                        || (u >= 7 && u % 8 != 7 && (b >> ((u - 7) as u64)) & 1 == 1)
                        || (u >= 1 && u % 8 != 0 && (b >> ((u - 1) as u64)) & 1 == 1)
                        || (u < 63 && u % 8 != 7 && (b >> ((u + 1) as u64)) & 1 == 1)
                        || (u < 57 && u % 8 != 0 && (b >> ((u + 7) as u64)) & 1 == 1)
                        || (u < 56 && (b >> ((u + 8) as u64)) & 1 == 1)
                        || (u < 55 && u % 8 != 7 && (b >> ((u + 9) as u64)) & 1 == 1))))
                    by (bit_vector) requires
                        u < 64,
                        a1 == ((b & 0x7f7f7f7f7f7f7f7fu64) << 1u64) | ((b & 0xfefefefefefefefeu64) >> 1u64) | b,
                        a2 == (a1 << 8u64) | (a1 >> 8u64) | a1,
                        r == a2 & !b;
                lemma_step_casts(t);
                if has_bit(r, t) {
                    if t >= 9 && file_of(t) != 0 && has_bit(b, t - 9) { assert(king_step(t - 9, t)); }
                    else if t >= 8 && has_bit(b, t - 8) { assert(king_step(t - 8, t)); }
                    else if t >= 7 && file_of(t) != 7 && has_bit(b, t - 7) { assert(king_step(t - 7, t)); }
                    else if t >= 1 && file_of(t) != 0 && has_bit(b, t - 1) { assert(king_step(t - 1, t)); }
                    else if t < 63 && file_of(t) != 7 && has_bit(b, t + 1) { assert(king_step(t + 1, t)); }
                    else if t < 57 && file_of(t) != 0 && has_bit(b, t + 7) { assert(king_step(t + 7, t)); }
                    else if t < 56 && has_bit(b, t + 8) { assert(king_step(t + 8, t)); }
                    else { assert(king_step(t + 9, t)); }
                }
            }
        }
    }
    r
}

/// White pawn attacks (northeast + northwest).
pub fn white_pawn_attacks(pawns: u64) -> (r: u64)
    ensures
        r == ((pawns & NOT_FILE_H) << 9u64) | ((pawns & NOT_FILE_A) << 7u64),
        forall|t: int| #![trigger has_bit(r, t)] has_bit(r, t) <==> (0 <= t < 64 && (
            (t >= 9 && file_of(t) != 0 && has_bit(pawns, t - 9))
            || (t >= 7 && file_of(t) != 7 && has_bit(pawns, t - 7)))),
{
    let a = north_east(pawns);
    let b = north_west(pawns);
    proof { lemma_or_bits(a, b); }
    a | b
}

/// Black pawn attacks (southeast + southwest).
pub fn black_pawn_attacks(pawns: u64) -> (r: u64)
    ensures
        r == ((pawns & NOT_FILE_H) >> 7u64) | ((pawns & NOT_FILE_A) >> 9u64),
        forall|t: int| #![trigger has_bit(r, t)] has_bit(r, t) <==> (0 <= t < 64 && (
            (t < 57 && file_of(t) != 0 && has_bit(pawns, t + 7))
            || (t < 55 && file_of(t) != 7 && has_bit(pawns, t + 9)))),
{
    let a = south_east(pawns);
    let b = south_west(pawns);
    proof { lemma_or_bits(a, b); }
    a | b
}

/// A bit of `a | b` is set exactly when it is set in `a` or in `b`.
pub proof fn lemma_or_bits(a: u64, b: u64)
    ensures
        forall|s: int| #![trigger has_bit(a | b, s)] has_bit(a | b, s) <==> (has_bit(a, s) || has_bit(b, s)),
{
    assert forall|s: int| #![trigger has_bit(a | b, s)] has_bit(a | b, s) <==> (has_bit(a, s) || has_bit(b, s)) by {
        if 0 <= s < 64 {
            let u = s as u64;
            assert(((a | b) >> u) & 1 == 1 <==> ((a >> u) & 1 == 1 || (b >> u) & 1 == 1)) by (bit_vector);
        }
    }
}

/// A bit of `a & b` is set exactly when it is set in both.
pub proof fn lemma_and_bits(a: u64, b: u64)
    ensures
        forall|s: int| #![trigger has_bit(a & b, s)] has_bit(a & b, s) <==> (has_bit(a, s) && has_bit(b, s)),
{
    assert forall|s: int| #![trigger has_bit(a & b, s)] has_bit(a & b, s) <==> (has_bit(a, s) && has_bit(b, s)) by {
        if 0 <= s < 64 {
            let u = s as u64;
            assert(((a & b) >> u) & 1 == 1 <==> ((a >> u) & 1 == 1 && (b >> u) & 1 == 1)) by (bit_vector);
        }
    }
}

/// A bit of `!a` is set exactly when it is clear in `a`.
pub proof fn lemma_not_bits(a: u64)
    ensures
        forall|s: int| #![trigger has_bit(!a, s)] has_bit(!a, s) <==> (0 <= s < 64 && !has_bit(a, s)),
{
    assert forall|s: int| #![trigger has_bit(!a, s)] has_bit(!a, s) <==> (0 <= s < 64 && !has_bit(a, s)) by {
        if 0 <= s < 64 {
            let u = s as u64;
            assert(((!a) >> u) & 1 == 1 <==> !((a >> u) & 1 == 1)) by (bit_vector) requires u < 64;
        }
    }
}

/// The single-square bitboard `1 << sq` has exactly bit `sq` set.
pub proof fn lemma_single_bit(sq: u64)
    requires
        sq < 64,
    ensures
        forall|s: int| #![trigger has_bit(1u64 << sq, s)] has_bit(1u64 << sq, s) <==> s == sq,
{
    assert forall|s: int| #![trigger has_bit(1u64 << sq, s)] has_bit(1u64 << sq, s) <==> s == sq by {
        if 0 <= s < 64 {
            let u = s as u64;
            assert(((1u64 << sq) >> u) & 1 == 1 <==> u == sq) by (bit_vector) requires sq < 64, u < 64;
        }
    }
}

/// Two bitboards with the same bits are equal.
pub proof fn lemma_bits_ext(a: u64, b: u64)
    requires
        forall|s: int| 0 <= s < 64 ==> has_bit(a, s) == has_bit(b, s),
    ensures
        a == b,
{
    assert forall|u: u64| u < 64 implies (a >> u) & 1 == (b >> u) & 1 by {
        assert(has_bit(a, u as int) == has_bit(b, u as int));
        assert(((a >> u) & 1 == 1 || (a >> u) & 1 == 0) && ((b >> u) & 1 == 1 || (b >> u) & 1 == 0)) by (bit_vector);
    }
    assert(a == b) by (bit_vector)
        requires
            (a >> 0u64) & 1 == (b >> 0u64) & 1,
            (a >> 1u64) & 1 == (b >> 1u64) & 1,
            (a >> 2u64) & 1 == (b >> 2u64) & 1,
            (a >> 3u64) & 1 == (b >> 3u64) & 1,
            (a >> 4u64) & 1 == (b >> 4u64) & 1,
            (a >> 5u64) & 1 == (b >> 5u64) & 1,
            (a >> 6u64) & 1 == (b >> 6u64) & 1,
            (a >> 7u64) & 1 == (b >> 7u64) & 1,
            (a >> 8u64) & 1 == (b >> 8u64) & 1,
            (a >> 9u64) & 1 == (b >> 9u64) & 1,
            (a >> 10u64) & 1 == (b >> 10u64) & 1,
            (a >> 11u64) & 1 == (b >> 11u64) & 1,
            (a >> 12u64) & 1 == (b >> 12u64) & 1,
            (a >> 13u64) & 1 == (b >> 13u64) & 1,
            (a >> 14u64) & 1 == (b >> 14u64) & 1,
            (a >> 15u64) & 1 == (b >> 15u64) & 1,
            (a >> 16u64) & 1 == (b >> 16u64) & 1,
            (a >> 17u64) & 1 == (b >> 17u64) & 1,
            (a >> 18u64) & 1 == (b >> 18u64) & 1,
            (a >> 19u64) & 1 == (b >> 19u64) & 1,
            (a >> 20u64) & 1 == (b >> 20u64) & 1,
            (a >> 21u64) & 1 == (b >> 21u64) & 1,
            (a >> 22u64) & 1 == (b >> 22u64) & 1,
            (a >> 23u64) & 1 == (b >> 23u64) & 1,
            (a >> 24u64) & 1 == (b >> 24u64) & 1,
            (a >> 25u64) & 1 == (b >> 25u64) & 1,
            (a >> 26u64) & 1 == (b >> 26u64) & 1,
            (a >> 27u64) & 1 == (b >> 27u64) & 1,
            (a >> 28u64) & 1 == (b >> 28u64) & 1,
            (a >> 29u64) & 1 == (b >> 29u64) & 1,
            (a >> 30u64) & 1 == (b >> 30u64) & 1,
            (a >> 31u64) & 1 == (b >> 31u64) & 1,
            (a >> 32u64) & 1 == (b >> 32u64) & 1,
            (a >> 33u64) & 1 == (b >> 33u64) & 1,
            (a >> 34u64) & 1 == (b >> 34u64) & 1,
            (a >> 35u64) & 1 == (b >> 35u64) & 1,
            (a >> 36u64) & 1 == (b >> 36u64) & 1,
            (a >> 37u64) & 1 == (b >> 37u64) & 1,
            (a >> 38u64) & 1 == (b >> 38u64) & 1,
            (a >> 39u64) & 1 == (b >> 39u64) & 1,
            (a >> 40u64) & 1 == (b >> 40u64) & 1,
            (a >> 41u64) & 1 == (b >> 41u64) & 1,
            (a >> 42u64) & 1 == (b >> 42u64) & 1,
            (a >> 43u64) & 1 == (b >> 43u64) & 1,
            (a >> 44u64) & 1 == (b >> 44u64) & 1,
            (a >> 45u64) & 1 == (b >> 45u64) & 1,
            (a >> 46u64) & 1 == (b >> 46u64) & 1,
            (a >> 47u64) & 1 == (b >> 47u64) & 1,
            (a >> 48u64) & 1 == (b >> 48u64) & 1,
            (a >> 49u64) & 1 == (b >> 49u64) & 1,
            (a >> 50u64) & 1 == (b >> 50u64) & 1,
            (a >> 51u64) & 1 == (b >> 51u64) & 1,
            (a >> 52u64) & 1 == (b >> 52u64) & 1,
            (a >> 53u64) & 1 == (b >> 53u64) & 1,
            (a >> 54u64) & 1 == (b >> 54u64) & 1,
            (a >> 55u64) & 1 == (b >> 55u64) & 1,
            (a >> 56u64) & 1 == (b >> 56u64) & 1,
            (a >> 57u64) & 1 == (b >> 57u64) & 1,
            (a >> 58u64) & 1 == (b >> 58u64) & 1,
            (a >> 59u64) & 1 == (b >> 59u64) & 1,
            (a >> 60u64) & 1 == (b >> 60u64) & 1,
            (a >> 61u64) & 1 == (b >> 61u64) & 1,
            (a >> 62u64) & 1 == (b >> 62u64) & 1,
            (a >> 63u64) & 1 == (b >> 63u64) & 1;
}


/// Kogge-Stone north fill: fills all squares north of each set bit (and the bit itself).
pub fn north_fill(bb: u64) -> (r: u64)
    ensures
        forall|s: int| #![trigger has_bit(r, s)]
            has_bit(r, s) <==> (0 <= s < 64 && exists|k: int| 0 <= k <= 7 && #[trigger] has_bit(bb, s - 8 * k)),
{
    let mut x = bb;
    let x1 = x | (x << 8);
    let x2 = x1 | (x1 << 16);
    let x3 = x2 | (x2 << 32);
    x = x3;
    proof {
        let b = bb;
        assert forall|s: int| #![trigger has_bit(x3, s)]
            has_bit(x3, s) <==> (0 <= s < 64 && exists|k: int| 0 <= k <= 7 && #[trigger] has_bit(b, s - 8 * k)) by {
            if 0 <= s < 64 {
                let u = s as u64;
                assert((x3 >> u) & 1 == 1 <==> (
                        (b >> u) & 1 == 1
                        || (u >= 8 && (b >> ((u - 8) as u64)) & 1 == 1)
                        || (u >= 16 && (b >> ((u - 16) as u64)) & 1 == 1)
                        || (u >= 24 && (b >> ((u - 24) as u64)) & 1 == 1)
                        || (u >= 32 && (b >> ((u - 32) as u64)) & 1 == 1)
                        || (u >= 40 && (b >> ((u - 40) as u64)) & 1 == 1)
                        || (u >= 48 && (b >> ((u - 48) as u64)) & 1 == 1)
                        || (u >= 56 && (b >> ((u - 56) as u64)) & 1 == 1)))
                    by (bit_vector) requires
                        u < 64,
                        x1 == b | (b << 8u64),
                        x2 == x1 | (x1 << 16u64),
                        x3 == x2 | (x2 << 32u64);
                lemma_step_casts(s);
                if has_bit(x3, s) {
                    if has_bit(b, s - 0) { assert(0 <= 0 <= 7 && has_bit(b, s - 8 * 0)); }
                    else if has_bit(b, s - 8) { assert(0 <= 1 <= 7 && has_bit(b, s - 8 * 1)); }
                    else if has_bit(b, s - 16) { assert(0 <= 2 <= 7 && has_bit(b, s - 8 * 2)); }
                    else if has_bit(b, s - 24) { assert(0 <= 3 <= 7 && has_bit(b, s - 8 * 3)); }
                    else if has_bit(b, s - 32) { assert(0 <= 4 <= 7 && has_bit(b, s - 8 * 4)); }
                    else if has_bit(b, s - 40) { assert(0 <= 5 <= 7 && has_bit(b, s - 8 * 5)); }
                    else if has_bit(b, s - 48) { assert(0 <= 6 <= 7 && has_bit(b, s - 8 * 6)); }
                    else if has_bit(b, s - 56) { assert(0 <= 7 <= 7 && has_bit(b, s - 8 * 7)); }
                }
            }
        }
    }
    x
}

/// Kogge-Stone south fill: fills all squares south of each set bit (and the bit itself).
pub fn south_fill(bb: u64) -> (r: u64)
    ensures
        forall|s: int| #![trigger has_bit(r, s)]
            has_bit(r, s) <==> (0 <= s < 64 && exists|k: int| 0 <= k <= 7 && #[trigger] has_bit(bb, s + 8 * k)),
{
    let mut x = bb;
    let x1 = x | (x >> 8);
    let x2 = x1 | (x1 >> 16);
    let x3 = x2 | (x2 >> 32);
    x = x3;
    proof {
        let b = bb;
        assert forall|s: int| #![trigger has_bit(x3, s)]
            has_bit(x3, s) <==> (0 <= s < 64 && exists|k: int| 0 <= k <= 7 && #[trigger] has_bit(b, s + 8 * k)) by {
            if 0 <= s < 64 {
                let u = s as u64;
                assert((x3 >> u) & 1 == 1 <==> (
                        (b >> u) & 1 == 1
                        || (u < 56 && (b >> ((u + 8) as u64)) & 1 == 1)
                        || (u < 48 && (b >> ((u + 16) as u64)) & 1 == 1)
                        || (u < 40 && (b >> ((u + 24) as u64)) & 1 == 1)
                        || (u < 32 && (b >> ((u + 32) as u64)) & 1 == 1)
                        || (u < 24 && (b >> ((u + 40) as u64)) & 1 == 1)
                        || (u < 16 && (b >> ((u + 48) as u64)) & 1 == 1)
                        || (u < 8 && (b >> ((u + 56) as u64)) & 1 == 1)))
                    by (bit_vector) requires
                        u < 64,
                        x1 == b | (b >> 8u64),
                        x2 == x1 | (x1 >> 16u64),
                        x3 == x2 | (x2 >> 32u64);
                lemma_step_casts(s);
                if has_bit(x3, s) {
                    if has_bit(b, s + 0) { assert(0 <= 0 <= 7 && has_bit(b, s + 8 * 0)); }
                    else if has_bit(b, s + 8) { assert(0 <= 1 <= 7 && has_bit(b, s + 8 * 1)); }
                    else if has_bit(b, s + 16) { assert(0 <= 2 <= 7 && has_bit(b, s + 8 * 2)); }
                    else if has_bit(b, s + 24) { assert(0 <= 3 <= 7 && has_bit(b, s + 8 * 3)); }
                    else if has_bit(b, s + 32) { assert(0 <= 4 <= 7 && has_bit(b, s + 8 * 4)); }
                    else if has_bit(b, s + 40) { assert(0 <= 5 <= 7 && has_bit(b, s + 8 * 5)); }
                    else if has_bit(b, s + 48) { assert(0 <= 6 <= 7 && has_bit(b, s + 8 * 6)); }
                    else if has_bit(b, s + 56) { assert(0 <= 7 <= 7 && has_bit(b, s + 8 * 7)); }
                }
            }
        }
    }
    x
}

/// Iterator-like cursor over the set bits of a bitboard, lowest first.
pub struct BitIter(pub u64);

impl BitIter {
    /// Returns and removes the lowest set bit, or `None` when no bit is left.
    pub fn next(&mut self) -> (r: Option<u32>)
        ensures
            old(self).0 == 0 ==> r is None && final(self).0 == 0,
            old(self).0 != 0 ==> r == Some(u64_trailing_zeros(old(self).0)) && final(self).0 == old(self).0 & ((old(self).0 - 1) as u64),
    {
        if self.0 == 0 {
            None
        } else {
            let sq = pop_lsb(&mut self.0);
            Some(sq)
        }
    }
}


/// The bitboard whose set bits are exactly the squares satisfying `p`.
pub open spec fn bits_where(p: spec_fn(int) -> bool) -> u64 {
    choose|a: u64| #[trigger] bits_are(a, p)
}

/// The set bits of `a` are exactly the squares satisfying `p`.
pub open spec fn bits_are(a: u64, p: spec_fn(int) -> bool) -> bool {
    forall|t: int| 0 <= t < 64 ==> #[trigger] has_bit(a, t) == p(t)
}

/// A bitboard whose bits are the squares satisfying `p` is `bits_where(p)`.
pub proof fn lemma_bits_where(a: u64, p: spec_fn(int) -> bool)
    requires
        forall|t: int| 0 <= t < 64 ==> #[trigger] has_bit(a, t) == p(t),
    ensures
        a == bits_where(p),
{
    assert(bits_are(a, p));
    let b = bits_where(p);
    assert(bits_are(b, p));
    lemma_bits_ext(a, b);
}

/// The bitboard without its lowest set bit.
pub open spec fn rest(b: u64) -> u64 {
    b & ((b - 1) as u64)
}

/// The index of the lowest set bit.
pub open spec fn low(b: u64) -> int {
    u64_trailing_zeros(b) as int
}

/// Dropping the lowest set bit makes a non-empty bitboard smaller.
pub proof fn lemma_rest_smaller(b: u64)
    requires
        b != 0,
    ensures
        rest(b) < b,
{
    assert(b != 0 ==> b & ((b - 1) as u64) < b) by (bit_vector);
}

/// The lowest set bit of a non-empty bitboard is one of its squares, and dropping it
/// leaves exactly the other squares.
pub proof fn lemma_low_rest(b: u64)
    requires
        b != 0,
    ensures
        0 <= low(b) < 64,
        has_bit(b, low(b)),
        forall|s: int| #![trigger has_bit(rest(b), s)] has_bit(rest(b), s) <==> (has_bit(b, s) && s != low(b)),
        forall|s: int| 0 <= s < low(b) ==> !has_bit(b, s),
{
    axiom_u64_trailing_zeros(b);
    let t = u64_trailing_zeros(b) as u64;
    assert forall|s: int| #![trigger has_bit(rest(b), s)] has_bit(rest(b), s) <==> (has_bit(b, s) && s != low(b)) by {
        if 0 <= s < 64 {
            let su = s as u64;
            assert(((b & ((b - 1) as u64)) >> su) & 1u64 == 1u64 <==> ((b >> su) & 1u64 == 1u64 && su != t))
                by (bit_vector)
                requires
                    b != 0,
                    t < 64,
                    su < 64,
                    (b >> t) & 1u64 == 1u64,
                    b << ((64 - t) as u64) == 0,
            ;
        }
    }
}


/// A set bit with no set bit below it is the lowest set bit.
pub proof fn lemma_low_unique(b: u64, s: int)
    requires
        has_bit(b, s),
        forall|t: int| 0 <= t < s ==> !has_bit(b, t),
    ensures
        low(b) == s,
{
    lemma_low_rest(b);
    assert(b != 0) by {
        lemma_zero_bits();
    }
    lemma_low_rest(b);
    if low(b) < s {
        assert(!has_bit(b, low(b)));
    } else if low(b) > s {
        assert(!has_bit(b, s));
    }
}

/// The empty bitboard has no square.
pub proof fn lemma_zero_bits()
    ensures
        forall|t: int| #![trigger has_bit(0u64, t)] !has_bit(0u64, t),
{
    assert forall|u: u64| (0u64 >> u) & 1 == 0 by {
        assert((0u64 >> u) & 1 == 0) by (bit_vector);
    }
}

/// Masking with a single-square bitboard tests that square.
pub proof fn lemma_square_test(b: u64, s: int)
    requires
        0 <= s < 64,
    ensures
        (b & (1u64 << (s as u64)) != 0) <==> has_bit(b, s),
{
    let u = s as u64;
    assert((b & (1u64 << u) != 0) <==> ((b >> u) & 1 == 1)) by (bit_vector) requires u < 64;
}

/// A bitboard has at most 64 squares.
pub proof fn lemma_popcount_le_64(x: u64)
    ensures
        popcount_spec(x) <= 64,
{
    vstd::arithmetic::power2::lemma2_to64();
    lemma_popcount_below(x, 64);
}

proof fn lemma_popcount_below(x: u64, n: nat)
    requires
        n <= 64,
        x as int <= vstd::arithmetic::power2::pow2(n) - 1,
    ensures
        popcount_spec(x) <= n,
    decreases n,
{
    if x != 0 {
        if n == 0 {
            vstd::arithmetic::power2::lemma2_to64();
        } else {
            vstd::arithmetic::power2::lemma_pow2_unfold(n);
            assert((x / 2) as int <= vstd::arithmetic::power2::pow2((n - 1) as nat) - 1);
            lemma_popcount_below(x / 2, (n - 1) as nat);
        }
    }
}

/// Dropping the lowest set bit removes one square from the count.
pub proof fn lemma_popcount_rest(b: u64)
    requires
        b != 0,
    ensures
        popcount_spec(rest(b)) + 1 == popcount_spec(b),
    decreases b,
{
    assert((b % 2 == 1 ==> b & ((b - 1) as u64) == (b - 1) as u64 && ((b - 1) as u64) / 2 == b / 2
            && ((b - 1) as u64) % 2 == 0)
        && (b != 0 && b % 2 == 0 ==> (b & ((b - 1) as u64)) % 2 == 0 && b / 2 != 0
            && (b & ((b - 1) as u64)) / 2 == (b / 2) & (((b / 2) - 1) as u64))) by (bit_vector);
    if b % 2 == 1 {
        if b - 1 != 0 {
            assert(popcount_spec((b - 1) as u64) == popcount_spec(((b - 1) as u64) / 2));
        }
    } else {
        lemma_popcount_rest(b / 2);
        let r = rest(b);
        if r != 0 {
            assert(popcount_spec(r) == popcount_spec(r / 2));
        } else {
            assert(popcount_spec(rest(b / 2)) == 0);
        }
    }
}

} // verus!
