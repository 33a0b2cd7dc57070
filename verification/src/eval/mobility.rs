//! Mobility: rewards pieces by the number of safe squares they reach, and rooks on open
//! files and on the seventh rank.
use vstd::prelude::*;
use crate::board::bitboard::{
    has_bit, low, rest, pop_lsb, popcount, popcount_spec, lemma_low_rest, lemma_rest_smaller,
    lemma_popcount_le_64, white_pawn_attacks, black_pawn_attacks, FILE_A, RANK_2, RANK_7,
    NOT_FILE_A, NOT_FILE_H,
};
use crate::board::color::Color;
use crate::board::piece::PieceType;
use crate::board::position::{Position, PositionView};
use crate::eval::{fits, total, runs_fit, square_terms, lemma_runs_fit_add, lemma_total_add, add_term};
use crate::movegen::attacks::{
    knight_att, bishop_att, rook_att, queen_att, knight_attacks_sq, bishop_attacks, rook_attacks,
    queen_attacks,
};

verus! {

/// Bonus by number of reachable squares for knights (0–8).
pub const KNIGHT_MOBILITY: [i32; 9] = [-5308478, -3670069, -1966092, -917508, 524291, 983053, 1507350, 1769500, 2162721];

/// Bonus by number of reachable squares for bishops (0–13).
pub const BISHOP_MOBILITY: [i32; 14] = [
    -3866672, -1507348, -196592, 851994, 1572902, 2752563, 3538999, 3735615, 4259903, 4784196, 5111889,
    5636177, 5767259, 6357090,
];

/// Bonus by number of reachable squares for rooks (0–14).
pub const ROOK_MOBILITY: [i32; 15] = [
    -5111868, -1114132, 1507330, 2555907, 4587523, 6488075, 6750230, 7929887, 8781864, 9109544, 10354729,
    10747952, 11010105, 11075641, 11272254,
];

/// Bonus by number of reachable squares for queens (0–27).
pub const QUEEN_MOBILITY: [i32; 28] = [
    -3145758, -1966092, -458760, 1245175, 2621460, 3604503, 3866647, 4915235, 5111846, 6291509, 6291520,
    6553665, 7929921, 8323138, 8585283, 8716355, 8912968, 9240648, 9633869, 9830479, 9896029, 11010156,
    11010156, 11206764, 11927662, 11927666, 12583026, 14352500,
];

/// Rook on a file without pawns (47, 26).
pub const ROOK_OPEN_FILE: i32 = 1703983;
/// Rook on a file without own pawns (19, 10).
pub const ROOK_SEMI_OPEN_FILE: i32 = 655379;
/// Rook on the seventh rank (11, 48).
pub const ROOK_ON_SEVENTH: i32 = 3145739;

/// The squares attacked by the pawns `pawns` of color `c`.
pub open spec fn pawn_attack_set(c: Color, pawns: u64) -> u64 {
    if c == Color::White {
        ((pawns & NOT_FILE_H) << 9u64) | ((pawns & NOT_FILE_A) << 7u64)
    } else {
        ((pawns & NOT_FILE_H) >> 7u64) | ((pawns & NOT_FILE_A) >> 9u64)
    }
}

/// The squares that count for mobility: not held by the side and not attacked by an
/// enemy pawn.
pub open spec fn mobility_squares(v: PositionView, us: Color) -> u64 {
    !v.colors[us.idx() as int] & !pawn_attack_set(us.other(), v.bb(us.other(), PieceType::Pawn))
}

/// A count capped at `cap`.
pub open spec fn capped(n: nat, cap: int) -> int {
    if n < cap { n as int } else { cap }
}

pub open spec fn knight_terms(area: u64) -> spec_fn(int) -> Seq<int> {
    |s: int| seq![KNIGHT_MOBILITY[capped(popcount_spec(knight_att(s) & area), 8)] as int]
}

pub open spec fn bishop_terms(area: u64, occ: u64) -> spec_fn(int) -> Seq<int> {
    |s: int| seq![BISHOP_MOBILITY[capped(popcount_spec(bishop_att(s, occ) & area), 13)] as int]
}

pub open spec fn queen_terms(area: u64, occ: u64) -> spec_fn(int) -> Seq<int> {
    |s: int| seq![QUEEN_MOBILITY[capped(popcount_spec(queen_att(s, occ) & area), 27)] as int]
}

/// The file term of a rook on `s`: open file, half-open file, or none.
pub open spec fn rook_file_terms(s: int, ours: u64, theirs: u64) -> Seq<int> {
    let mask = FILE_A << ((s % 8) as u64);
    if ours & mask == 0 {
        if theirs & mask == 0 { seq![ROOK_OPEN_FILE as int] } else { seq![ROOK_SEMI_OPEN_FILE as int] }
    } else {
        Seq::empty()
    }
}

pub open spec fn rook_terms(area: u64, occ: u64, ours: u64, theirs: u64, seventh: u64) -> spec_fn(int) -> Seq<int> {
    |s: int| seq![ROOK_MOBILITY[capped(popcount_spec(rook_att(s, occ) & area), 14)] as int]
        + rook_file_terms(s, ours, theirs)
        + (if (1u64 << (s as u64)) & seventh != 0 { seq![ROOK_ON_SEVENTH as int] } else { Seq::empty() })
}

/// The mobility terms of one side in the order they are added: knights, bishops, rooks,
/// queens, each lowest square first.
pub open spec fn mobility_terms(v: PositionView, us: Color) -> Seq<int> {
    let them = us.other();
    let area = mobility_squares(v, us);
    let occ = v.occupancy;
    let seventh = if us == Color::White { RANK_7 } else { RANK_2 };
    square_terms(v.bb(us, PieceType::Knight), knight_terms(area))
        + square_terms(v.bb(us, PieceType::Bishop), bishop_terms(area, occ))
        + square_terms(v.bb(us, PieceType::Rook), rook_terms(area, occ, v.bb(us, PieceType::Pawn), v.bb(them, PieceType::Pawn), seventh))
        + square_terms(v.bb(us, PieceType::Queen), queen_terms(area, occ))
}

/// The running totals of both sides' mobility, and their difference, fit in an `i32`.
pub open spec fn mobility_fits(v: PositionView) -> bool {
    &&& runs_fit(0, mobility_terms(v, Color::White))
    &&& runs_fit(0, mobility_terms(v, Color::Black))
    &&& fits(total(mobility_terms(v, Color::White)) - total(mobility_terms(v, Color::Black)))
}

/// The packed mobility score, White minus Black.
pub fn evaluate_mobility(pos: &Position) -> (s: i32)
    requires
        mobility_fits(pos@),
    ensures
        s == total(mobility_terms(pos@, Color::White)) - total(mobility_terms(pos@, Color::Black)),
{
    let mut score = 0i32;
    score = score + eval_mobility_for(pos, Color::White);
    score = score - eval_mobility_for(pos, Color::Black);
    score
}

/// Adds the one-term contributions `f(s)` of the pieces `bb`, computed by `kind`.
fn add_simple(pos: &Position, kind: PieceType, bb: u64, area: u64, occ: u64, score: i32, f: Ghost<spec_fn(int) -> Seq<int>>) -> (r: i32)
    requires
        kind == PieceType::Knight || kind == PieceType::Bishop || kind == PieceType::Queen,
        kind == PieceType::Knight ==> f@ == knight_terms(area),
        kind == PieceType::Bishop ==> f@ == bishop_terms(area, occ),
        kind == PieceType::Queen ==> f@ == queen_terms(area, occ),
        runs_fit(score as int, square_terms(bb, f@)),
    ensures
        r == score + total(square_terms(bb, f@)),
{
    let mut rem = bb;
    let mut acc = score;
    while rem != 0
        invariant
            kind == PieceType::Knight || kind == PieceType::Bishop || kind == PieceType::Queen,
            kind == PieceType::Knight ==> f@ == knight_terms(area),
            kind == PieceType::Bishop ==> f@ == bishop_terms(area, occ),
            kind == PieceType::Queen ==> f@ == queen_terms(area, occ),
            runs_fit(acc as int, square_terms(rem, f@)),
            acc + total(square_terms(rem, f@)) == score + total(square_terms(bb, f@)),
        decreases rem,
    {
        let ghost r0 = rem;
        proof {
            lemma_low_rest(rem);
            lemma_rest_smaller(rem);
        }
        let sq = pop_lsb(&mut rem);
        let x = match kind {
            PieceType::Knight => {
                let a = knight_attacks_sq(sq) & area;
                proof { lemma_popcount_le_64(a); }
                let m = popcount(a) as usize;
                KNIGHT_MOBILITY[if m < 8 { m } else { 8 }]
            },
            PieceType::Bishop => {
                let a = bishop_attacks(sq, occ) & area;
                proof { lemma_popcount_le_64(a); }
                let m = popcount(a) as usize;
                BISHOP_MOBILITY[if m < 13 { m } else { 13 }]
            },
            _ => {
                let a = queen_attacks(sq, occ) & area;
                proof { lemma_popcount_le_64(a); }
                let m = popcount(a) as usize;
                QUEEN_MOBILITY[if m < 27 { m } else { 27 }]
            },
        };
        assert(f@(sq as int) == seq![x as int]);
        assert(square_terms(r0, f@) == seq![x as int] + square_terms(rem, f@));
        acc = add_term(acc, x, Ghost(square_terms(rem, f@)));
    }
    assert(total(Seq::<int>::empty()) == 0);
    acc
}

/// Adds the contributions of the rooks `bb`.
#[verifier::rlimit(40)]
fn add_rooks(bb: u64, area: u64, occ: u64, ours: u64, theirs: u64, seventh: u64, score: i32) -> (r: i32)
    requires
        runs_fit(score as int, square_terms(bb, rook_terms(area, occ, ours, theirs, seventh))),
    ensures
        r == score + total(square_terms(bb, rook_terms(area, occ, ours, theirs, seventh))),
{
    let ghost f = rook_terms(area, occ, ours, theirs, seventh);
    let mut rem = bb;
    let mut acc = score;
    while rem != 0
        invariant
            f == rook_terms(area, occ, ours, theirs, seventh),
            runs_fit(acc as int, square_terms(rem, f)),
            acc + total(square_terms(rem, f)) == score + total(square_terms(bb, f)),
        decreases rem,
    {
        let ghost r0 = rem;
        proof {
            lemma_low_rest(rem);
            lemma_rest_smaller(rem);
        }
        let sq = pop_lsb(&mut rem);
        let ghost later = square_terms(rem, f);
        let a = rook_attacks(sq, occ) & area;
        proof { lemma_popcount_le_64(a); }
        let m = popcount(a) as usize;
        let x = ROOK_MOBILITY[if m < 14 { m } else { 14 }];
        let ghost ft = rook_file_terms(sq as int, ours, theirs);
        let ghost st = if (1u64 << (sq as u64)) & seventh != 0 { seq![ROOK_ON_SEVENTH as int] } else { Seq::<int>::empty() };
        assert(f(sq as int) == seq![x as int] + ft + st);
        assert(square_terms(r0, f) =~= seq![x as int] + (ft + (st + later)));
        acc = add_term(acc, x, Ghost(ft + (st + later)));
        let file_mask = FILE_A << (sq % 8);
        if ours & file_mask == 0 {
            if theirs & file_mask == 0 {
                assert(ft + (st + later) =~= seq![ROOK_OPEN_FILE as int] + (st + later));
                acc = add_term(acc, ROOK_OPEN_FILE, Ghost(st + later));
            } else {
                assert(ft + (st + later) =~= seq![ROOK_SEMI_OPEN_FILE as int] + (st + later));
                acc = add_term(acc, ROOK_SEMI_OPEN_FILE, Ghost(st + later));
            }
        } else {
            assert(ft + (st + later) =~= st + later);
        }
        if (1u64 << sq) & seventh != 0 {
            assert(st + later =~= seq![ROOK_ON_SEVENTH as int] + later);
            acc = add_term(acc, ROOK_ON_SEVENTH, Ghost(later));
        } else {
            assert(st + later =~= later);
        }
    }
    assert(total(Seq::<int>::empty()) == 0);
    acc
}

/// The packed mobility score of one side.
fn eval_mobility_for(pos: &Position, us: Color) -> (s: i32)
    requires
        runs_fit(0, mobility_terms(pos@, us)),
    ensures
        s == total(mobility_terms(pos@, us)),
{
    let them = us.flip();
    let occ = pos.occupancy;
    let our = pos.color_bb(us);
    let their_pawns = pos.bb(them, PieceType::Pawn);
    let pawn_attacks_them = match them {
        Color::White => white_pawn_attacks(their_pawns),
        Color::Black => black_pawn_attacks(their_pawns),
    };
    let mobility_area = !our & !pawn_attacks_them;
    let ghost v = pos@;
    let our_pawns = pos.bb(us, PieceType::Pawn);
    let their_pawns_bb = pos.bb(them, PieceType::Pawn);
    let seventh_rank = if us == Color::White { RANK_7 } else { RANK_2 };
    let ghost a = square_terms(v.bb(us, PieceType::Knight), knight_terms(mobility_area));
    let ghost b = square_terms(v.bb(us, PieceType::Bishop), bishop_terms(mobility_area, occ));
    let ghost c = square_terms(v.bb(us, PieceType::Rook), rook_terms(mobility_area, occ, our_pawns, their_pawns_bb, seventh_rank));
    let ghost d = square_terms(v.bb(us, PieceType::Queen), queen_terms(mobility_area, occ));
    assert(mobility_area == mobility_squares(v, us));
    assert(mobility_terms(v, us) == a + b + c + d);
    proof {
        lemma_runs_fit_add(0, a + b + c, d);
        lemma_runs_fit_add(0, a + b, c);
        lemma_runs_fit_add(0, a, b);
        lemma_total_add(a + b + c, d);
        lemma_total_add(a + b, c);
        lemma_total_add(a, b);
    }
    let mut score = 0i32;
    score = add_simple(pos, PieceType::Knight, pos.bb(us, PieceType::Knight), mobility_area, occ, score,
        Ghost(knight_terms(mobility_area)));
    score = add_simple(pos, PieceType::Bishop, pos.bb(us, PieceType::Bishop), mobility_area, occ, score,
        Ghost(bishop_terms(mobility_area, occ)));
    score = add_rooks(pos.bb(us, PieceType::Rook), mobility_area, occ, our_pawns, their_pawns_bb, seventh_rank, score);
    score = add_simple(pos, PieceType::Queen, pos.bb(us, PieceType::Queen), mobility_area, occ, score,
        Ghost(queen_terms(mobility_area, occ)));
    score
}

} // verus!
