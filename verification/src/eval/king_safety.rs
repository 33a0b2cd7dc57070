//! King safety: pieces attacking the king zone, the pawn shelter, and open files and
//! pawn storms near the king.
use vstd::prelude::*;
use crate::board::bitboard::{
    has_bit, low, rest, lsb, msb, pop_lsb, popcount_spec, lemma_low_rest, lemma_rest_smaller,
    lemma_popcount_rest, lemma_popcount_le_64, FILE_A,
};
use crate::board::color::Color;
use crate::board::piece::PieceType;
use crate::board::position::{Position, PositionView};
use crate::eval::{fits, score_of, make_score};
use crate::movegen::attacks::{king_att, king_attacks_sq};
use crate::movegen::legal::king_square;
use crate::movegen::pseudo_legal::{piece_att, piece_attacks};

verus! {

/// How dangerous each attacker type is near the king: pawn, knight, bishop, rook, queen, king.
pub const ATTACK_WEIGHT: [i32; 6] = [0, 20, 20, 40, 80, 0];

/// Percentage of the attack weight by number of attackers.
pub const ATTACK_COUNT_BONUS: [i32; 8] = [0, 0, 50, 75, 88, 94, 97, 99];

/// Shelter bonus by rank distance of the closest shelter pawn (26, 18, 10, 0 in the
/// middlegame).
pub const SHELTER_BONUS: [i32; 4] = [26, 18, 10, 0];

/// No own pawn on a file next to the king (-15, 0).
pub const NO_SHELTER_PENALTY: i32 = -15;
/// No pawn at all on a file next to the king (-20, -10).
pub const OPEN_FILE_PENALTY: i32 = -655380;
/// No own pawn on a file next to the king (-10, -5).
pub const SEMI_OPEN_PENALTY: i32 = -327690;
/// An enemy pawn within two ranks of the king on a file next to it (-15, 0).
pub const STORM_PENALTY: i32 = -15;

/// The index of the highest set bit.
pub open spec fn high(b: u64) -> int {
    63 - vstd::std_specs::bits::u64_leading_zeros(b)
}

pub open spec fn abs_diff(a: int, b: int) -> int {
    if a >= b { a - b } else { b - a }
}

/// The king zone: the king's square and its neighbours.
pub open spec fn king_zone_of(k: int) -> u64 {
    king_att(k) | (1u64 << (k as u64))
}

/// The number of pieces in `bb` of type `pt` whose attacks reach `zone`.
pub open spec fn zone_hits(bb: u64, pt: PieceType, occ: u64, zone: u64) -> nat
    decreases bb,
    via zone_hits_decreases
{
    if bb == 0 {
        0
    } else {
        (if piece_att(pt, low(bb), occ) & zone != 0 { 1nat } else { 0nat }) + zone_hits(rest(bb), pt, occ, zone)
    }
}

#[via_fn]
proof fn zone_hits_decreases(bb: u64, pt: PieceType, occ: u64, zone: u64) {
    if bb != 0 {
        lemma_rest_smaller(bb);
    }
}

proof fn lemma_zone_hits_bound(bb: u64, pt: PieceType, occ: u64, zone: u64)
    ensures
        zone_hits(bb, pt, occ, zone) <= popcount_spec(bb),
    decreases bb,
{
    if bb != 0 {
        lemma_rest_smaller(bb);
        lemma_popcount_rest(bb);
        lemma_zone_hits_bound(rest(bb), pt, occ, zone);
    }
}

/// The enemy attackers of the zone of the king of `us` on `k`: their number and their
/// total weight.
pub open spec fn zone_attackers(v: PositionView, us: Color, k: int) -> (int, int) {
    let them = us.other();
    let z = king_zone_of(k);
    let occ = v.occupancy;
    let n = zone_hits(v.bb(them, PieceType::Knight), PieceType::Knight, occ, z);
    let b = zone_hits(v.bb(them, PieceType::Bishop), PieceType::Bishop, occ, z);
    let r = zone_hits(v.bb(them, PieceType::Rook), PieceType::Rook, occ, z);
    let q = zone_hits(v.bb(them, PieceType::Queen), PieceType::Queen, occ, z);
    ((n + b + r + q) as int, (n * 20 + b * 20 + r * 40 + q * 80) as int)
}

/// The attack score: the attackers' weight scaled by their number.
pub open spec fn attack_score(v: PositionView, us: Color, k: int) -> int {
    let (count, value) = zone_attackers(v, us, k);
    value * ATTACK_COUNT_BONUS[if count < 7 { count } else { 7 }] / 100
}

/// The shelter of file `f` next to the king on `k`: a penalty if the king's side has no
/// pawn on it, else a bonus by the rank distance from the king to its pawn nearest in
/// front of it (for White the lowest pawn above the king's rank, else the highest; for
/// Black the highest pawn below the king's rank, else the lowest).
pub open spec fn shelter_term(v: PositionView, us: Color, k: int, f: int) -> int {
    if f < 0 || f > 7 {
        0
    } else {
        let pof = v.bb(us, PieceType::Pawn) & (FILE_A << (f as u64));
        if pof == 0 {
            NO_SHELTER_PENALTY as int
        } else {
            let kr = k / 8;
            let closest = if us == Color::White {
                let above = pof >> (((kr + 1) * 8) as u64);
                if above != 0 { low(above) + (kr + 1) * 8 } else { high(pof) }
            } else {
                let below = pof & (((1u64 << ((kr * 8) as u64)) - 1) as u64);
                if below != 0 { high(below) } else { low(pof) }
            };
            let d = abs_diff(kr, closest / 8);
            SHELTER_BONUS[if d < 3 { d } else { 3 }] as int
        }
    }
}

/// The files next to a White king on the eighth rank hold no White pawn (reading the
/// shelter shifts past the board otherwise).
pub open spec fn shelter_ok(v: PositionView, us: Color, k: int) -> bool {
    us == Color::White && k / 8 == 7 ==> forall|f: int| k % 8 - 1 <= f <= k % 8 + 1 && 0 <= f <= 7
        ==> #[trigger] (v.bb(us, PieceType::Pawn) & (FILE_A << (f as u64))) == 0
}

/// The open-file and pawn-storm terms of file `f` next to the king on `k`.
pub open spec fn open_file_term(v: PositionView, us: Color, k: int, f: int) -> int {
    if f < 0 || f > 7 {
        0
    } else {
        let mask = FILE_A << (f as u64);
        let ours = v.bb(us, PieceType::Pawn) & mask;
        let theirs = v.bb(us.other(), PieceType::Pawn) & mask;
        (if ours == 0 && theirs == 0 {
            OPEN_FILE_PENALTY as int
        } else if ours == 0 {
            SEMI_OPEN_PENALTY as int
        } else {
            0
        }) + (if theirs != 0 {
            let p = if us == Color::White { low(theirs) } else { high(theirs) };
            if abs_diff(k / 8, p / 8) <= 2 { STORM_PENALTY as int } else { 0 }
        } else {
            0
        })
    }
}

/// The king safety of one side: shelter and open files, less the packed attack score.
pub open spec fn king_side_score(v: PositionView, us: Color) -> int {
    let k = king_square(v, us);
    let kf = k % 8;
    let a = attack_score(v, us, k);
    shelter_term(v, us, k, kf - 1) + shelter_term(v, us, k, kf) + shelter_term(v, us, k, kf + 1)
        + (open_file_term(v, us, k, kf - 1) + open_file_term(v, us, k, kf) + open_file_term(v, us, k, kf + 1))
        - score_of(a, a / 4)
}

/// Counts the pieces of `bb` of type `pt` attacking `zone`, adding their weight.
fn count_zone_attackers(bb: u64, pt: PieceType, occ: u64, zone: u64, count: i32, value: i32) -> (r: (i32, i32))
    requires
        pt != PieceType::Pawn,
        0 <= count <= 192,
        0 <= value <= 192 * 80,
    ensures
        r.0 == count + zone_hits(bb, pt, occ, zone),
        r.1 == value + ATTACK_WEIGHT[pt.idx() as int] * zone_hits(bb, pt, occ, zone),
        count <= r.0 <= count + 64,
        value <= r.1 <= value + 80 * 64,
{
    proof {
        lemma_zone_hits_bound(bb, pt, occ, zone);
        lemma_popcount_le_64(bb);
    }
    let w = ATTACK_WEIGHT[pt.index()];
    let mut rem = bb;
    let mut c = count;
    let mut val = value;
    let ghost mut k: int = 0;
    while rem != 0
        invariant
            pt != PieceType::Pawn,
            w == ATTACK_WEIGHT[pt.idx() as int],
            0 <= w <= 80,
            0 <= count <= 192,
            0 <= value <= 192 * 80,
            k + zone_hits(rem, pt, occ, zone) == zone_hits(bb, pt, occ, zone),
            zone_hits(bb, pt, occ, zone) <= 64,
            0 <= k,
            c == count + k,
            val == value + w * k,
        decreases rem,
    {
        let ghost r0 = rem;
        proof {
            lemma_low_rest(rem);
            lemma_rest_smaller(rem);
        }
        let sq = pop_lsb(&mut rem);
        assert(rem == rest(r0) && sq == low(r0));
        assert(zone_hits(r0, pt, occ, zone) == (if piece_att(pt, low(r0), occ) & zone != 0 { 1nat } else { 0nat })
            + zone_hits(rem, pt, occ, zone));
        let attacks = piece_attacks(pt, sq, occ);
        if attacks & zone != 0 {
            assert(w * (k + 1) == w * k + w) by (nonlinear_arith);
            assert(w * k <= w * 63) by (nonlinear_arith)
                requires 0 <= w, k <= 63;
            c = c + 1;
            val = val + w;
            proof {
                k = k + 1;
            }
        }
    }
    assert(w * k <= 80 * 64) by (nonlinear_arith)
        requires 0 <= w <= 80, 0 <= k <= 64;
    assert(w * k >= 0) by (nonlinear_arith)
        requires 0 <= w, 0 <= k;
    (c, val)
}

/// The shelter term of file `f` next to the king on `king_sq`.
fn shelter_file(pos: &Position, us: Color, king_sq: u32, f: i32) -> (t: i32)
    requires
        king_sq < 64,
        king_sq % 8 - 1 <= f <= king_sq % 8 + 1,
        shelter_ok(pos@, us, king_sq as int),
    ensures
        t == shelter_term(pos@, us, king_sq as int, f as int),
        -15 <= t <= 26,
{
    if f < 0 || f > 7 {
        return 0;
    }
    let king_rank = king_sq / 8;
    let file_mask = FILE_A << f;
    let pawns_on_file = pos.bb(us, PieceType::Pawn) & file_mask;
    if pawns_on_file == 0 {
        return NO_SHELTER_PENALTY;
    }
    let closest = if us == Color::White {
        assert(king_rank < 7) by {
            if king_rank == 7 {
                assert(pos@.bb(us, PieceType::Pawn) & (FILE_A << (f as u64)) == 0);
            }
        }
        let above = pawns_on_file >> ((king_rank + 1) * 8);
        if above != 0 { lsb(above) + (king_rank + 1) * 8 } else { msb(pawns_on_file) }
    } else {
        proof {
            crate::board::bitboard::lemma_single_bit((king_rank * 8) as u64);
            crate::board::position::lemma_bit_nonzero(1u64 << ((king_rank * 8) as u64), (king_rank * 8) as int);
        }
        let below = pawns_on_file & ((1u64 << (king_rank * 8)) - 1);
        if below != 0 { msb(below) } else { lsb(pawns_on_file) }
    };
    let pawn_rank = closest / 8;
    let d: u32 = if king_rank >= pawn_rank { king_rank - pawn_rank } else { pawn_rank - king_rank };
    SHELTER_BONUS[if d < 3 { d as usize } else { 3 }]
}

/// The pawn shelter of the king on `king_sq`: three files around it.
fn evaluate_shelter(pos: &Position, us: Color, king_sq: u32) -> (s: i32)
    requires
        king_sq < 64,
        shelter_ok(pos@, us, king_sq as int),
    ensures
        s == shelter_term(pos@, us, king_sq as int, king_sq % 8 - 1) + shelter_term(pos@, us, king_sq as int, king_sq as int % 8)
            + shelter_term(pos@, us, king_sq as int, king_sq % 8 + 1),
        -45 <= s <= 78,
{
    let kf = (king_sq % 8) as i32;
    let a = shelter_file(pos, us, king_sq, kf - 1);
    let b = shelter_file(pos, us, king_sq, kf);
    let c = shelter_file(pos, us, king_sq, kf + 1);
    a + b + c
}

/// The open-file and pawn-storm term of file `f` next to the king on `king_sq`.
fn open_file(pos: &Position, us: Color, king_sq: u32, f: i32) -> (t: i32)
    requires
        king_sq < 64,
    ensures
        t == open_file_term(pos@, us, king_sq as int, f as int),
        -655395 <= t <= 0,
{
    if f < 0 || f > 7 {
        return 0;
    }
    let file_mask = FILE_A << f;
    let our_on_file = pos.bb(us, PieceType::Pawn) & file_mask;
    let their_on_file = pos.bb(us.flip(), PieceType::Pawn) & file_mask;
    let mut score = 0i32;
    if our_on_file == 0 && their_on_file == 0 {
        score = score + OPEN_FILE_PENALTY;
    } else if our_on_file == 0 {
        score = score + SEMI_OPEN_PENALTY;
    }
    if their_on_file != 0 {
        let pawn_sq = if us == Color::White { lsb(their_on_file) } else { msb(their_on_file) };
        let pawn_rank = pawn_sq / 8;
        let king_rank = king_sq / 8;
        let dist: u32 = if king_rank >= pawn_rank { king_rank - pawn_rank } else { pawn_rank - king_rank };
        if dist <= 2 {
            score = score + STORM_PENALTY;
        }
    }
    score
}

/// Open files and pawn storms on the three files around the king.
fn evaluate_open_files_near_king(pos: &Position, us: Color, king_sq: u32) -> (s: i32)
    requires
        king_sq < 64,
    ensures
        s == open_file_term(pos@, us, king_sq as int, king_sq % 8 - 1) + open_file_term(pos@, us, king_sq as int, king_sq as int % 8)
            + open_file_term(pos@, us, king_sq as int, king_sq % 8 + 1),
        -1966185 <= s <= 0,
{
    let kf = (king_sq % 8) as i32;
    let a = open_file(pos, us, king_sq, kf - 1);
    let b = open_file(pos, us, king_sq, kf);
    let c = open_file(pos, us, king_sq, kf + 1);
    a + b + c
}

/// The attack score against the king of `us` on `king_sq`.
fn king_attack_score(pos: &Position, us: Color, king_sq: u32) -> (a: i32)
    requires
        king_sq < 64,
    ensures
        a == attack_score(pos@, us, king_sq as int),
        0 <= a <= 20275,
{
    let them = us.flip();
    let occ = pos.occupancy;
    let king_zone = king_attacks_sq(king_sq) | (1u64 << king_sq);
    assert(king_zone == king_zone_of(king_sq as int));
    let (c1, v1) = count_zone_attackers(pos.bb(them, PieceType::Knight), PieceType::Knight, occ, king_zone, 0, 0);
    let (c2, v2) = count_zone_attackers(pos.bb(them, PieceType::Bishop), PieceType::Bishop, occ, king_zone, c1, v1);
    let (c3, v3) = count_zone_attackers(pos.bb(them, PieceType::Rook), PieceType::Rook, occ, king_zone, c2, v2);
    let (attacker_count, attack_value) = count_zone_attackers(pos.bb(them, PieceType::Queen), PieceType::Queen, occ, king_zone, c3, v3);
    let bonus = ATTACK_COUNT_BONUS[if attacker_count < 7 { attacker_count as usize } else { 7 }];
    assert(0 <= attack_value * bonus <= 256 * 80 * 99) by (nonlinear_arith)
        requires 0 <= attack_value <= 256 * 80, 0 <= bonus <= 99;
    let r = attack_value * bonus / 100;
    assert(ATTACK_WEIGHT[1] == 20 && ATTACK_WEIGHT[2] == 20 && ATTACK_WEIGHT[3] == 40 && ATTACK_WEIGHT[4] == 80);
    assert(attacker_count as int == zone_attackers(pos@, us, king_sq as int).0);
    let ghost z = king_zone_of(king_sq as int);
    let ghost hn = zone_hits(pos@.bb(them, PieceType::Knight), PieceType::Knight, occ, z);
    let ghost hb = zone_hits(pos@.bb(them, PieceType::Bishop), PieceType::Bishop, occ, z);
    let ghost hr = zone_hits(pos@.bb(them, PieceType::Rook), PieceType::Rook, occ, z);
    let ghost hq = zone_hits(pos@.bb(them, PieceType::Queen), PieceType::Queen, occ, z);
    assert(v1 == 20 * hn);
    assert(v2 == v1 + 20 * hb);
    assert(v3 == v2 + 40 * hr);
    assert(attack_value == v3 + 80 * hq);
    assert(attack_value as int == zone_attackers(pos@, us, king_sq as int).1);
    r
}

/// The king safety of one side.
#[verifier::rlimit(40)]
#[verifier::spinoff_prover]
fn eval_king_side(pos: &Position, us: Color, phase: i32) -> (s: i32)
    requires
        pos@.bb(us, PieceType::King) != 0,
        shelter_ok(pos@, us, king_square(pos@, us)),
    ensures
        s == king_side_score(pos@, us),
        -400000000 <= s <= 100,
{
    let king = pos.king_sq(us);
    proof {
        crate::board::bitboard::lemma_low_unique(pos@.bb(us, PieceType::King), king.idx() as int);
    }
    let king_sq = king.index_u8() as u32;
    let attack_score = king_attack_score(pos, us, king_sq);
    let shelter_score = evaluate_shelter(pos, us, king_sq);
    let open_score = evaluate_open_files_near_king(pos, us, king_sq);
    let safety = make_score(attack_score, attack_score / 4);
    shelter_score + open_score - safety
}

/// The packed king safety score, White minus Black.
pub fn evaluate_king_safety(pos: &Position, phase: i32) -> (s: i32)
    requires
        pos@.bb(Color::White, PieceType::King) != 0,
        pos@.bb(Color::Black, PieceType::King) != 0,
        shelter_ok(pos@, Color::White, king_square(pos@, Color::White)),
        shelter_ok(pos@, Color::Black, king_square(pos@, Color::Black)),
    ensures
        s == king_side_score(pos@, Color::White) - king_side_score(pos@, Color::Black),
{
    let mut score = 0i32;
    score = score + eval_king_side(pos, Color::White, phase);
    score = score - eval_king_side(pos, Color::Black, phase);
    score
}

} // verus!
