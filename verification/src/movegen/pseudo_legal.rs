//! Pseudo-legal move generation: all moves that are legal ignoring checks (the king may
//! be left in check). Legal move generation filters these.
use vstd::prelude::*;
use crate::board::bitboard::{
    has_bit, rest, low, lemma_rest_smaller, lemma_low_rest, pop_lsb, north, south, RANK_1,
    RANK_3, RANK_6, RANK_8, lemma_and_bits, lemma_not_bits, lemma_or_bits,
};
use crate::board::color::Color;
use crate::board::piece::PieceType;
use crate::board::position::{Move, MoveFlag, Position, PositionView, lemma_wf_colors, pidx};
use crate::board::square::Square;
use crate::board::zobrist::{CASTLE_WK, CASTLE_WQ, CASTLE_BK, CASTLE_BQ};
use crate::movegen::attacks::{
    knight_att, king_att, pawn_att, rook_att, bishop_att, queen_att, knight_attacks_sq,
    king_attacks_sq, pawn_attacks, rook_attacks, bishop_attacks, queen_attacks,
};

verus! {

/// A list of moves.
pub struct MoveList {
    pub moves: Vec<Move>,
    pub count: usize,
}

impl View for MoveList {
    type V = Seq<Move>;

    open spec fn view(&self) -> Seq<Move> {
        self.moves@
    }
}

impl MoveList {
    /// The count field is the number of moves.
    pub open spec fn wf(&self) -> bool {
        self.count == self.moves@.len()
    }

    pub fn new() -> (l: Self)
        ensures
            l.wf(),
            l@ == Seq::<Move>::empty(),
    {
        MoveList { moves: Vec::new(), count: 0 }
    }

    pub fn push(&mut self, mv: Move)
        requires
            old(self).wf(),
        ensures
            final(self).wf(),
            final(self)@ == old(self)@.push(mv),
    {
        self.moves.push(mv);
        self.count = self.moves.len();
    }

    pub fn as_slice(&self) -> (s: &[Move])
        ensures
            s@ == self@,
    {
        self.moves.as_slice()
    }

    pub fn is_empty(&self) -> (b: bool)
        requires
            self.wf(),
        ensures
            b <==> self@.len() == 0,
    {
        self.count == 0
    }
}

// ─── Specification of the generated sequences ─────────────────────────────────

/// The move from `from` to `to` with flag code `flag`.
pub open spec fn mv(from: int, to: int, flag: u32) -> Move {
    Move(Move::encode(from, to, flag))
}

/// The moves `f(s)` for each set bit `s` of `b`, lowest bit first, concatenated.
pub open spec fn over_bits(b: u64, f: spec_fn(int) -> Seq<Move>) -> Seq<Move>
    decreases b,
    via over_bits_decreases
{
    if b == 0 {
        Seq::empty()
    } else {
        f(low(b)) + over_bits(rest(b), f)
    }
}

#[via_fn]
proof fn over_bits_decreases(b: u64, f: spec_fn(int) -> Seq<Move>) {
    if b != 0 {
        lemma_rest_smaller(b);
    }
}

/// Builds the move from `from` to a square with flag `flag`.
pub open spec fn from_fn(from: int, flag: u32) -> spec_fn(int) -> Seq<Move> {
    |t: int| seq![mv(from, t, flag)]
}

/// Builds the move from a square to `to` with flag `flag`.
pub open spec fn to_fn(to: int, flag: u32) -> spec_fn(int) -> Seq<Move> {
    |f: int| seq![mv(f, to, flag)]
}

/// Builds the moves to a square `t` from `t - delta`: one with flag `flag`, or the
/// four promotions when `promo`.
pub open spec fn shifted_fn(delta: int, flag: u32, promo: bool) -> spec_fn(int) -> Seq<Move> {
    |t: int| if promo { promo_seq(t - delta, t) } else { seq![mv(t - delta, t, flag)] }
}

/// Builds the four promotions from `from` to a square.
pub open spec fn promo_from_fn(from: int) -> spec_fn(int) -> Seq<Move> {
    |t: int| promo_seq(from, t)
}

/// One move with flag `flag` from `from` to each square of `targets`, in square order.
pub open spec fn targets_seq(from: int, targets: u64, flag: u32) -> Seq<Move> {
    over_bits(targets, from_fn(from, flag))
}

/// The four promotions from `from` to `to`: queen, rook, bishop, knight.
pub open spec fn promo_seq(from: int, to: int) -> Seq<Move> {
    seq![mv(from, to, 8), mv(from, to, 7), mv(from, to, 6), mv(from, to, 5)]
}

/// The attack bitboard of a non-pawn piece type from `sq` with blockers `occ`.
pub open spec fn piece_att(pt: PieceType, sq: int, occ: u64) -> u64 {
    match pt {
        PieceType::Knight => knight_att(sq),
        PieceType::Bishop => bishop_att(sq, occ),
        PieceType::Rook => rook_att(sq, occ),
        PieceType::Queen => queen_att(sq, occ),
        PieceType::King => king_att(sq),
        PieceType::Pawn => 0,
    }
}

/// Builds the normal moves of a piece of type `pt` on a square to its attacked squares in `mask`.
pub open spec fn piece_fn(pt: PieceType, occ: u64, mask: u64) -> spec_fn(int) -> Seq<Move> {
    |sq: int| targets_seq(sq, piece_att(pt, sq, occ) & mask, 0)
}

/// The normal moves of the pieces in `pieces` (all of type `pt`) to the squares of
/// their attack sets that are in `mask`.
pub open spec fn piece_moves_seq(pieces: u64, pt: PieceType, occ: u64, mask: u64) -> Seq<Move> {
    over_bits(pieces, piece_fn(pt, occ, mask))
}

/// Single pawn pushes of color `us`: the squares just in front of the pawns that are empty.
pub open spec fn pawn_single(v: PositionView, us: Color) -> u64 {
    if us == Color::White {
        (v.bb(us, PieceType::Pawn) << 8u64) & !v.occupancy
    } else {
        (v.bb(us, PieceType::Pawn) >> 8u64) & !v.occupancy
    }
}

/// The promotion rank of color `us` as a bitboard.
pub open spec fn promo_rank_of(us: Color) -> u64 {
    if us == Color::White { RANK_8 } else { RANK_1 }
}

/// Pawn push moves: single pushes, double pushes, then push promotions.
pub open spec fn pawn_push_seq(v: PositionView, us: Color) -> Seq<Move> {
    let single = pawn_single(v, us);
    let push: int = if us == Color::White { 8 } else { -8 };
    let doubles = if us == Color::White {
        ((single & RANK_3) << 8u64) & !v.occupancy
    } else {
        ((single & RANK_6) >> 8u64) & !v.occupancy
    };
    over_bits(single & !promo_rank_of(us), shifted_fn(push, 0, false))
        + over_bits(doubles, shifted_fn(2 * push, 1, false))
        + over_bits(single & promo_rank_of(us), shifted_fn(push, 0, true))
}

/// Pawn push promotions: the four promotions of each single push onto the last rank.
pub open spec fn pawn_promo_push_seq(v: PositionView, us: Color) -> Seq<Move> {
    let push: int = if us == Color::White { 8 } else { -8 };
    over_bits(pawn_single(v, us) & promo_rank_of(us), shifted_fn(push, 0, true))
}

/// Builds the captures of a pawn of color `us` on a square: normal captures, then
/// capture promotions.
pub open spec fn pawn_cap_fn(us: Color, their: u64) -> spec_fn(int) -> Seq<Move> {
    |sq: int| targets_seq(sq, pawn_att(us, sq) & their & !promo_rank_of(us), 0)
        + over_bits(pawn_att(us, sq) & their & promo_rank_of(us), promo_from_fn(sq))
}

/// Pawn captures of each pawn (normal captures, then capture promotions), then en passant.
pub open spec fn pawn_capture_seq(v: PositionView, us: Color, their: u64) -> Seq<Move> {
    let pawns = v.bb(us, PieceType::Pawn);
    over_bits(pawns, pawn_cap_fn(us, their))
        + match v.en_passant {
            Some(ep) => targets_seq_to(pawn_att(us.other(), ep.idx() as int) & pawns, ep.idx() as int, 4),
            None => Seq::empty(),
        }
}

/// One move with flag `flag` from each square of `froms` to `to`, in square order.
pub open spec fn targets_seq_to(froms: u64, to: int, flag: u32) -> Seq<Move> {
    over_bits(froms, to_fn(to, flag))
}


// ─── Generators ───────────────────────────────────────────────────────────────

/// Unfolds one step of [`over_bits`].
proof fn lemma_over_bits_step(b: u64, f: spec_fn(int) -> Seq<Move>)
    requires
        b != 0,
    ensures
        over_bits(b, f) == f(low(b)) + over_bits(rest(b), f),
{
}

/// Pushes one move with flag `flag` from `from` to each square of `targets`, lowest first.
fn push_targets(list: &mut MoveList, from: u32, targets: u64, flag: MoveFlag)
    requires
        old(list).wf(),
        from < 64,
    ensures
        final(list).wf(),
        final(list)@ == old(list)@ + targets_seq(from as int, targets, flag.code_spec()),
{
    let mut t = targets;
    let from_sq = Square::from_index(from as u8);
    while t != 0
        invariant
            list.wf(),
            from < 64,
            from_sq.idx() == from,
            list@ + targets_seq(from as int, t, flag.code_spec()) == old(list)@ + targets_seq(from as int, targets, flag.code_spec()),
        decreases t,
    {
        let ghost t0 = t;
        proof {
            lemma_low_rest(t);
            lemma_rest_smaller(t);
            lemma_over_bits_step(t, from_fn(from as int, flag.code_spec()));
        }
        let to = pop_lsb(&mut t);
        let m = Move::new(from_sq, Square::from_index(to as u8), flag);
        let ghost l0 = list@;
        list.push(m);
        assert(m == mv(from as int, low(t0), flag.code_spec()));
        assert(list@ + targets_seq(from as int, t, flag.code_spec()) =~= l0 + targets_seq(from as int, t0, flag.code_spec()));
    }
}


/// Attack bitboard of a non-pawn piece of type `pt` on `sq`.
pub(crate) fn piece_attacks(pt: PieceType, sq: u32, occ: u64) -> (a: u64)
    requires
        sq < 64,
    ensures
        a == piece_att(pt, sq as int, occ),
{
    match pt {
        PieceType::Knight => knight_attacks_sq(sq),
        PieceType::Bishop => bishop_attacks(sq, occ),
        PieceType::Rook => rook_attacks(sq, occ),
        PieceType::Queen => queen_attacks(sq, occ),
        PieceType::King => king_attacks_sq(sq),
        PieceType::Pawn => 0,
    }
}

/// Normal moves of every piece of color `us` and type `pt` to its attacked squares in `mask`.
fn gen_piece_kind(pos: &Position, us: Color, pt: PieceType, occ: u64, mask: u64, list: &mut MoveList)
    requires
        old(list).wf(),
    ensures
        final(list).wf(),
        final(list)@ == old(list)@ + piece_moves_seq(pos@.bb(us, pt), pt, occ, mask),
{
    let mut pieces = pos.bb(us, pt);
    let ghost f = piece_fn(pt, occ, mask);
    while pieces != 0
        invariant
            list.wf(),
            f == piece_fn(pt, occ, mask),
            list@ + over_bits(pieces, f) == old(list)@ + over_bits(pos@.bb(us, pt), f),
        decreases pieces,
    {
        let ghost p0 = pieces;
        proof {
            lemma_low_rest(pieces);
            lemma_rest_smaller(pieces);
            lemma_over_bits_step(pieces, f);
        }
        let sq = pop_lsb(&mut pieces);
        let attacks = piece_attacks(pt, sq, occ) & mask;
        let ghost l0 = list@;
        push_targets(list, sq, attacks, MoveFlag::Normal);
        assert(sq as int == low(p0));
        assert(f(low(p0)) == targets_seq(sq as int, attacks, 0));
        assert(over_bits(p0, f) == f(low(p0)) + over_bits(pieces, f));
        assert(list@ + over_bits(pieces, f) =~= l0 + over_bits(p0, f));
    }
}

fn gen_knights(pos: &Position, us: Color, our: u64, list: &mut MoveList)
    requires
        old(list).wf(),
    ensures
        final(list).wf(),
        final(list)@ == old(list)@ + piece_moves_seq(pos@.bb(us, PieceType::Knight), PieceType::Knight, 0, !our),
{
    gen_piece_kind(pos, us, PieceType::Knight, 0, !our, list);
}

fn gen_knight_captures(pos: &Position, us: Color, their: u64, list: &mut MoveList)
    requires
        old(list).wf(),
    ensures
        final(list).wf(),
        final(list)@ == old(list)@ + piece_moves_seq(pos@.bb(us, PieceType::Knight), PieceType::Knight, 0, their),
{
    gen_piece_kind(pos, us, PieceType::Knight, 0, their, list);
}

fn gen_bishops(pos: &Position, us: Color, our: u64, occ: u64, list: &mut MoveList)
    requires
        old(list).wf(),
    ensures
        final(list).wf(),
        final(list)@ == old(list)@ + piece_moves_seq(pos@.bb(us, PieceType::Bishop), PieceType::Bishop, occ, !our),
{
    gen_piece_kind(pos, us, PieceType::Bishop, occ, !our, list);
}

fn gen_bishop_captures(pos: &Position, us: Color, occ: u64, their: u64, list: &mut MoveList)
    requires
        old(list).wf(),
    ensures
        final(list).wf(),
        final(list)@ == old(list)@ + piece_moves_seq(pos@.bb(us, PieceType::Bishop), PieceType::Bishop, occ, their),
{
    gen_piece_kind(pos, us, PieceType::Bishop, occ, their, list);
}

fn gen_rooks(pos: &Position, us: Color, our: u64, occ: u64, list: &mut MoveList)
    requires
        old(list).wf(),
    ensures
        final(list).wf(),
        final(list)@ == old(list)@ + piece_moves_seq(pos@.bb(us, PieceType::Rook), PieceType::Rook, occ, !our),
{
    gen_piece_kind(pos, us, PieceType::Rook, occ, !our, list);
}

fn gen_rook_captures(pos: &Position, us: Color, occ: u64, their: u64, list: &mut MoveList)
    requires
        old(list).wf(),
    ensures
        final(list).wf(),
        final(list)@ == old(list)@ + piece_moves_seq(pos@.bb(us, PieceType::Rook), PieceType::Rook, occ, their),
{
    gen_piece_kind(pos, us, PieceType::Rook, occ, their, list);
}

fn gen_queens(pos: &Position, us: Color, our: u64, occ: u64, list: &mut MoveList)
    requires
        old(list).wf(),
    ensures
        final(list).wf(),
        final(list)@ == old(list)@ + piece_moves_seq(pos@.bb(us, PieceType::Queen), PieceType::Queen, occ, !our),
{
    gen_piece_kind(pos, us, PieceType::Queen, occ, !our, list);
}

fn gen_queen_captures(pos: &Position, us: Color, occ: u64, their: u64, list: &mut MoveList)
    requires
        old(list).wf(),
    ensures
        final(list).wf(),
        final(list)@ == old(list)@ + piece_moves_seq(pos@.bb(us, PieceType::Queen), PieceType::Queen, occ, their),
{
    gen_piece_kind(pos, us, PieceType::Queen, occ, their, list);
}

/// King moves of the king on the lowest square of the king bitboard.
fn gen_king(pos: &Position, us: Color, mask: u64, list: &mut MoveList)
    requires
        old(list).wf(),
        pos@.bb(us, PieceType::King) != 0,
    ensures
        final(list).wf(),
        final(list)@ == old(list)@ + targets_seq(low(pos@.bb(us, PieceType::King)),
            king_att(low(pos@.bb(us, PieceType::King))) & mask, 0),
{
    let king_sq = pos.king_sq(us);
    proof {
        lemma_low_rest(pos@.bb(us, PieceType::King));
        crate::board::bitboard::lemma_low_unique(pos@.bb(us, PieceType::King), king_sq.idx() as int);
    }
    let k = king_sq.index_u8() as u32;
    let attacks = king_attacks_sq(k) & mask;
    push_targets(list, k, attacks, MoveFlag::Normal);
}


/// Pushes, for each square `t` of `bits` (lowest first), the moves `f(t)` built by
/// [`push_for`]: one move from `t - delta` (or the four promotions when `promo`).
fn push_shifted(list: &mut MoveList, bits: u64, delta: i32, flag: MoveFlag, promo: bool)
    requires
        old(list).wf(),
        -16 <= delta <= 16,
        forall|t: int| #[trigger] has_bit(bits, t) ==> 0 <= t - delta < 64,
    ensures
        final(list).wf(),
        final(list)@ == old(list)@ + over_bits(bits, shifted_fn(delta as int, flag.code_spec(), promo)),
{
    let ghost f = shifted_fn(delta as int, flag.code_spec(), promo);
    let mut b = bits;
    while b != 0
        invariant
            list.wf(),
            -16 <= delta <= 16,
            f == shifted_fn(delta as int, flag.code_spec(), promo),
            forall|t: int| #[trigger] has_bit(b, t) ==> has_bit(bits, t),
            forall|t: int| #[trigger] has_bit(bits, t) ==> 0 <= t - delta < 64,
            list@ + over_bits(b, f) == old(list)@ + over_bits(bits, f),
        decreases b,
    {
        let ghost b0 = b;
        proof {
            lemma_low_rest(b);
            lemma_rest_smaller(b);
            lemma_over_bits_step(b, f);
        }
        let t = pop_lsb(&mut b);
        assert(has_bit(bits, t as int));
        let from = Square::from_index((t as i32 - delta) as u8);
        let to = Square::from_index(t as u8);
        let ghost l0 = list@;
        if promo {
            list.push(Move::new(from, to, MoveFlag::PromoteQueen));
            list.push(Move::new(from, to, MoveFlag::PromoteRook));
            list.push(Move::new(from, to, MoveFlag::PromoteBishop));
            list.push(Move::new(from, to, MoveFlag::PromoteKnight));
            assert(list@ =~= l0 + promo_seq(t - delta, t as int));
        } else {
            list.push(Move::new(from, to, flag));
        }
        assert(f(low(b0)) == (if promo { promo_seq(t - delta, t as int) } else { seq![mv(t - delta, t as int, flag.code_spec())] }));
        assert(list@ + over_bits(b, f) =~= l0 + over_bits(b0, f));
    }
}

/// Pushes the four promotions from `from` to each square of `targets`, lowest first.
fn push_promotions_from(list: &mut MoveList, from: u32, targets: u64)
    requires
        old(list).wf(),
        from < 64,
    ensures
        final(list).wf(),
        final(list)@ == old(list)@ + over_bits(targets, promo_from_fn(from as int)),
{
    let ghost f = promo_from_fn(from as int);
    let mut b = targets;
    let from_sq = Square::from_index(from as u8);
    while b != 0
        invariant
            list.wf(),
            from_sq.idx() == from,
            f == promo_from_fn(from as int),
            list@ + over_bits(b, f) == old(list)@ + over_bits(targets, f),
        decreases b,
    {
        let ghost b0 = b;
        proof {
            lemma_low_rest(b);
            lemma_rest_smaller(b);
            lemma_over_bits_step(b, f);
        }
        let t = pop_lsb(&mut b);
        let to = Square::from_index(t as u8);
        let ghost l0 = list@;
        list.push(Move::new(from_sq, to, MoveFlag::PromoteQueen));
        list.push(Move::new(from_sq, to, MoveFlag::PromoteRook));
        list.push(Move::new(from_sq, to, MoveFlag::PromoteBishop));
        list.push(Move::new(from_sq, to, MoveFlag::PromoteKnight));
        assert(list@ =~= l0 + promo_seq(from as int, t as int));
        assert(list@ + over_bits(b, f) =~= l0 + over_bits(b0, f));
    }
}

/// Pushes one move with flag `flag` from each square of `froms` to `to`, lowest first.
fn push_to(list: &mut MoveList, froms: u64, to: Square, flag: MoveFlag)
    requires
        old(list).wf(),
    ensures
        final(list).wf(),
        final(list)@ == old(list)@ + targets_seq_to(froms, to.idx() as int, flag.code_spec()),
{
    let ghost f = to_fn(to.idx() as int, flag.code_spec());
    let mut b = froms;
    while b != 0
        invariant
            list.wf(),
            f == to_fn(to.idx() as int, flag.code_spec()),
            list@ + over_bits(b, f) == old(list)@ + over_bits(froms, f),
        decreases b,
    {
        let ghost b0 = b;
        proof {
            lemma_low_rest(b);
            lemma_rest_smaller(b);
            lemma_over_bits_step(b, f);
        }
        let sq = pop_lsb(&mut b);
        let ghost l0 = list@;
        list.push(Move::new(Square::from_index(sq as u8), to, flag));
        assert(list@ + over_bits(b, f) =~= l0 + over_bits(b0, f));
    }
}

/// Adds the promotions by a single pawn push.
fn gen_push_promotions(pos: &Position, us: Color, occ: u64, list: &mut MoveList)
    requires
        old(list).wf(),
        occ == pos@.occupancy,
    ensures
        final(list).wf(),
        final(list)@ == old(list)@ + pawn_promo_push_seq(pos@, us),
{
    let pawns = pos.bb(us, PieceType::Pawn);
    let empty = !occ;
    let is_white = us == Color::White;
    let single = if is_white { north(pawns) & empty } else { south(pawns) & empty };
    let promo_rank = if is_white { RANK_8 } else { RANK_1 };
    let delta: i32 = if is_white { 8 } else { -8 };
    proof {
        lemma_and_bits(if is_white { pawns << 8u64 } else { pawns >> 8u64 }, empty);
        lemma_and_bits(single, promo_rank);
        assert(single == pawn_single(pos@, us));
        assert(promo_rank == promo_rank_of(us));
    }
    push_shifted(list, single & promo_rank, delta, MoveFlag::Normal, true);
}

fn gen_pawn_pushes(pos: &Position, us: Color, occ: u64, list: &mut MoveList)
    requires
        old(list).wf(),
        occ == pos@.occupancy,
    ensures
        final(list).wf(),
        final(list)@ == old(list)@ + pawn_push_seq(pos@, us),
{
    let pawns = pos.bb(us, PieceType::Pawn);
    let empty = !occ;
    let is_white = us == Color::White;
    let single = if is_white { north(pawns) & empty } else { south(pawns) & empty };
    let promo_rank = if is_white { RANK_8 } else { RANK_1 };
    let delta: i32 = if is_white { 8 } else { -8 };
    let ghost push: int = if us == Color::White { 8 } else { -8 };
    proof {
        lemma_and_bits(if is_white { pawns << 8u64 } else { pawns >> 8u64 }, empty);
        lemma_and_bits(single, !promo_rank);
        lemma_and_bits(single, promo_rank);
    }
    let ghost l0 = list@;
    push_shifted(list, single & !promo_rank, delta, MoveFlag::Normal, false);
    let pre = if is_white { north(single & RANK_3) } else { south(single & RANK_6) };
    let doubles = pre & empty;
    proof {
        lemma_and_bits(pre, empty);
        lemma_and_bits(single, if is_white { RANK_3 } else { RANK_6 });
    }
    let ghost l1 = list@;
    push_shifted(list, doubles, 2 * delta, MoveFlag::DoublePush, false);
    let ghost l2 = list@;
    push_shifted(list, single & promo_rank, delta, MoveFlag::Normal, true);
    proof {
        assert(single == pawn_single(pos@, us));
        assert(promo_rank == promo_rank_of(us));
        assert(doubles == (if us == Color::White {
            ((pawn_single(pos@, us) & RANK_3) << 8u64) & !pos@.occupancy
        } else {
            ((pawn_single(pos@, us) & RANK_6) >> 8u64) & !pos@.occupancy
        }));
        assert(list@ =~= l0 + pawn_push_seq(pos@, us));
    }
}

fn gen_pawn_captures(pos: &Position, us: Color, their: u64, list: &mut MoveList)
    requires
        old(list).wf(),
    ensures
        final(list).wf(),
        final(list)@ == old(list)@ + pawn_capture_seq(pos@, us, their),
{
    let pawns = pos.bb(us, PieceType::Pawn);
    let promo_rank = if us == Color::White { RANK_8 } else { RANK_1 };
    let ghost f = pawn_cap_fn(us, their);
    let mut rem = pawns;
    while rem != 0
        invariant
            list.wf(),
            promo_rank == promo_rank_of(us),
            f == pawn_cap_fn(us, their),
            list@ + over_bits(rem, f) == old(list)@ + over_bits(pawns, f),
        decreases rem,
    {
        let ghost r0 = rem;
        proof {
            lemma_low_rest(rem);
            lemma_rest_smaller(rem);
            lemma_over_bits_step(rem, f);
        }
        let sq = pop_lsb(&mut rem);
        let attacks = pawn_attacks(us, sq) & their;
        let ghost l0 = list@;
        push_targets(list, sq, attacks & !promo_rank, MoveFlag::Normal);
        push_promotions_from(list, sq, attacks & promo_rank);
        assert(list@ + over_bits(rem, f) =~= l0 + over_bits(r0, f));
    }
    let ghost l1 = list@;
    match pos.en_passant {
        Some(ep) => {
            let ep_attackers = pawn_attacks(us.flip(), ep.index_u8() as u32) & pawns;
            push_to(list, ep_attackers, ep, MoveFlag::EnPassant);
        },
        None => {},
    }
    assert(list@ =~= old(list)@ + pawn_capture_seq(pos@, us, their));
}


/// Castling moves of color `us`: kingside then queenside, when the right is held and
/// the squares between king and rook are empty.
pub open spec fn castle_seq(v: PositionView, us: Color, occ: u64) -> Seq<Move> {
    let (k, ks, qs, ks_path, qs_path, ks_to, qs_to) = if us == Color::White {
        (4int, CASTLE_WK, CASTLE_WQ, 0x60u64, 0x0eu64, 6int, 2int)
    } else {
        (60int, CASTLE_BK, CASTLE_BQ, 0x6000000000000000u64, 0x0e00000000000000u64, 62int, 58int)
    };
    (if v.castling & ks != 0 && occ & ks_path == 0 { seq![mv(k, ks_to, 2)] } else { Seq::empty() })
        + (if v.castling & qs != 0 && occ & qs_path == 0 { seq![mv(k, qs_to, 3)] } else { Seq::empty() })
}

fn gen_castling(pos: &Position, us: Color, occ: u64, list: &mut MoveList)
    requires
        old(list).wf(),
    ensures
        final(list).wf(),
        final(list)@ == old(list)@ + castle_seq(pos@, us, occ),
{
    let (king_sq, ks_right, qs_right, ks_path, qs_path, ks_to, qs_to) = match us {
        Color::White => (
            Square::E1, CASTLE_WK, CASTLE_WQ,
            Square::F1.bb() | Square::G1.bb(),
            Square::B1.bb() | Square::C1.bb() | Square::D1.bb(),
            Square::G1, Square::C1,
        ),
        Color::Black => (
            Square::E8, CASTLE_BK, CASTLE_BQ,
            Square::F8.bb() | Square::G8.bb(),
            Square::B8.bb() | Square::C8.bb() | Square::D8.bb(),
            Square::G8, Square::C8,
        ),
    };
    proof {
        assert((1u64 << 5u64) | (1u64 << 6u64) == 0x60u64
            && (1u64 << 1u64) | (1u64 << 2u64) | (1u64 << 3u64) == 0x0eu64
            && (1u64 << 61u64) | (1u64 << 62u64) == 0x6000000000000000u64
            && (1u64 << 57u64) | (1u64 << 58u64) | (1u64 << 59u64) == 0x0e00000000000000u64) by (bit_vector);
    }
    let ghost l0 = list@;
    if pos.castling & ks_right != 0 && occ & ks_path == 0 {
        list.push(Move::new(king_sq, ks_to, MoveFlag::CastleKing));
    }
    let ghost l1 = list@;
    if pos.castling & qs_right != 0 && occ & qs_path == 0 {
        list.push(Move::new(king_sq, qs_to, MoveFlag::CastleQueen));
    }
    assert(list@ =~= l0 + castle_seq(pos@, us, occ));
}

/// All pseudo-legal moves of the side to move, in generation order: pawn pushes, pawn
/// captures, knights, bishops, rooks, queens, king, castling.
pub open spec fn pseudo_moves(v: PositionView) -> Seq<Move> {
    let us = v.side;
    let our = v.colors[us.idx() as int];
    let their = v.colors[us.other().idx() as int];
    let occ = v.occupancy;
    let kbb = v.bb(us, PieceType::King);
    pawn_push_seq(v, us)
        + pawn_capture_seq(v, us, their)
        + piece_moves_seq(v.bb(us, PieceType::Knight), PieceType::Knight, 0, !our)
        + piece_moves_seq(v.bb(us, PieceType::Bishop), PieceType::Bishop, occ, !our)
        + piece_moves_seq(v.bb(us, PieceType::Rook), PieceType::Rook, occ, !our)
        + piece_moves_seq(v.bb(us, PieceType::Queen), PieceType::Queen, occ, !our)
        + targets_seq(low(kbb), king_att(low(kbb)) & !our, 0)
        + castle_seq(v, us, occ)
}

/// The captures (with capture promotions and en passant) and the push promotions of the side to move, in
/// generation order: pawns, knights, bishops, rooks, queens, king.
pub open spec fn capture_moves(v: PositionView) -> Seq<Move> {
    let us = v.side;
    let their = v.colors[us.other().idx() as int];
    let occ = v.occupancy;
    let kbb = v.bb(us, PieceType::King);
    pawn_capture_seq(v, us, their)
        + pawn_promo_push_seq(v, us)
        + piece_moves_seq(v.bb(us, PieceType::Knight), PieceType::Knight, 0, their)
        + piece_moves_seq(v.bb(us, PieceType::Bishop), PieceType::Bishop, occ, their)
        + piece_moves_seq(v.bb(us, PieceType::Rook), PieceType::Rook, occ, their)
        + piece_moves_seq(v.bb(us, PieceType::Queen), PieceType::Queen, occ, their)
        + targets_seq(low(kbb), king_att(low(kbb)) & their, 0)
}

/// Generate all pseudo-legal moves for the side to move.
pub fn generate_all(pos: &Position) -> (list: MoveList)
    requires
        pos@.bb(pos.side, PieceType::King) != 0,
        pos.colors@.len() == 2,
    ensures
        list.wf(),
        list@ == pseudo_moves(pos@),
{
    let mut list = MoveList::new();
    let us = pos.side;
    let them = us.flip();
    let occ = pos.occupancy;
    let our = pos.color_bb(us);
    let their = pos.color_bb(them);
    gen_pawn_pushes(pos, us, occ, &mut list);
    gen_pawn_captures(pos, us, their, &mut list);
    gen_knights(pos, us, our, &mut list);
    gen_bishops(pos, us, our, occ, &mut list);
    gen_rooks(pos, us, our, occ, &mut list);
    gen_queens(pos, us, our, occ, &mut list);
    gen_king(pos, us, !our, &mut list);
    gen_castling(pos, us, occ, &mut list);
    assert(list@ =~= pseudo_moves(pos@));
    list
}

/// Generate only captures and promotions (for quiescence search).
pub fn generate_captures(pos: &Position) -> (list: MoveList)
    requires
        pos@.bb(pos.side, PieceType::King) != 0,
        pos.colors@.len() == 2,
    ensures
        list.wf(),
        list@ == capture_moves(pos@),
{
    let mut list = MoveList::new();
    let us = pos.side;
    let them = us.flip();
    let occ = pos.occupancy;
    let their = pos.color_bb(them);
    gen_pawn_captures(pos, us, their, &mut list);
    gen_push_promotions(pos, us, occ, &mut list);
    gen_knight_captures(pos, us, their, &mut list);
    gen_bishop_captures(pos, us, occ, their, &mut list);
    gen_rook_captures(pos, us, occ, their, &mut list);
    gen_queen_captures(pos, us, occ, their, &mut list);
    gen_king(pos, us, their, &mut list);
    assert(list@ =~= capture_moves(pos@));
    list
}

impl Default for MoveList {
    fn default() -> (l: Self)
        ensures
            l.wf(),
            l@ == Seq::<Move>::empty(),
    {
        Self::new()
    }
}

} // verus!

verus! {

// ─── Every generated move is well-formed ──────────────────────────────────────

/// Every move of `ms` is a well-formed move in `v`.
pub open spec fn all_ok(v: PositionView, ms: Seq<Move>) -> bool {
    forall|i: int| 0 <= i < ms.len() ==> v.move_ok(#[trigger] ms[i])
}

/// A move built from in-range fields decodes to them.
pub proof fn lemma_mv_fields(from: int, to: int, flag: u32)
    requires
        0 <= from < 64,
        0 <= to < 64,
        flag <= 8,
    ensures
        mv(from, to, flag).from_idx() == from,
        mv(from, to, flag).to_idx() == to,
        mv(from, to, flag).flag_spec() == flag,
{
    crate::board::position::lemma_encode_fields(from as u32, to as u32, crate::board::position::promo_code(flag), flag);
}

proof fn lemma_all_ok_add(v: PositionView, a: Seq<Move>, b: Seq<Move>)
    requires
        all_ok(v, a),
        all_ok(v, b),
    ensures
        all_ok(v, a + b),
{
    assert forall|i: int| 0 <= i < (a + b).len() implies v.move_ok(#[trigger] (a + b)[i]) by {
        if i < a.len() {
            assert((a + b)[i] == a[i]);
        } else {
            assert((a + b)[i] == b[i - a.len()]);
        }
    }
}

/// `over_bits` keeps a property that each square's moves have.
proof fn lemma_over_bits_ok(v: PositionView, b: u64, f: spec_fn(int) -> Seq<Move>)
    requires
        forall|t: int| has_bit(b, t) ==> all_ok(v, #[trigger] f(t)),
    ensures
        all_ok(v, over_bits(b, f)),
    decreases b,
{
    if b != 0 {
        lemma_low_rest(b);
        lemma_rest_smaller(b);
        lemma_over_bits_ok(v, rest(b), f);
        assert(all_ok(v, f(low(b))));
        lemma_all_ok_add(v, f(low(b)), over_bits(rest(b), f));
    }
}

/// In a well-formed position no square holds pieces of both colors, and each piece's
/// square is occupied.
proof fn lemma_colors_disjoint(v: PositionView, t: int)
    requires
        v.wf(),
    ensures
        !(has_bit(v.colors[0], t) && has_bit(v.colors[1], t)),
        has_bit(v.occupancy, t) <==> (has_bit(v.colors[0], t) || has_bit(v.colors[1], t)),
{
    lemma_wf_colors(v, Color::White, t);
    lemma_wf_colors(v, Color::Black, t);
    lemma_or_bits(v.colors[0], v.colors[1]);
    if has_bit(v.colors[0], t) && has_bit(v.colors[1], t) {
        let a = v.piece_type_at(t, Color::White)->0;
        let b = v.piece_type_at(t, Color::Black)->0;
        let i = pidx(Color::White, a);
        let j = pidx(Color::Black, b);
        assert(has_bit(v.bb(Color::White, a), t));
        assert(has_bit(v.bb(Color::Black, b), t));
        assert(has_bit(v.pieces[i], t) && has_bit(v.pieces[j], t));
        assert(0 <= i < j < 12);
        lemma_and_bits(v.pieces[i], v.pieces[j]);
        assert(has_bit(v.pieces[i] & v.pieces[j], t));
        assert(v.pieces[i] & v.pieces[j] == 0);
        crate::board::bitboard::lemma_zero_bits();
        assert(!has_bit(0u64, t));
    }
}

/// A move of a piece of type `pt` of the side to move from `s` to a square not held by it.
proof fn lemma_piece_move_ok(v: PositionView, s: int, t: int, pt: PieceType, flag: u32)
    requires
        v.valid(),
        has_bit(v.bb(v.side, pt), s),
        0 <= t < 64,
        !has_bit(v.colors[v.side.idx() as int], t),
        flag == 0 || (pt == PieceType::Pawn && 5 <= flag <= 8),
    ensures
        v.move_ok(mv(s, t, flag)),
{
    lemma_mv_fields(s, t, flag);
    lemma_wf_colors(v, v.side, s);
    lemma_wf_colors(v, v.side, t);
}

/// Normal moves of the pieces of one kind are well-formed.
proof fn lemma_piece_moves_ok(v: PositionView, pt: PieceType, occ: u64, mask: u64)
    requires
        v.valid(),
        pt != PieceType::Pawn,
        forall|t: int| #[trigger] has_bit(mask, t) ==> !has_bit(v.colors[v.side.idx() as int], t),
    ensures
        all_ok(v, piece_moves_seq(v.bb(v.side, pt), pt, occ, mask)),
{
    let f = piece_fn(pt, occ, mask);
    assert forall|s: int| has_bit(v.bb(v.side, pt), s) implies all_ok(v, #[trigger] f(s)) by {
        lemma_and_bits(piece_att(pt, s, occ), mask);
        lemma_targets_ok(v, s, piece_att(pt, s, occ) & mask, pt);
    }
    lemma_over_bits_ok(v, v.bb(v.side, pt), f);
}

/// Normal moves from a piece's square to squares not held by the side to move.
proof fn lemma_targets_ok(v: PositionView, s: int, targets: u64, pt: PieceType)
    requires
        v.valid(),
        has_bit(v.bb(v.side, pt), s),
        forall|t: int| #[trigger] has_bit(targets, t) ==> !has_bit(v.colors[v.side.idx() as int], t),
    ensures
        all_ok(v, targets_seq(s, targets, 0)),
{
    let f = from_fn(s, 0);
    assert forall|t: int| has_bit(targets, t) implies all_ok(v, #[trigger] f(t)) by {
        lemma_piece_move_ok(v, s, t, pt, 0);
        assert(f(t) =~= seq![mv(s, t, 0)]);
    }
    lemma_over_bits_ok(v, targets, f);
}

/// The four promotions from a pawn to a square not held by the side to move.
proof fn lemma_promo_ok(v: PositionView, s: int, t: int)
    requires
        v.valid(),
        has_bit(v.bb(v.side, PieceType::Pawn), s),
        0 <= t < 64,
        !has_bit(v.colors[v.side.idx() as int], t),
    ensures
        all_ok(v, promo_seq(s, t)),
{
    lemma_piece_move_ok(v, s, t, PieceType::Pawn, 8);
    lemma_piece_move_ok(v, s, t, PieceType::Pawn, 7);
    lemma_piece_move_ok(v, s, t, PieceType::Pawn, 6);
    lemma_piece_move_ok(v, s, t, PieceType::Pawn, 5);
}

/// Bits of the bitboard shifted one rank up and one rank down.
proof fn lemma_shift_ranks(x: u64)
    ensures
        forall|t: int| #![trigger has_bit(x << 8u64, t)] has_bit(x << 8u64, t) <==> (0 <= t < 64 && t >= 8 && has_bit(x, t - 8)),
        forall|t: int| #![trigger has_bit(x >> 8u64, t)] has_bit(x >> 8u64, t) <==> (0 <= t < 64 && t < 56 && has_bit(x, t + 8)),
{
    crate::board::bitboard::lemma_north(x);
    crate::board::bitboard::lemma_south(x);
}

/// The pawn pushes are well-formed.
#[verifier::rlimit(40)]
proof fn lemma_pawn_pushes_ok(v: PositionView)
    requires
        v.valid(),
    ensures
        all_ok(v, pawn_push_seq(v, v.side)),
{
    let us = v.side;
    let pawns = v.bb(us, PieceType::Pawn);
    let occ = v.occupancy;
    let single = pawn_single(v, us);
    let push: int = if us == Color::White { 8 } else { -8 };
    let promo = promo_rank_of(us);
    let doubles = if us == Color::White {
        ((single & RANK_3) << 8u64) & !occ
    } else {
        ((single & RANK_6) >> 8u64) & !occ
    };
    lemma_shift_ranks(pawns);
    lemma_shift_ranks(single & RANK_3);
    lemma_shift_ranks(single & RANK_6);
    lemma_not_bits(occ);
    lemma_and_bits(if us == Color::White { pawns << 8u64 } else { pawns >> 8u64 }, !occ);
    lemma_and_bits(single, !promo);
    lemma_and_bits(single, promo);
    lemma_and_bits(single, RANK_3);
    lemma_and_bits(single, RANK_6);
    lemma_and_bits(if us == Color::White { (single & RANK_3) << 8u64 } else { (single & RANK_6) >> 8u64 }, !occ);
    let f1 = shifted_fn(push, 0, false);
    let f2 = shifted_fn(2 * push, 1, false);
    let f3 = shifted_fn(push, 0, true);
    assert forall|t: int| has_bit(single, t) implies has_bit(pawns, t - push) && !has_bit(occ, t)
        && !has_bit(v.colors[us.idx() as int], t) by {
        lemma_colors_disjoint(v, t);
    }
    assert forall|t: int| has_bit(single & !promo, t) implies all_ok(v, #[trigger] f1(t)) by {
        lemma_piece_move_ok(v, t - push, t, PieceType::Pawn, 0);
        assert(f1(t) =~= seq![mv(t - push, t, 0)]);
    }
    assert forall|t: int| has_bit(doubles, t) implies all_ok(v, #[trigger] f2(t)) by {
        assert(has_bit(single, t - push));
        lemma_colors_disjoint(v, t);
        lemma_mv_fields(t - 2 * push, t, 1);
        lemma_wf_colors(v, us, t - 2 * push);
        lemma_wf_colors(v, us, t);
        assert(f2(t) =~= seq![mv(t - 2 * push, t, 1)]);
    }
    assert forall|t: int| has_bit(single & promo, t) implies all_ok(v, #[trigger] f3(t)) by {
        lemma_promo_ok(v, t - push, t);
    }
    lemma_over_bits_ok(v, single & !promo, f1);
    lemma_over_bits_ok(v, doubles, f2);
    lemma_over_bits_ok(v, single & promo, f3);
    lemma_all_ok_add(v, over_bits(single & !promo, f1), over_bits(doubles, f2));
    lemma_all_ok_add(v, over_bits(single & !promo, f1) + over_bits(doubles, f2), over_bits(single & promo, f3));
}

/// The pawn captures, capture promotions and en passant captures are well-formed.
#[verifier::rlimit(40)]
proof fn lemma_pawn_captures_ok(v: PositionView)
    requires
        v.valid(),
    ensures
        all_ok(v, pawn_capture_seq(v, v.side, v.colors[v.side.other().idx() as int])),
{
    let us = v.side;
    let them = us.other();
    let their = v.colors[them.idx() as int];
    let pawns = v.bb(us, PieceType::Pawn);
    let promo = promo_rank_of(us);
    let f = pawn_cap_fn(us, their);
    assert forall|s: int| has_bit(pawns, s) implies all_ok(v, #[trigger] f(s)) by {
        let a = pawn_att(us, s) & their;
        lemma_and_bits(pawn_att(us, s), their);
        lemma_and_bits(a, !promo);
        lemma_and_bits(a, promo);
        assert forall|t: int| #[trigger] has_bit(a & !promo, t) implies !has_bit(v.colors[us.idx() as int], t) by {
            lemma_colors_disjoint(v, t);
        }
        lemma_targets_ok(v, s, a & !promo, PieceType::Pawn);
        let g = promo_from_fn(s);
        assert forall|t: int| has_bit(a & promo, t) implies all_ok(v, #[trigger] g(t)) by {
            lemma_colors_disjoint(v, t);
            lemma_promo_ok(v, s, t);
        }
        lemma_over_bits_ok(v, a & promo, g);
        lemma_all_ok_add(v, targets_seq(s, a & !promo, 0), over_bits(a & promo, g));
    }
    lemma_over_bits_ok(v, pawns, f);
    match v.en_passant {
        Some(ep) => {
            let e = ep.idx() as int;
            let froms = pawn_att(them, e) & pawns;
            let g = to_fn(e, 4);
            crate::board::square::lemma_idx_injective(ep, ep);
            crate::movegen::attacks::lemma_pawn_att(them, e);
            lemma_and_bits(pawn_att(them, e), pawns);
            assert forall|s: int| has_bit(froms, s) implies all_ok(v, #[trigger] g(s)) by {
                lemma_mv_fields(s, e, 4);
                lemma_wf_colors(v, us, s);
                lemma_wf_colors(v, us, e);
                lemma_colors_disjoint(v, e);
                assert(g(s) =~= seq![mv(s, e, 4)]);
            }
            lemma_over_bits_ok(v, froms, g);
            lemma_all_ok_add(v, over_bits(pawns, f), targets_seq_to(froms, e, 4));
        },
        None => {
            assert(pawn_capture_seq(v, us, their) =~= over_bits(pawns, f));
        },
    }
}

/// The castling moves are well-formed.
proof fn lemma_castles_ok(v: PositionView)
    requires
        v.valid(),
    ensures
        all_ok(v, castle_seq(v, v.side, v.occupancy)),
{
    let us = v.side;
    let occ = v.occupancy;
    let k: int = if us == Color::White { 4 } else { 60 };
    lemma_wf_colors(v, us, k);
    assert((occ & 0x60u64 == 0 ==> (occ >> 5u64) & 1 != 1 && (occ >> 6u64) & 1 != 1)
        && (occ & 0x0eu64 == 0 ==> (occ >> 3u64) & 1 != 1 && (occ >> 2u64) & 1 != 1 && (occ >> 1u64) & 1 != 1)
        && (occ & 0x6000000000000000u64 == 0 ==> (occ >> 61u64) & 1 != 1 && (occ >> 62u64) & 1 != 1)
        && (occ & 0x0e00000000000000u64 == 0 ==> (occ >> 59u64) & 1 != 1 && (occ >> 58u64) & 1 != 1
            && (occ >> 57u64) & 1 != 1)) by (bit_vector);
    if us == Color::White {
        lemma_mv_fields(4, 6, 2);
        lemma_mv_fields(4, 2, 3);
        lemma_colors_disjoint(v, 6);
        lemma_colors_disjoint(v, 2);
    } else {
        lemma_mv_fields(60, 62, 2);
        lemma_mv_fields(60, 58, 3);
        lemma_colors_disjoint(v, 62);
        lemma_colors_disjoint(v, 58);
    }
    let s = castle_seq(v, us, occ);
    assert forall|i: int| 0 <= i < s.len() implies v.move_ok(#[trigger] s[i]) by {}
}

/// In a consistent position every pseudo-legal move is well-formed.
pub proof fn lemma_pseudo_moves_ok(v: PositionView)
    requires
        v.valid(),
    ensures
        v.bb(v.side, PieceType::King) != 0,
        v.colors.len() == 2,
        all_ok(v, pseudo_moves(v)),
{
    let us = v.side;
    let our = v.colors[us.idx() as int];
    let their = v.colors[us.other().idx() as int];
    let occ = v.occupancy;
    let kbb = v.bb(us, PieceType::King);
    lemma_not_bits(our);
    lemma_pawn_pushes_ok(v);
    lemma_pawn_captures_ok(v);
    lemma_piece_moves_ok(v, PieceType::Knight, 0, !our);
    lemma_piece_moves_ok(v, PieceType::Bishop, occ, !our);
    lemma_piece_moves_ok(v, PieceType::Rook, occ, !our);
    lemma_piece_moves_ok(v, PieceType::Queen, occ, !our);
    lemma_low_rest(kbb);
    lemma_and_bits(king_att(low(kbb)), !our);
    lemma_targets_ok(v, low(kbb), king_att(low(kbb)) & !our, PieceType::King);
    lemma_castles_ok(v);
    let a = pawn_push_seq(v, us);
    let b = pawn_capture_seq(v, us, their);
    let c = piece_moves_seq(v.bb(us, PieceType::Knight), PieceType::Knight, 0, !our);
    let d = piece_moves_seq(v.bb(us, PieceType::Bishop), PieceType::Bishop, occ, !our);
    let e = piece_moves_seq(v.bb(us, PieceType::Rook), PieceType::Rook, occ, !our);
    let f = piece_moves_seq(v.bb(us, PieceType::Queen), PieceType::Queen, occ, !our);
    let g = targets_seq(low(kbb), king_att(low(kbb)) & !our, 0);
    let h = castle_seq(v, us, occ);
    lemma_all_ok_add(v, a, b);
    lemma_all_ok_add(v, a + b, c);
    lemma_all_ok_add(v, a + b + c, d);
    lemma_all_ok_add(v, a + b + c + d, e);
    lemma_all_ok_add(v, a + b + c + d + e, f);
    lemma_all_ok_add(v, a + b + c + d + e + f, g);
    lemma_all_ok_add(v, a + b + c + d + e + f + g, h);
}

/// In a consistent position every generated capture is well-formed.
pub proof fn lemma_capture_moves_ok(v: PositionView)
    requires
        v.valid(),
    ensures
        v.bb(v.side, PieceType::King) != 0,
        v.colors.len() == 2,
        all_ok(v, capture_moves(v)),
{
    let us = v.side;
    let their = v.colors[us.other().idx() as int];
    let occ = v.occupancy;
    let kbb = v.bb(us, PieceType::King);
    assert forall|t: int| #[trigger] has_bit(their, t) implies !has_bit(v.colors[us.idx() as int], t) by {
        lemma_colors_disjoint(v, t);
    }
    lemma_pawn_captures_ok(v);
    lemma_pawn_pushes_ok(v);
    let pp = pawn_promo_push_seq(v, us);
    let pushes = pawn_push_seq(v, us);
    assert forall|i: int| 0 <= i < pp.len() implies v.move_ok(#[trigger] pp[i]) by {
        assert(pp[i] == pushes[pushes.len() - pp.len() + i]);
    }
    lemma_piece_moves_ok(v, PieceType::Knight, 0, their);
    lemma_piece_moves_ok(v, PieceType::Bishop, occ, their);
    lemma_piece_moves_ok(v, PieceType::Rook, occ, their);
    lemma_piece_moves_ok(v, PieceType::Queen, occ, their);
    lemma_low_rest(kbb);
    lemma_and_bits(king_att(low(kbb)), their);
    lemma_targets_ok(v, low(kbb), king_att(low(kbb)) & their, PieceType::King);
    let b0 = pawn_capture_seq(v, us, their);
    lemma_all_ok_add(v, b0, pp);
    let b = b0 + pp;
    let c = piece_moves_seq(v.bb(us, PieceType::Knight), PieceType::Knight, 0, their);
    let d = piece_moves_seq(v.bb(us, PieceType::Bishop), PieceType::Bishop, occ, their);
    let e = piece_moves_seq(v.bb(us, PieceType::Rook), PieceType::Rook, occ, their);
    let f = piece_moves_seq(v.bb(us, PieceType::Queen), PieceType::Queen, occ, their);
    let g = targets_seq(low(kbb), king_att(low(kbb)) & their, 0);
    lemma_all_ok_add(v, b, c);
    lemma_all_ok_add(v, b + c, d);
    lemma_all_ok_add(v, b + c + d, e);
    lemma_all_ok_add(v, b + c + d + e, f);
    lemma_all_ok_add(v, b + c + d + e + f, g);
}

} // verus!
