//! Training data: positions packed into 32-byte records for network training.
//!
//! A record holds the occupancy bitboard, the pieces as 4-bit codes (bits 0–2 the type,
//! bit 3 set for Black) in order of their squares, the score and the game's result from
//! White's side, and the side to move.
use vstd::prelude::*;
use crate::board::bitboard::{has_bit, lemma_or_bits, lemma_single_bit, lemma_zero_bits};
use crate::board::color::Color;
use crate::board::piece::Piece;
use crate::board::position::{Position, PositionView};
use crate::board::square::Square;
use crate::openingbook::polyglot::pow256;
use crate::eval::nnue::NnueEval;
use crate::movegen::legal::{is_in_check, legal_moves, lemma_legal_ok, legal_seq};
use crate::search::iterative_deepening::search;
use crate::search::pvs::{lmr_ok, eval_ok};
use crate::search::timeman::TimeManager;
use crate::tt::table::TranspositionTable;

verus! {

/// The result of a game from White's side.
#[derive(Clone, Copy, PartialEq, Eq, Structural)]
pub enum Outcome {
    WhiteWin,
    BlackWin,
    Draw,
}

impl Outcome {
    /// 2 for a White win, 1 for a draw, 0 for a Black win.
    pub fn wdl_white(self) -> (r: u8)
        ensures
            r == (match self {
                Outcome::WhiteWin => 2u8,
                Outcome::Draw => 1u8,
                Outcome::BlackWin => 0u8,
            }),
    {
        match self {
            Outcome::WhiteWin => 2,
            Outcome::Draw => 1,
            Outcome::BlackWin => 0,
        }
    }
}

/// One training position.
pub struct Record {
    /// The occupied squares.
    pub occupancy: u64,
    /// The pieces' codes, four bits each, lowest square first.
    pub pieces: u64,
    /// The score from White's side, in centipawns.
    pub score: i16,
    /// The game's result from White's side: 0 loss, 1 draw, 2 win.
    pub wdl: u8,
    /// The side to move: 0 White, 1 Black.
    pub stm: u8,
    pub _pad: [u8; 16],
}

/// `16^n`.
pub open spec fn pow16(n: nat) -> nat
    decreases n,
{
    if n == 0 { 1 } else { 16 * pow16((n - 1) as nat) }
}

/// The 4-bit code of a piece.
pub open spec fn piece_code(p: Piece) -> nat {
    p.piece_type.idx() + if p.color == Color::Black { 8nat } else { 0nat }
}

/// The packed codes of the pieces on the first `n` squares, and their number.
pub open spec fn pack(v: PositionView, n: int) -> (nat, nat)
    decreases n,
{
    if n <= 0 {
        (0, 0)
    } else {
        let (b, c) = pack(v, n - 1);
        match v.piece_at(n - 1) {
            Some(p) => (b + piece_code(p) * pow16(c), c + 1),
            None => (b, c),
        }
    }
}

/// The number of pieces on the board.
pub open spec fn piece_count(v: PositionView) -> nat {
    pack(v, 64).1
}

/// The score seen from White's side.
pub open spec fn white_score(v: PositionView, score_stm: i32) -> int {
    if v.side == Color::White { score_stm as int } else { -score_stm }
}

proof fn lemma_pack(v: PositionView, a: int, b: int)
    requires
        0 <= a <= b,
    ensures
        pack(v, a).1 <= pack(v, b).1,
        pack(v, a).0 < pow16(pack(v, a).1),
    decreases b,
{
    if a < b {
        lemma_pack(v, a, b - 1);
    } else if a > 0 {
        lemma_pack(v, a - 1, a - 1);
        let (x, c) = pack(v, a - 1);
        match v.piece_at(a - 1) {
            Some(p) => {
                assert(piece_code(p) <= 15);
                assert(x + piece_code(p) * pow16(c) < pow16(c) * 16) by (nonlinear_arith)
                    requires x < pow16(c), piece_code(p) <= 15;
            },
            None => {},
        }
    }
}

proof fn lemma_pow16_16()
    ensures
        pow16(16) == 0x1_0000_0000_0000_0000,
{
    reveal_with_fuel(pow16, 17);
}

proof fn lemma_pow16_mono(a: nat, b: nat)
    requires
        a <= b,
    ensures
        pow16(a) <= pow16(b),
    decreases b,
{
    if a < b {
        lemma_pow16_mono(a, (b - 1) as nat);
    }
}

impl Record {
    /// The record of a position, with the score from the side to move's view and the
    /// result from White's; `None` when the score is beyond 10000 centipawns, which is
    /// taken for mate or blunder noise.
    pub fn from_position(pos: &Position, score_stm: i32, wdl_white: u8) -> (r: Option<Record>)
        requires
            score_stm != i32::MIN,
            piece_count(pos@) <= 16,
        ensures
            ({
                let sw = white_score(pos@, score_stm);
                if sw > 10000 || sw < -10000 {
                    r is None
                } else {
                    r matches Some(rec) && {
                        &&& forall|s: int| 0 <= s < 64 ==> (has_bit(rec.occupancy, s) <==> pos@.piece_at(s) is Some)
                        &&& rec.pieces == pack(pos@, 64).0
                        &&& rec.score == sw
                        &&& rec.wdl == wdl_white
                        &&& rec.stm == (if pos.side == Color::White { 0u8 } else { 1u8 })
                        &&& rec._pad@ == Seq::new(16, |i: int| 0u8)
                    }
                }
            }),
    {
        let score_white = if pos.side == Color::White { score_stm } else { -score_stm };
        let mut occupancy: u64 = 0;
        let mut packed: u128 = 0;
        let mut mult: u128 = 1;
        let mut piece_idx: u32 = 0;
        let ghost v = pos@;
        proof {
            lemma_zero_bits();
        }
        let mut sq: u8 = 0;
        while sq < 64
            invariant
                v == pos@,
                0 <= sq <= 64,
                piece_count(v) <= 16,
                (packed as nat, piece_idx as nat) == pack(v, sq as int),
                mult == pow16(piece_idx as nat),
                forall|t: int| 0 <= t < 64 ==> (has_bit(occupancy, t) <==> t < sq && v.piece_at(t) is Some),
            decreases 64 - sq,
        {
            proof {
                lemma_pack(v, sq as int + 1, 64);
                lemma_pack(v, sq as int, sq as int);
            }
            match pos.piece_on(Square::from_index(sq)) {
                Some(piece) => {
                    proof {
                        lemma_single_bit(sq as u64);
                        lemma_or_bits(occupancy, 1u64 << (sq as u64));
                        lemma_pow16_mono((piece_idx + 1) as nat, 16);
                        lemma_pow16_16();
                    }
                    occupancy = occupancy | (1u64 << sq);
                    let code: u128 = piece.piece_type.index() as u128 + if piece.color == Color::Black { 8u128 } else { 0u128 };
                    assert(code * mult + packed < mult * 16) by (nonlinear_arith)
                        requires code <= 15, packed < mult;
                    packed = packed + code * mult;
                    mult = mult * 16;
                    piece_idx = piece_idx + 1;
                },
                None => {},
            }
            sq = sq + 1;
        }
        proof {
            lemma_pack(v, 64, 64);
            lemma_pow16_mono(piece_idx as nat, 16);
            lemma_pow16_16();
        }
        if score_white > 10000 || score_white < -10000 {
            return None;
        }
        Some(Record {
            occupancy,
            pieces: packed as u64,
            score: score_white as i16,
            wdl: wdl_white,
            stm: if pos.side == Color::White { 0 } else { 1 },
            _pad: [0u8; 16],
        })
    }
}

/// Byte `k` of `x`, little-endian.
pub open spec fn le_byte(x: nat, k: nat) -> u8 {
    ((x / pow256(k)) % 256) as u8
}

/// The 32 bytes of a record: occupancy, pieces (eight bytes each) and score (two bytes,
/// two's complement), little-endian, then the result and the side to move; the rest zero.
pub open spec fn record_bytes(r: Record) -> Seq<u8> {
    Seq::new(8, |k: int| le_byte(r.occupancy as nat, k as nat))
        + Seq::new(8, |k: int| le_byte(r.pieces as nat, k as nat))
        + Seq::new(2, |k: int| le_byte((r.score as u16) as nat, k as nat))
        + seq![r.wdl, r.stm]
        + Seq::new(12, |k: int| 0u8)
}

/// Writes `n` bytes of `x` little-endian from `off` on.
fn put_le(buf: &mut [u8; 32], off: usize, x: u64, n: usize)
    requires
        off + n <= 32,
    ensures
        forall|k: int| 0 <= k < n ==> #[trigger] le_byte(x as nat, k as nat) == final(buf)@[off + k],
        forall|i: int| 0 <= i < 32 && !(off <= i < off + n) ==> final(buf)@[i] == old(buf)@[i],
{
    let mut v = x;
    let mut k: usize = 0;
    assert(pow256(0) == 1);
    while k < n
        invariant
            off + n <= 32,
            0 <= k <= n,
            v as nat == x as nat / pow256(k as nat),
            forall|j: int| 0 <= j < k ==> #[trigger] le_byte(x as nat, j as nat) == buf@[off + j],
            forall|i: int| 0 <= i < 32 && !(off <= i < off + k) ==> buf@[i] == old(buf)@[i],
        decreases n - k,
    {
        buf[off + k] = (v % 256) as u8;
        proof {
            assert(pow256(k as nat) > 0) by {
                lemma_pow256_pos(k as nat);
            }
            vstd::arithmetic::div_mod::lemma_div_denominator(x as int, pow256(k as nat) as int, 256);
            assert(pow256((k + 1) as nat) == 256 * pow256(k as nat));
        }
        v = v / 256;
        k = k + 1;
    }
}

proof fn lemma_pow256_pos(n: nat)
    ensures
        pow256(n) > 0,
    decreases n,
{
    if n > 0 {
        lemma_pow256_pos((n - 1) as nat);
    }
}

impl Record {
    /// The record's 32 bytes.
    pub fn as_bytes(&self) -> (b: [u8; 32])
        ensures
            b@ == record_bytes(*self),
    {
        let mut buf = [0u8; 32];
        put_le(&mut buf, 0, self.occupancy, 8);
        put_le(&mut buf, 8, self.pieces, 8);
        put_le(&mut buf, 16, self.score as u16 as u64, 2);
        buf[18] = self.wdl;
        buf[19] = self.stm;
        assert(buf@ =~= record_bytes(*self));
        buf
    }
}


/// The number of pieces on the board, square by square.
pub fn count_pieces(pos: &Position) -> (n: u32)
    ensures
        n == piece_count(pos@),
{
    let mut n: u32 = 0;
    let mut s: u8 = 0;
    while s < 64
        invariant
            0 <= s <= 64,
            n == pack(pos@, s as int).1,
            n <= s,
        decreases 64 - s,
    {
        if pos.piece_on(Square::from_index(s)).is_some() {
            n = n + 1;
        }
        s = s + 1;
    }
    n
}

/// Whether `mv` is one of the moves of `moves`.
fn contains_move(moves: &Vec<crate::board::position::Move>, mv: crate::board::position::Move) -> (b: bool)
    ensures
        b == moves@.contains(mv),
{
    let mut i: usize = 0;
    while i < moves.len()
        invariant
            0 <= i <= moves@.len(),
            forall|k: int| 0 <= k < i ==> moves@[k] != mv,
        decreases moves@.len() - i,
    {
        if moves[i] == mv {
            return true;
        }
        i = i + 1;
    }
    false
}

/// Plays one self-play game, the first `random_plies` moves chosen by a hash of the
/// position, the rest by a search to `depth`, and gives the training records of the
/// searched positions not in check (none when `filter_draws` and the game is drawn; a
/// game not over after 400 searched moves counts as a draw). Positions with more pieces
/// than a record holds give no record; a position the move generator cannot take ends
/// the game.
#[verifier::rlimit(50)]
pub fn play_game<E: Fn(&Position, &NnueEval) -> i32>(
    depth: u32,
    random_plies: u32,
    filter_draws: bool,
    lmr: &Vec<[i32; 64]>,
    eval: &E,
) -> (records: Vec<Record>)
    requires
        lmr_ok(lmr@),
        eval_ok(eval),
    ensures
        forall|k: int| 0 <= k < records@.len() ==> (#[trigger] records@[k]).wdl == records@[0].wdl,
        forall|k: int| 0 <= k < records@.len() ==> (#[trigger] records@[k]).wdl <= 2,
        filter_draws ==> forall|k: int| 0 <= k < records@.len() ==> (#[trigger] records@[k]).wdl != 1,
        forall|k: int| 0 <= k < records@.len() ==> -10000 <= (#[trigger] records@[k]).score <= 10000,
{
    let mut pos = Position::startpos();
    let mut tt = TranspositionTable::new(16);
    let mut positions: Vec<(Position, i32)> = Vec::new();

    // Random opening
    let mut ply: u32 = 0;
    while ply < random_plies
        decreases random_plies - ply,
    {
        if !pos.is_valid() {
            return Vec::new();
        }
        let ghost v = pos@;
        let moves = legal_moves(&mut pos);
        proof { lemma_legal_ok(v); }
        if moves.moves.len() == 0 {
            return Vec::new();
        }
        let h = pos.hash.wrapping_mul(6364136223846793005).wrapping_add(1442695040888963407) >> 33;
        let idx = (h as usize) % moves.moves.len();
        let mv = moves.moves[idx];
        proof { crate::board::keep_wf::lemma_make_keeps_wf(v, mv); }
        pos.make_move(mv);
        ply = ply + 1;
    }

    // Self-play
    let mut outcome: Option<Outcome> = None;
    let mut n: u32 = 0;
    while n < 400
        invariant
            tt.wf(),
            tt.slots().len() > 0,
            forall|i: int| 0 <= i < tt.slots().len() ==> -32000 <= #[trigger] tt.slots()[i].score <= 32000,
            lmr_ok(lmr@),
            eval_ok(eval),
            forall|k: int| 0 <= k < positions@.len() ==> -32000 <= #[trigger] positions@[k].1 <= 32000,
        decreases 400 - n,
    {
        if !pos.is_valid() {
            break;
        }
        let ghost v = pos@;
        let moves = legal_moves(&mut pos);
        proof { lemma_legal_ok(v); }
        if moves.moves.len() == 0 {
            let in_check = is_in_check(&pos, pos.side);
            outcome = Some(if in_check {
                if pos.side == Color::White { Outcome::BlackWin } else { Outcome::WhiteWin }
            } else {
                Outcome::Draw
            });
            break;
        }
        if pos.is_fifty_move_draw() || pos.is_repetition() || pos.is_insufficient_material() {
            outcome = Some(Outcome::Draw);
            break;
        }
        let time = TimeManager::fixed_depth(depth);
        let (result, _) = search(&mut pos, &mut tt, time, lmr, eval);
        let score = result.score;
        if !is_in_check(&pos, pos.side) {
            positions.push((pos.duplicate(), score));
        }
        if result.best_move.is_null() {
            break;
        }
        let mv = result.best_move;
        if !contains_move(&moves.moves, mv) {
            break;
        }
        proof {
            let j = choose|j: int| 0 <= j < moves@.len() && moves@[j] == mv;
            assert(v.move_ok(legal_seq(v)[j]));
            crate::board::keep_wf::lemma_make_keeps_wf(v, mv);
        }
        pos.make_move(mv);
        n = n + 1;
    }

    let outcome = match outcome {
        Some(o) => o,
        None => Outcome::Draw,
    };
    let mut records: Vec<Record> = Vec::new();
    if filter_draws && outcome == Outcome::Draw {
        return records;
    }
    let wdl = outcome.wdl_white();
    let mut i: usize = 0;
    while i < positions.len()
        invariant
            0 <= i <= positions@.len(),
            forall|k: int| 0 <= k < positions@.len() ==> -32000 <= #[trigger] positions@[k].1 <= 32000,
            wdl <= 2,
            filter_draws ==> wdl != 1,
            forall|k: int| 0 <= k < records@.len() ==> (#[trigger] records@[k]).wdl == wdl,
            forall|k: int| 0 <= k < records@.len() ==> -10000 <= (#[trigger] records@[k]).score <= 10000,
        decreases positions@.len() - i,
    {
        let p = &positions[i].0;
        let score = positions[i].1;
        if count_pieces(p) <= 16 {
            match Record::from_position(p, score, wdl) {
                Some(r) => records.push(r),
                None => {},
            }
        }
        i = i + 1;
    }
    records
}

} // verus!
