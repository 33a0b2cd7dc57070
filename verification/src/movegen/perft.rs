//! Perft (performance test): the number of leaf nodes of the legal move tree to a
//! given depth, the standard check of a move generator.
use vstd::prelude::*;
use crate::board::position::{
    Move, Position, PositionView, lemma_make_board, lemma_make_can_unmake, lemma_move_ok_board,
    lemma_unmake_board, lemma_unmake_undoes_make,
};
use crate::movegen::legal::{legal_moves, legal_seq, lemma_legal_board, lemma_legal_ok};

verus! {

/// The number of leaves of the legal move tree of depth `d` below `v`.
pub open spec fn perft_count(v: PositionView, d: nat) -> nat
    decreases d, 0int,
{
    if d == 0 {
        1
    } else if d == 1 {
        legal_seq(v).len()
    } else {
        perft_sum(v, legal_seq(v), (d - 1) as nat)
    }
}

/// The sum of the leaf counts of depth `d` below the positions after each move of `ms`.
pub open spec fn perft_sum(v: PositionView, ms: Seq<Move>, d: nat) -> nat
    decreases d, ms.len(),
{
    if ms.len() == 0 {
        0
    } else {
        perft_sum(v, ms.drop_last(), d) + perft_count(v.make_spec(ms.last()), d)
    }
}

/// Every position of the legal move tree of depth `d` below `v` that moves are generated
/// in is consistent (its side to move has a king, the clocks can count, ...).
pub open spec fn perft_ok(v: PositionView, d: nat) -> bool
    decreases d,
{
    d == 0 || (v.valid() && (d == 1 || forall|i: int| 0 <= i < legal_seq(v).len()
        ==> perft_ok(v.make_spec(#[trigger] legal_seq(v)[i]), (d - 1) as nat)))
}

/// Perft counts depend on the board alone.
proof fn lemma_perft_board(x: PositionView, y: PositionView, d: nat)
    requires
        x.board() == y.board(),
    ensures
        perft_count(x, d) == perft_count(y, d),
        perft_ok(x, d) == perft_ok(y, d),
    decreases d, 0int,
{
    lemma_legal_board(x, y);
    lemma_move_ok_board(x, y, Move(0));
    if d > 1 {
        lemma_perft_sum_board(x, y, legal_seq(x), (d - 1) as nat);
        assert forall|i: int| 0 <= i < legal_seq(x).len() implies
            perft_ok(x.make_spec(#[trigger] legal_seq(x)[i]), (d - 1) as nat)
            == perft_ok(y.make_spec(legal_seq(x)[i]), (d - 1) as nat) by {
            let m = legal_seq(x)[i];
            lemma_make_board(x, y, m);
            lemma_perft_board(x.make_spec(m), y.make_spec(m), (d - 1) as nat);
        }
    }
}

proof fn lemma_perft_sum_board(x: PositionView, y: PositionView, ms: Seq<Move>, d: nat)
    requires
        x.board() == y.board(),
    ensures
        perft_sum(x, ms, d) == perft_sum(y, ms, d),
    decreases d, ms.len(),
{
    if ms.len() > 0 {
        lemma_perft_sum_board(x, y, ms.drop_last(), d);
        lemma_make_board(x, y, ms.last());
        lemma_perft_board(x.make_spec(ms.last()), y.make_spec(ms.last()), d);
    }
}

/// A sum over a prefix of the moves is at most the sum over all of them.
proof fn lemma_perft_sum_prefix(v: PositionView, ms: Seq<Move>, i: int, d: nat)
    requires
        0 <= i <= ms.len(),
    ensures
        perft_sum(v, ms.take(i), d) <= perft_sum(v, ms, d),
    decreases ms.len(),
{
    if i < ms.len() {
        assert(ms.drop_last().take(i) =~= ms.take(i));
        lemma_perft_sum_prefix(v, ms.drop_last(), i, d);
    } else {
        assert(ms.take(i) =~= ms);
    }
}

/// One step of the perft loop: the `i`-th legal move can be made in a position that
/// differs from `v` only in its hash, the tree below it is counted alike, and unmaking
/// it restores the position.
proof fn lemma_perft_step(v: PositionView, p0: PositionView, ms: Seq<Move>, i: int, d: nat)
    requires
        ms == legal_seq(v),
        v.valid(),
        1 <= d,
        perft_ok(v, d + 1),
        forall|j: int| 0 <= j < ms.len() ==> v.move_ok(#[trigger] ms[j]),
        p0.same_but_hash(v),
        0 <= i < ms.len(),
    ensures
        p0.move_ok(ms[i]),
        p0.make_spec(ms[i]).can_unmake(ms[i]),
        p0.make_spec(ms[i]).unmake_spec(ms[i], p0.unmake_state_spec(ms[i])).same_but_hash(p0),
        perft_ok(p0.make_spec(ms[i]), d),
        perft_count(p0.make_spec(ms[i]), d) == perft_count(v.make_spec(ms[i]), d),
        perft_sum(v, ms.take(i + 1), d) == perft_sum(v, ms.take(i), d) + perft_count(v.make_spec(ms[i]), d),
        perft_sum(v, ms.take(i + 1), d) <= perft_sum(v, ms, d),
{
    let mv = ms[i];
    assert(perft_ok(v.make_spec(legal_seq(v)[i]), d));
    lemma_perft_step_moves(v, p0, mv, d);
    lemma_perft_step_sum(v, ms, i, d);
}

#[verifier::spinoff_prover]
proof fn lemma_perft_step_moves(v: PositionView, p0: PositionView, mv: Move, d: nat)
    requires
        v.move_ok(mv),
        perft_ok(v.make_spec(mv), d),
        p0.same_but_hash(v),
    ensures
        p0.move_ok(mv),
        p0.make_spec(mv).can_unmake(mv),
        p0.make_spec(mv).unmake_spec(mv, p0.unmake_state_spec(mv)).same_but_hash(p0),
        perft_ok(p0.make_spec(mv), d),
        perft_count(p0.make_spec(mv), d) == perft_count(v.make_spec(mv), d),
{
    assert(p0.board() == v.board());
    lemma_move_ok_board(p0, v, mv);
    lemma_unmake_undoes_make(p0, mv);
    lemma_make_board(p0, v, mv);
    lemma_perft_board(p0.make_spec(mv), v.make_spec(mv), d);
}

#[verifier::spinoff_prover]
proof fn lemma_perft_step_sum(v: PositionView, ms: Seq<Move>, i: int, d: nat)
    requires
        0 <= i < ms.len(),
    ensures
        perft_sum(v, ms.take(i + 1), d) == perft_sum(v, ms.take(i), d) + perft_count(v.make_spec(ms[i]), d),
        perft_sum(v, ms.take(i + 1), d) <= perft_sum(v, ms, d),
{
    let s = ms.take(i + 1);
    assert(s.drop_last() =~= ms.take(i));
    assert(s.last() == ms[i]);
    lemma_perft_sum_prefix(v, ms, i + 1, d);
}

/// Returns the number of leaf nodes at the given depth.
#[verifier::rlimit(40)]
pub fn perft(pos: &mut Position, depth: u32) -> (nodes: u64)
    requires
        perft_ok(old(pos)@, depth as nat),
        perft_count(old(pos)@, depth as nat) <= u64::MAX,
    ensures
        nodes == perft_count(old(pos)@, depth as nat),
        final(pos)@ == old(pos)@,
    decreases depth,
{
    if depth == 0 {
        return 1;
    }
    let ghost v = pos@;
    let moves = legal_moves(pos);
    if depth == 1 {
        return moves.count as u64;
    }
    let ghost d = (depth - 1) as nat;
    proof {
        lemma_legal_ok(v);
    }
    let n = moves.moves.len();
    let mut nodes = 0u64;
    let mut i: usize = 0;
    while i < n
        invariant
            n == moves@.len(),
            moves@ == legal_seq(v),
            0 <= i <= n,
            d == depth - 1,
            1 <= d,
            v.valid(),
            perft_ok(v, d + 1),
            perft_sum(v, moves@, d) <= u64::MAX,
            forall|j: int| 0 <= j < moves@.len() ==> v.move_ok(#[trigger] moves@[j]),
            pos@ == v,
            nodes == perft_sum(v, moves@.take(i as int), d),
        decreases n - i,
    {
        let mv = moves.moves[i];
        proof {
            lemma_perft_step(v, v, moves@, i as int, d);
            lemma_unmake_undoes_make(v, mv);
        }
        let state = pos.make_move(mv);
        let sub = perft(pos, depth - 1);
        pos.unmake_move(mv, state);
        nodes = nodes + sub;
        i = i + 1;
    }
    proof {
        assert(moves@.take(n as int) =~= moves@);
    }
    nodes
}

} // verus!
