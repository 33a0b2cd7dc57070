//! NNUE evaluation: the weights, the incremental accumulator and the forward pass. No
//! network is embedded, so the evaluator stays inactive and evaluation falls back to the
//! hand-crafted terms.
//!
//! Around a move: `push` before making it, then `refresh` if `needs_refresh`; after
//! unmaking it, `pop`.
pub mod weights;
pub mod accumulator;
pub mod network;

use vstd::prelude::*;
use crate::board::color::Color;
use crate::board::piece::PieceType;
use crate::board::position::{Move, Position};
use crate::eval::quot;
use crate::eval::nnue::accumulator::{Accumulator, AccumulatorState, apply_ops, layers, move_ops, refresh_ops};
use crate::eval::nnue::network::{forward, forward_fits, output_terms};
use crate::eval::nnue::weights::NetworkWeights;

verus! {

/// Stateful NNUE evaluator: the network weights, if any, and the incremental accumulator.
pub struct NnueEval {
    weights: Option<NetworkWeights>,
    accumulator: Accumulator,
    /// The last push was a king move and a refresh is pending.
    needs_refresh: bool,
}

impl NnueEval {
    /// The loaded weights, if any.
    pub closed spec fn weights_spec(&self) -> Option<NetworkWeights> {
        self.weights
    }

    /// The accumulator's stack of states, the current one last.
    pub closed spec fn states(&self) -> Seq<AccumulatorState> {
        self.accumulator@
    }

    /// A refresh is pending.
    pub closed spec fn pending(&self) -> bool {
        self.needs_refresh
    }

    /// Loaded weights have their sizes.
    pub open spec fn wf(&self) -> bool {
        self.weights_spec() matches Some(w) ==> w.wf()
    }

    /// A new evaluator, with the embedded network if there is one (there is none).
    pub fn new() -> (e: Self)
        ensures
            e.wf(),
            e.weights_spec() is None,
            e.states() == Seq::<AccumulatorState>::empty(),
            !e.pending(),
    {
        NnueEval { weights: NetworkWeights::load(), accumulator: Accumulator::new(), needs_refresh: false }
    }

    /// A network is loaded and NNUE evaluation is active.
    pub fn is_active(&self) -> (b: bool)
        ensures
            b == self.weights_spec() is Some,
    {
        self.weights.is_some()
    }

    /// Full refresh from the position; without a network, nothing happens.
    pub fn refresh(&mut self, pos: &Position)
        requires
            old(self).wf(),
            pos@.bb(Color::White, PieceType::King) != 0,
            pos@.bb(Color::Black, PieceType::King) != 0,
        ensures
            final(self).wf(),
            final(self).weights_spec() == old(self).weights_spec(),
            old(self).weights_spec() is None ==> *final(self) == *old(self),
            old(self).weights_spec() matches Some(w) ==> {
                &&& !final(self).pending()
                &&& final(self).states().len() == (if old(self).states().len() == 0 { 1 } else { old(self).states().len() })
                &&& final(self).states().drop_last() == (if old(self).states().len() == 0 { old(self).states() } else { old(self).states().drop_last() })
                &&& layers(final(self).states().last()) == apply_ops((w.feature_biases@, w.feature_biases@),
                    refresh_ops(pos@, 12), w.feature_weights@)
            },
    {
        match &self.weights {
            Some(w) => {
                self.accumulator.refresh(pos, w);
                self.needs_refresh = false;
            },
            None => {},
        }
    }

    /// The last push was a king move and a refresh is needed.
    pub fn needs_refresh(&self) -> (b: bool)
        ensures
            b == self.pending(),
    {
        self.needs_refresh
    }

    /// Updates the accumulator for `mv`, before it is made. A king move leaves a refresh
    /// pending; without a network, nothing happens.
    pub fn push(&mut self, pos: &Position, mv: Move)
        requires
            old(self).wf(),
            old(self).weights_spec() is Some ==> {
                &&& old(self).states().len() > 0
                &&& pos@.bb(Color::White, PieceType::King) != 0
                &&& pos@.bb(Color::Black, PieceType::King) != 0
                &&& pos@.piece_type_at(mv.from_idx(), pos.side) is Some
                &&& mv.flag_spec() == 4 && pos@.moving_type(mv) != PieceType::King ==>
                    0 <= (if pos.side == Color::White { mv.to_idx() - 8 } else { mv.to_idx() + 8 }) < 64
            },
        ensures
            final(self).wf(),
            final(self).weights_spec() == old(self).weights_spec(),
            old(self).weights_spec() is None ==> *final(self) == *old(self),
            old(self).weights_spec() matches Some(w) ==> {
                &&& final(self).pending() == (pos@.moving_type(mv) == PieceType::King)
                &&& final(self).states().len() == old(self).states().len() + 1
                &&& final(self).states().drop_last() == old(self).states()
                &&& layers(final(self).states().last()) == apply_ops(layers(old(self).states().last()),
                    move_ops(pos@, mv), w.feature_weights@)
            },
    {
        match &self.weights {
            Some(w) => {
                let is_king_move = match pos.piece_type_on(mv.from(), pos.side) {
                    Some(pt) => pt == PieceType::King,
                    None => false,
                };
                self.accumulator.push_move(pos, mv, w);
                self.needs_refresh = is_king_move;
            },
            None => {},
        }
    }

    /// Drops the state of the last push, after the move is unmade; without a network,
    /// nothing happens.
    pub fn pop(&mut self)
        requires
            old(self).wf(),
        ensures
            final(self).wf(),
            final(self).weights_spec() == old(self).weights_spec(),
            old(self).weights_spec() is None ==> *final(self) == *old(self),
            old(self).weights_spec() is Some ==> {
                &&& !final(self).pending()
                &&& final(self).states() == (if old(self).states().len() > 0 { old(self).states().drop_last() } else { old(self).states() })
            },
    {
        if self.weights.is_some() {
            self.accumulator.pop_move();
            self.needs_refresh = false;
        }
    }

    /// The forward pass on the current state, in centipawns from the side to move's
    /// perspective; `None` without a network.
    pub fn evaluate(&self, pos: &Position) -> (r: Option<i32>)
        requires
            self.wf(),
            self.weights_spec() matches Some(w) ==> self.states().len() > 0
                && forward_fits(self.states().last(), pos.side, &w),
        ensures
            match self.weights_spec() {
                None => r is None,
                Some(w) => r == Some(quot(total_of(self.states().last(), pos.side, &w) * 400, 16320) as i32),
            },
    {
        match &self.weights {
            Some(w) => {
                let state = self.accumulator.current();
                Some(forward(state, pos.side, w))
            },
            None => None,
        }
    }
}

/// The sum of the output terms of a state.
pub open spec fn total_of(state: AccumulatorState, stm: Color, w: &NetworkWeights) -> int {
    crate::eval::total(output_terms(state, stm, w.output_weights@, w.output_bias))
}

} // verus!
