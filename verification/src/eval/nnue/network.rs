//! The network's forward pass: the two perspectives' hidden layers, clipped to
//! [0, QA], dotted with the output weights (side to move first), plus the output bias,
//! scaled to centipawns.
use vstd::prelude::*;
use crate::board::color::Color;
use crate::eval::{fits, total, runs_fit, quot, add_term};
use crate::eval::nnue::accumulator::AccumulatorState;
use crate::eval::nnue::weights::{NetworkWeights, QA, QAB, NETWORK_SCALE, L1_SIZE};

verus! {

/// ClippedReLU: clamp to [0, QA].
pub open spec fn clip(x: i16) -> int {
    if x < 0 { 0 } else if x > 255 { 255 } else { x as int }
}

/// The terms of the output sum: each clipped activation of the side to move, then of
/// the opponent, times its output weight, then the output bias.
pub open spec fn output_terms(state: AccumulatorState, stm: Color, w: Seq<i16>, bias: i16) -> Seq<int> {
    let (us, them) = if stm == Color::White { (state.white@, state.black@) } else { (state.black@, state.white@) };
    Seq::new(256, |n: int| clip(us[n]) * w[n]) + Seq::new(256, |n: int| clip(them[n]) * w[256 + n]) + seq![bias as int]
}

/// The running totals of the output sum fit in an `i32`, and so does its scaled value.
pub open spec fn forward_fits(state: AccumulatorState, stm: Color, weights: &NetworkWeights) -> bool {
    let t = output_terms(state, stm, weights.output_weights@, weights.output_bias);
    runs_fit(0, t) && fits(total(t) * 400)
}

/// ClippedReLU: clamp an `i16` to [0, QA].
fn clipped_relu(x: i16) -> (r: i16)
    ensures
        r == clip(x),
{
    if x < 0 { 0 } else if x > 255 { 255 } else { x }
}

/// Adds the products of the clipped activations `acc` and the output weights from
/// `offset` on.
fn dot_half(acc: &[i16; 256], weights: &NetworkWeights, offset: usize, sum: i32, later: Ghost<Seq<int>>) -> (r: i32)
    requires
        weights.wf(),
        offset == 0 || offset == 256,
        runs_fit(sum as int, Seq::new(256, |n: int| clip(acc@[n]) * weights.output_weights@[offset + n]) + later@),
    ensures
        runs_fit(r as int, later@),
        r + total(later@) == sum + total(Seq::new(256, |n: int| clip(acc@[n]) * weights.output_weights@[offset + n]) + later@),
{
    let ghost t = Seq::new(256, |n: int| clip(acc@[n]) * weights.output_weights@[offset + n]);
    let mut s = sum;
    let mut n: usize = 0;
    assert(t.subrange(0, 256) =~= t);
    while n < L1_SIZE
        invariant
            weights.wf(),
            offset == 0 || offset == 256,
            t == Seq::new(256, |n: int| clip(acc@[n]) * weights.output_weights@[offset + n]),
            0 <= n <= 256,
            runs_fit(s as int, t.subrange(n as int, 256) + later@),
            s + total(t.subrange(n as int, 256) + later@) == sum + total(t + later@),
        decreases 256 - n,
    {
        let a = clipped_relu(acc[n]);
        let wn = weights.output_weights[offset + n];
        assert(-8388608 <= (a as int) * (wn as int) <= 8388608) by (nonlinear_arith)
            requires
                0 <= a <= 255,
                -32768 <= wn <= 32767;
        let x = (a as i32) * (wn as i32);
        assert(t.subrange(n as int, 256) + later@ =~= seq![x as int] + (t.subrange(n as int + 1, 256) + later@));
        s = add_term(s, x, Ghost(t.subrange(n as int + 1, 256) + later@));
        n = n + 1;
    }
    assert(t.subrange(256, 256) + later@ =~= later@);
    assert(t.subrange(0, 256) =~= t);
    s
}

/// Run the forward pass: a score in centipawns from the side to move's perspective.
pub fn forward(state: &AccumulatorState, stm: Color, weights: &NetworkWeights) -> (r: i32)
    requires
        weights.wf(),
        forward_fits(*state, stm, weights),
    ensures
        r == quot(total(output_terms(*state, stm, weights.output_weights@, weights.output_bias)) * 400, 16320),
{
    let (stm_acc, opp_acc) = match stm {
        Color::White => (&state.white, &state.black),
        Color::Black => (&state.black, &state.white),
    };
    let ghost a = Seq::new(256, |n: int| clip(stm_acc@[n]) * weights.output_weights@[n]);
    let ghost b = Seq::new(256, |n: int| clip(opp_acc@[n]) * weights.output_weights@[256 + n]);
    let ghost c = seq![weights.output_bias as int];
    let ghost t = output_terms(*state, stm, weights.output_weights@, weights.output_bias);
    assert(t =~= a + (b + c));
    assert(a =~= Seq::new(256, |n: int| clip(stm_acc@[n]) * weights.output_weights@[0 + n]));
    let mut sum: i32 = 0;
    sum = dot_half(stm_acc, weights, 0, sum, Ghost(b + c));
    sum = dot_half(opp_acc, weights, 256, sum, Ghost(c));
    assert(c =~= seq![weights.output_bias as int] + Seq::<int>::empty());
    sum = add_term(sum, weights.output_bias as i32, Ghost(Seq::<int>::empty()));
    assert(total(Seq::<int>::empty()) == 0);
    sum * NETWORK_SCALE / QAB
}

} // verus!
