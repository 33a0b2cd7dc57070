//! A UCI session's position: set from a FEN and a list of moves.
use vstd::prelude::*;
use vstd::string::StringSliceAdditionalSpecFns;
use crate::board::fen::{fen_spec, fen_result};
use crate::board::position::{Position, PositionView};
use crate::movegen::legal::{legal_seq, lemma_legal_ok};
use crate::uci::parser::{parse_move, uci_move_spec, move_text_ok};

verus! {

/// The position after playing the move text `s` in `v`, if `v` is consistent and `s`
/// names a legal move there.
#[verifier::opaque]
pub open spec fn step_of(v: PositionView, s: Seq<char>) -> Option<PositionView> {
    if v.valid() && move_text_ok(s) {
        match uci_move_spec(v, s) {
            Some(m) => Some(v.make_spec(m)),
            None => None,
        }
    } else {
        None
    }
}

/// Plays the move text `s`, if the position is consistent and it names a legal move.
pub fn play_move(pos: &mut Position, s: &str) -> (ok: bool)
    ensures
        ok <==> step_of(old(pos)@, s@) is Some,
        ok ==> step_of(old(pos)@, s@) == Some(final(pos)@),
        !ok ==> final(pos)@ == old(pos)@,
{
    reveal(step_of);
    let ghost v = pos@;
    if !pos.is_valid() {
        return false;
    }
    if s.as_bytes().len() >= 4 && !(s.is_char_boundary(2) && s.is_char_boundary(4)) {
        return false;
    }
    match parse_move(pos, s) {
        Some(mv) => {
            proof {
                let (f, t) = crate::uci::parser::move_squares_spec(s@)->Some_0;
                let p = crate::uci::parser::uci_match(f, t, crate::uci::parser::promo_char(s@));
                let c = legal_seq(v).filter(p);
                lemma_legal_ok(v);
                assert(c.contains(c[0]));
                legal_seq(v).lemma_filter_contains_rev(p, c[0]);
            }
            pos.make_move(mv);
            true
        },
        None => false,
    }
}

/// The moves of a list played in turn from `v`; a move that cannot be played is
/// skipped.
pub open spec fn play_all(v: PositionView, texts: Seq<Seq<char>>) -> PositionView
    decreases texts.len(),
{
    if texts.len() == 0 {
        v
    } else {
        let w = play_all(v, texts.drop_last());
        match step_of(w, texts.last()) {
            Some(x) => x,
            None => w,
        }
    }
}

/// The position of a `position` command: the FEN's position, or the start position if
/// the FEN does not read, then each move that can be played, in turn.
pub fn set_position(fen: &str, moves: &Vec<String>) -> (pos: Position)
    requires
        !crate::board::fen::fen_overruns(fen@),
    ensures
        ({
            let start = match fen_spec(fen@) {
                Ok(v) => v,
                Err(_) => fen_spec(crate::board::position::STARTPOS_FEN@)->Ok_0,
            };
            pos@ == play_all(start, Seq::new(moves@.len(), |i: int| moves@[i]@))
        }),
{
    let mut pos = match Position::from_fen(fen) {
        Ok(p) => p,
        Err(_) => Position::startpos(),
    };
    let ghost start = pos@;
    let ghost texts = Seq::new(moves@.len(), |i: int| moves@[i]@);
    let mut i: usize = 0;
    while i < moves.len()
        invariant
            0 <= i <= moves@.len(),
            texts == Seq::new(moves@.len(), |i: int| moves@[i]@),
            pos@ == play_all(start, texts.take(i as int)),
        decreases moves@.len() - i,
    {
        let ghost before = pos@;
        let _ = play_move(&mut pos, moves[i].as_str());
        proof {
            let t = texts.take(i as int + 1);
            assert(t.drop_last() =~= texts.take(i as int));
            assert(t.last() == moves@[i as int]@);
        }
        i = i + 1;
    }
    assert(texts.take(moves@.len() as int) =~= texts);
    pos
}

} // verus!
